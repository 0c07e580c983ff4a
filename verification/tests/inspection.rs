use cadder::caddy_config::{ActivationState, DomainName, EntrypointRegistration, RegisteredDomain};
use cadder::inspection::{
    caddyfile_path, display_socket, display_upstream, local_upstream, owners_for_ports, parse_ip_address, projects_for_caddyfile,
    routes_for_domain, routes_for_port, ComparablePaths, IpAddress, PortOwner, ProcessEntry, SocketEntry,
    SocketProtocol,
};

fn project(id: &str, dir: &str, domains: &[(&str, Option<&str>)]) -> EntrypointRegistration {
    EntrypointRegistration {
        registration_id: id.to_string(),
        source_working_directory: dir.to_string(),
        source_config_path: "Caddyfile".to_string(),
        registered_domains: domains
            .iter()
            .map(|(name, upstream)| RegisteredDomain {
                name: DomainName { raw: name.to_string(), canonical: name.to_ascii_lowercase() },
                activation_state: ActivationState::Active,
                upstream: upstream.map(str::to_string),
            })
            .collect(),
        activation_state: ActivationState::Active,
    }
}

fn v4(a: u8, b: u8, c: u8, d: u8) -> IpAddress {
    IpAddress { is_v6: false, bits: u32::from_be_bytes([a, b, c, d]) as u128 }
}

#[test]
fn recognizes_local_upstream_aliases() {
    for upstream in [
        "localhost:3000",
        "127.0.0.1:3000",
        "[::1]:3000",
        "0.0.0.0:3000",
        ":3000",
        "3000",
        "http://localhost:3000/path",
    ] {
        assert_eq!(local_upstream(upstream), Some(3000));
        assert_eq!(display_upstream(upstream), ":3000");
    }
}

#[test]
fn excludes_remote_and_dynamic_upstreams() {
    assert_eq!(local_upstream("api.example.com:3000"), None);
    assert_eq!(local_upstream("{env.UPSTREAM}"), None);
}

#[test]
fn port_correlation_includes_only_local_upstreams() {
    let regs = vec![project(
        "entry-1",
        "/work/app",
        &[("local.example", Some("localhost:3000")), ("remote.example", Some("api.example.com:3000"))],
    )];
    let routes = routes_for_port(&regs, 3000);
    assert_eq!(routes.len(), 1);
    assert_eq!(regs[routes[0].project].registered_domains[routes[0].domain].name.canonical, "local.example");
    assert_eq!(routes[0].upstream, "localhost:3000");
}

#[test]
fn caddyfile_correlation_matches_normalized_path() {
    let regs = vec![project("entry-1", "/work/app", &[]), project("entry-2", "/work/other", &[])];
    let paths = vec![
        ComparablePaths { config_path: "/work/app/Caddyfile".to_string(), canonical_path: None },
        ComparablePaths {
            config_path: "/work/other/Caddyfile".to_string(),
            canonical_path: Some("/real/other/Caddyfile".to_string()),
        },
    ];
    assert_eq!(projects_for_caddyfile(&regs, &paths, "/work/app/Caddyfile"), vec![0]);
    assert_eq!(projects_for_caddyfile(&regs, &paths, "/real/other/Caddyfile"), vec![1]);
    assert!(projects_for_caddyfile(&regs, &paths, "/elsewhere/Caddyfile").is_empty());
}

#[test]
fn routes_are_ordered_by_project_and_domain() {
    let regs = vec![
        project("b", "/work/b", &[("z.localhost", Some(":3000")), ("a.localhost", Some("3000"))]),
        project("a", "/work/a", &[("m.localhost", Some("127.0.0.1:3000"))]),
    ];
    let routes = routes_for_port(&regs, 3000);
    let order: Vec<(usize, usize)> = routes.iter().map(|r| (r.project, r.domain)).collect();
    assert_eq!(order, vec![(1, 0), (0, 1), (0, 0)]);

    let paths: Vec<ComparablePaths> = regs
        .iter()
        .map(|r| ComparablePaths { config_path: format!("{}/Caddyfile", r.source_working_directory), canonical_path: None })
        .collect();
    let by_domain = routes_for_domain(&regs, " A.LOCALHOST. ", None, &paths);
    assert_eq!(by_domain.len(), 1);
    assert_eq!((by_domain[0].project, by_domain[0].domain), (0, 1));
    assert!(routes_for_domain(&regs, "a.localhost", Some("/work/a/Caddyfile"), &paths).is_empty());
}

#[test]
fn owners_are_ordered_and_repeated_holders_dropped() {
    let sockets = vec![
        SocketEntry { protocol: SocketProtocol::Udp, tcp_listening: false, local_address: v4(127, 0, 0, 1), port: 3000, pids: vec![] },
        SocketEntry { protocol: SocketProtocol::Tcp, tcp_listening: true, local_address: v4(0, 0, 0, 0), port: 3000, pids: vec![42, 7] },
        SocketEntry { protocol: SocketProtocol::Tcp, tcp_listening: true, local_address: v4(0, 0, 0, 0), port: 3000, pids: vec![42] },
        SocketEntry { protocol: SocketProtocol::Tcp, tcp_listening: false, local_address: v4(0, 0, 0, 0), port: 3000, pids: vec![9] },
        SocketEntry { protocol: SocketProtocol::Tcp, tcp_listening: true, local_address: v4(0, 0, 0, 0), port: 4000, pids: vec![5] },
    ];
    let processes = vec![ProcessEntry { pid: 42, name: "server".to_string(), executable_path: Some("/usr/bin/server".to_string()) }];
    let owners = owners_for_ports(&sockets, &vec![3000], &processes);
    let summary: Vec<(SocketProtocol, Option<u32>, Option<String>)> =
        owners.iter().map(|o| (o.protocol, o.pid, o.process_name.clone())).collect();
    assert_eq!(
        summary,
        vec![
            (SocketProtocol::Tcp, Some(7), None),
            (SocketProtocol::Tcp, Some(42), Some("server".to_string())),
            (SocketProtocol::Udp, None, None),
        ]
    );
    assert_eq!(owners[1].executable_path.as_deref(), Some("/usr/bin/server"));
}

#[test]
fn sockets_are_shown_by_address_family() {
    let owner = |address: IpAddress| PortOwner {
        protocol: SocketProtocol::Tcp,
        local_address: address,
        port: 3000,
        pid: None,
        process_name: None,
        executable_path: None,
    };
    assert_eq!(display_socket(&owner(v4(127, 0, 0, 1))), ":3000");
    assert_eq!(display_socket(&owner(v4(0, 0, 0, 0))), ":3000");
    assert_eq!(display_socket(&owner(v4(192, 0, 2, 1))), "192.0.2.1:3000");
    let v6 = parse_ip_address("2001:db8::1").unwrap();
    assert!(v6.is_v6);
    assert_eq!(display_socket(&owner(v6)), "[2001:db8::1]:3000");
    assert_eq!(display_socket(&owner(IpAddress { is_v6: true, bits: 1 })), ":3000");
    assert_eq!(SocketProtocol::Udp.label(), "udp");
    assert!(parse_ip_address("localhost").is_none());
}

#[test]
fn relative_caddyfile_is_joined_under_the_project_directory() {
    let relative = project("p", "/work/p", &[]);
    let joined = caddyfile_path(&relative);
    let separator = std::path::MAIN_SEPARATOR;
    assert_eq!(joined, format!("/work/p{separator}Caddyfile"));
    let trailing = project("q", "/work/q/", &[]);
    assert_eq!(caddyfile_path(&trailing), "/work/q/Caddyfile");
    let mut absolute = project("a", "/work/a", &[]);
    absolute.source_config_path = "/etc/caddy/Caddyfile".to_string();
    if std::path::Path::new("/etc/caddy/Caddyfile").is_absolute() {
        assert_eq!(caddyfile_path(&absolute), "/etc/caddy/Caddyfile");
    }
}
