use std::cell::RefCell;

use cadder::commands::{
    confirm_kill_target, domain_not_found, group_owners_by_port, kill_port_owner, refuse_own_process,
    route_owner_ports, signal_outcome, unique_project, CommandFailure, ProcessInspector, ProcessSignalError,
};
use cadder::inspection::{IpAddress, PortOwner, RouteMatch, SocketProtocol};
use cadder::operator::{AppExit, OperatorError};

struct FakeInspector {
    owners: Vec<PortOwner>,
    killed: RefCell<Vec<u32>>,
}

impl ProcessInspector for FakeInspector {
    fn owners_for_ports(&self, ports: &Vec<u16>) -> Result<Vec<PortOwner>, String> {
        Ok(self.owners.iter().filter(|owner| ports.contains(&owner.port)).map(|owner| owner.copy()).collect())
    }

    fn kill(&self, pid: u32) -> Result<(), ProcessSignalError> {
        self.killed.borrow_mut().push(pid);
        Ok(())
    }
}

fn owner(port: u16, pid: Option<u32>) -> PortOwner {
    PortOwner {
        protocol: SocketProtocol::Tcp,
        local_address: IpAddress { is_v6: false, bits: 0x7f00_0001 },
        port,
        pid,
        process_name: None,
        executable_path: None,
    }
}

#[test]
fn kill_refuses_when_expected_pid_no_longer_owns_port() {
    let inspector = FakeInspector { owners: vec![owner(3000, Some(20))], killed: RefCell::new(Vec::new()) };

    let error = kill_port_owner(&inspector, 1, 3000, 10).expect_err("owner changed");

    assert_eq!(error.kind, AppExit::ConflictOrRejected);
    assert!(inspector.killed.borrow().is_empty());
}

#[test]
fn kill_signals_only_the_expected_owner_when_port_has_multiple_owners() {
    let inspector = FakeInspector {
        owners: vec![owner(3000, None), owner(3000, Some(10)), owner(3000, Some(20))],
        killed: RefCell::new(Vec::new()),
    };

    let line = kill_port_owner(&inspector, 1, 3000, 20).expect("expected owner should be signaled");

    assert_eq!(*inspector.killed.borrow(), [20]);
    assert_eq!(line, "Sent the termination signal to PID 20 on port 3000.");
}

#[test]
fn kill_refuses_the_commands_own_process() {
    let inspector = FakeInspector { owners: vec![owner(3000, Some(7))], killed: RefCell::new(Vec::new()) };
    let error = kill_port_owner(&inspector, 7, 3000, 7).expect_err("own process");
    assert_eq!(error.message, "Cadder refuses to terminate its own operator process.");
    assert!(inspector.killed.borrow().is_empty());
    assert!(refuse_own_process(7, 8).is_ok());
}

#[test]
fn kill_target_check_and_signal_outcomes_report_each_case() {
    let owners = vec![owner(8080, Some(5))];
    assert!(confirm_kill_target(8080, 5, &owners).is_ok());
    let changed = confirm_kill_target(8080, 6, &owners).unwrap_err();
    assert_eq!(changed.message, "PID 6 no longer owns a listening socket on port 8080; no process was signaled.");
    assert_eq!(changed.guidance.as_deref(), Some("Run `cadder port inspect <port>` again before retrying."));

    let gone = signal_outcome(8080, 5, Err(ProcessSignalError::NotFound)).unwrap_err();
    assert_eq!(gone.kind, AppExit::TargetNotFound);
    assert_eq!(gone.message, "Process 5 no longer exists.");
    let rejected = signal_outcome(8080, 5, Err(ProcessSignalError::Rejected)).unwrap_err();
    assert_eq!(rejected.kind, AppExit::PermissionOrElevation);
    assert_eq!(rejected.message, "The operating system rejected the termination signal for PID 5.");
}

#[test]
fn owner_ports_are_the_distinct_local_upstream_ports() {
    let route = |upstream: &str| RouteMatch { project: 0, domain: 0, upstream: upstream.to_string() };
    let routes = vec![route("localhost:8080"), route("127.0.0.1:3000"), route("8080"), route("example.com:9000"), route("-")];
    assert_eq!(route_owner_ports(&routes), vec![3000, 8080]);
}

#[test]
fn owners_are_grouped_by_port_including_ports_without_owners() {
    let owners = vec![owner(8080, Some(1)), owner(3000, Some(2)), owner(8080, Some(3))];
    let groups = group_owners_by_port(&vec![8080, 3000, 4000], &owners);
    let ports: Vec<u16> = groups.iter().map(|(port, _)| *port).collect();
    assert_eq!(ports, vec![3000, 4000, 8080]);
    assert_eq!(groups[0].1.len(), 1);
    assert!(groups[1].1.is_empty());
    let pids: Vec<Option<u32>> = groups[2].1.iter().map(|o| o.pid).collect();
    assert_eq!(pids, vec![Some(1), Some(3)]);
}

#[test]
fn project_and_domain_lookups_report_missing_and_ambiguous_targets() {
    assert_eq!(unique_project("/p/Caddyfile", &vec![2]).unwrap(), 2);
    let missing = unique_project("/p/Caddyfile", &vec![]).unwrap_err();
    assert_eq!(missing.kind, AppExit::TargetNotFound);
    assert_eq!(missing.message, "Caddyfile `/p/Caddyfile` is not registered.");
    let ambiguous = unique_project("/p/Caddyfile", &vec![0, 1]).unwrap_err();
    assert_eq!(ambiguous.kind, AppExit::ConflictOrRejected);

    assert_eq!(domain_not_found("app.localhost", None).message, "Domain `app.localhost` was not found.");
    assert_eq!(
        domain_not_found("app.localhost", Some("/p/Caddyfile")).message,
        "Domain `app.localhost` was not found in `/p/Caddyfile`."
    );
}

#[test]
fn command_failures_carry_kind_message_and_guidance() {
    let inspection = CommandFailure::inspection("access denied");
    assert_eq!(inspection.message, "Could not inspect local sockets: access denied.");
    assert_eq!(inspection.kind, AppExit::IpcFailure);
    let operator = CommandFailure::from_operator(OperatorError::invalid_usage("port", "bad port".to_string(), Some("retry".to_string())));
    assert_eq!(operator.kind, AppExit::InvalidUsage);
    assert_eq!(operator.report_lines(), vec!["bad port".to_string(), "retry".to_string()]);
    assert_eq!(CommandFailure::ipc("worker failed".to_string()).report_lines(), vec!["worker failed".to_string()]);
}
