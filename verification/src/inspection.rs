//! What the client reads about the host: which processes own a port, which upstreams point
//! at this machine, and which registered routes and projects a port, a domain or a Caddyfile
//! belongs to.
//!
//! The socket and process tables are read by the caller; this module filters, orders and
//! matches what they report.

use vstd::prelude::*;
use crate::caddy_config::{EntrypointRegistration, RegisteredDomain};
use crate::data_model::{keys_view, stable_order, stable_sort_positions, lemma_stable_order_covers};
use crate::domain::{canonical_domain, canonicalize_domain, trim, trim_str};
use crate::ordered::{lex_lt, text_eq, text_lt};
use crate::data_model::copy_opt;
use crate::path_trust::{path_is_absolute, plainly_relative};
use crate::table::unbracketed;
use crate::text::{
    chars_eq_ignore_ascii_case, decimal_digits, eq_ignore_ascii_case, first_index, from_chars,
    last_index, lemma_first_index, lemma_last_index, parse_u16, parse_u16_chars, push_char, push_str,
    find_char, rfind_char, slice_chars, to_chars, u64_to_decimal,
};

verus! {

// ---------------------------------------------------------------------------------------
// IP addresses
// ---------------------------------------------------------------------------------------

/// An IP address: its family, then its bits (an IPv4 address in the low 32 bits).
#[derive(Debug, Clone, Copy, PartialEq, Eq, Structural)]
pub struct IpAddress {
    pub is_v6: bool,
    pub bits: u128,
}

/// An IPv4 address fits in 32 bits.
pub open spec fn ip_wf(a: IpAddress) -> bool {
    !a.is_v6 ==> a.bits < 0x1_0000_0000
}

/// The loopback addresses: `127.0.0.0/8` and `::1`.
pub open spec fn ip_is_loopback(a: IpAddress) -> bool {
    if a.is_v6 {
        a.bits == 1
    } else {
        a.bits / 0x100_0000 == 127
    }
}

/// The unspecified addresses: `0.0.0.0` and `::`.
pub open spec fn ip_is_unspecified(a: IpAddress) -> bool {
    a.bits == 0
}

impl IpAddress {
    /// Whether this is a loopback address.
    pub fn is_loopback(&self) -> (r: bool)
        ensures
            r == ip_is_loopback(*self),
    {
        if self.is_v6 {
            self.bits == 1
        } else {
            self.bits / 0x100_0000 == 127
        }
    }

    /// Whether this is the unspecified address.
    pub fn is_unspecified(&self) -> (r: bool)
        ensures
            r == ip_is_unspecified(*self),
    {
        self.bits == 0
    }
}

/// The family and bits of the address that a text spells, as `core::net::IpAddr`'s
/// `FromStr` reads it, or nothing when the text is no IP address.
pub uninterp spec fn parsed_ip_address(text: Seq<char>) -> Option<(bool, u128)>;

/// Parses an IP address (`core::net::IpAddr`'s `FromStr`).
#[verifier::external_body]
pub fn parse_ip_address(text: &str) -> (r: Option<IpAddress>)
    ensures
        match r {
            Some(a) => parsed_ip_address(text@) == Some((a.is_v6, a.bits)) && ip_wf(a),
            None => parsed_ip_address(text@) is None,
        },
{
    match text.parse::<core::net::IpAddr>() {
        Ok(core::net::IpAddr::V4(a)) => Some(IpAddress { is_v6: false, bits: a.to_bits() as u128 }),
        Ok(core::net::IpAddr::V6(a)) => Some(IpAddress { is_v6: true, bits: a.to_bits() }),
        Err(_) => None,
    }
}

/// The address that a text spells, when it is one.
pub open spec fn ip_of(text: Seq<char>) -> Option<IpAddress> {
    match parsed_ip_address(text) {
        Some(p) => Some(IpAddress { is_v6: p.0, bits: p.1 }),
        None => None,
    }
}

/// How `core::net::IpAddr` displays an address of a family and bits.
pub uninterp spec fn ip_address_text(is_v6: bool, bits: u128) -> Seq<char>;

/// Writes an address as `core::net::IpAddr` displays it (of an IPv4 address, only the low
/// 32 bits are read).
#[verifier::external_body]
fn ip_text(address: IpAddress) -> (r: String)
    ensures
        r@ == ip_address_text(address.is_v6, address.bits),
{
    let ip = if address.is_v6 {
        core::net::IpAddr::V6(core::net::Ipv6Addr::from_bits(address.bits))
    } else {
        core::net::IpAddr::V4(core::net::Ipv4Addr::from_bits(address.bits as u32))
    };
    ip.to_string()
}

// ---------------------------------------------------------------------------------------
// Local upstreams
// ---------------------------------------------------------------------------------------

/// Whether `t` starts with `p`.
pub open spec fn has_prefix(t: Seq<char>, p: Seq<char>) -> bool {
    t.len() >= p.len() && t.subrange(0, p.len() as int) == p
}

/// An upstream without its `http://` or `https://` scheme.
pub open spec fn without_scheme(t: Seq<char>) -> Seq<char> {
    if has_prefix(t, "http://"@) {
        t.subrange(7, t.len() as int)
    } else if has_prefix(t, "https://"@) {
        t.subrange(8, t.len() as int)
    } else {
        t
    }
}

/// The text before the first `/`.
pub open spec fn before_slash(t: Seq<char>) -> Seq<char> {
    match first_index(t, '/') {
        Some(k) => t.subrange(0, k),
        None => t,
    }
}

/// The authority of an upstream: without surrounding whitespace and scheme, up to its path.
pub open spec fn upstream_authority(upstream: Seq<char>) -> Seq<char> {
    before_slash(without_scheme(trim(upstream)))
}

/// Whether a host names this machine: empty, `localhost` in any ASCII case, or a loopback or
/// unspecified IP address.
pub open spec fn host_is_local(host: Seq<char>) -> bool {
    host.len() == 0 || eq_ignore_ascii_case(host, "localhost"@) || match ip_of(host) {
        Some(a) => ip_is_loopback(a) || ip_is_unspecified(a),
        None => false,
    }
}

/// The local port an upstream points at: a bare port, or `host:port` whose host names this
/// machine (an IPv6 host may be bracketed).
pub open spec fn local_port(upstream: Seq<char>) -> Option<u16> {
    let a = upstream_authority(upstream);
    match parse_u16(a) {
        Some(p) => Some(p),
        None => match last_index(a, ':') {
            None => None,
            Some(k) => match parse_u16(a.subrange(k + 1, a.len() as int)) {
                None => None,
                Some(p) => if host_is_local(unbracketed(a.subrange(0, k))) {
                    Some(p)
                } else {
                    None
                },
            },
        },
    }
}

fn starts_with_chars(t: &Vec<char>, p: &str) -> (r: bool)
    ensures
        r == has_prefix(t@, p@),
{
    let pc = to_chars(p);
    if t.len() < pc.len() {
        return false;
    }
    let mut i: usize = 0;
    while i < pc.len()
        invariant
            i <= pc.len() <= t.len(),
            pc@ == p@,
            t@.subrange(0, i as int) == pc@.subrange(0, i as int),
        decreases pc.len() - i,
    {
        if t[i] != pc[i] {
            assert(t@.subrange(0, pc@.len() as int)[i as int] != pc@[i as int]);
            return false;
        }
        assert(t@.subrange(0, i + 1) =~= t@.subrange(0, i as int).push(t@[i as int]));
        assert(pc@.subrange(0, i + 1) =~= pc@.subrange(0, i as int).push(pc@[i as int]));
        i = i + 1;
    }
    assert(pc@.subrange(0, pc@.len() as int) =~= pc@);
    true
}

/// The authority of an upstream.
fn authority_of(upstream: &str) -> (r: Vec<char>)
    ensures
        r@ == upstream_authority(upstream@),
{
    let t = to_chars(trim_str(upstream).as_str());
    proof {
        reveal_strlit("http://");
        reveal_strlit("https://");
    }
    let rest = if starts_with_chars(&t, "http://") {
        slice_chars(&t, 7, t.len())
    } else if starts_with_chars(&t, "https://") {
        slice_chars(&t, 8, t.len())
    } else {
        t
    };
    proof {
        lemma_first_index(rest@, '/');
    }
    match find_char(&rest, '/') {
        Some(k) => slice_chars(&rest, 0, k),
        None => rest,
    }
}

/// The local port an upstream points at, if it points at this machine.
pub fn local_upstream(upstream: &str) -> (r: Option<u16>)
    ensures
        r == local_port(upstream@),
{
    let a = authority_of(upstream);
    if let Some(p) = parse_u16_chars(&a) {
        return Some(p);
    }
    proof {
        lemma_last_index(a@, ':');
    }
    let k = match rfind_char(&a, ':') {
        Some(k) => k,
        None => {
            return None;
        },
    };
    let port_chars = slice_chars(&a, k + 1, a.len());
    let port = match parse_u16_chars(&port_chars) {
        Some(p) => p,
        None => {
            return None;
        },
    };
    let host = slice_chars(&a, 0, k);
    let inner = if host.len() >= 2 && host[0] == '[' && host[host.len() - 1] == ']' {
        slice_chars(&host, 1, host.len() - 1)
    } else {
        host
    };
    let localhost = to_chars("localhost");
    proof {
        reveal_strlit("localhost");
    }
    let local = if inner.len() == 0 || chars_eq_ignore_ascii_case(&inner, &localhost) {
        true
    } else {
        match parse_ip_address(from_chars(inner.as_slice()).as_str()) {
            Some(ip) => ip.is_loopback() || ip.is_unspecified(),
            None => false,
        }
    };
    if local {
        Some(port)
    } else {
        None
    }
}

/// The label of an upstream: `:port` when it points at this machine, else as written.
pub open spec fn upstream_label(upstream: Seq<char>) -> Seq<char> {
    match local_port(upstream) {
        Some(p) => seq![':'] + decimal_digits(p as nat),
        None => upstream,
    }
}

/// The label of an upstream in reports.
pub fn display_upstream(upstream: &str) -> (r: String)
    ensures
        r@ == upstream_label(upstream@),
{
    match local_upstream(upstream) {
        Some(p) => port_label(p),
        None => upstream.to_owned(),
    }
}

/// `:port`.
fn port_label(port: u16) -> (r: String)
    ensures
        r@ == seq![':'] + decimal_digits(port as nat),
{
    let mut r = String::new();
    push_char(&mut r, ':');
    let digits = u64_to_decimal(port as u64);
    push_str(&mut r, digits.as_str());
    r
}

// ---------------------------------------------------------------------------------------
// Port owners
// ---------------------------------------------------------------------------------------

/// The transport protocol of a socket.
#[derive(Debug, Clone, Copy, PartialEq, Eq, Structural)]
pub enum SocketProtocol {
    Tcp,
    Udp,
}

/// The label of a protocol.
pub open spec fn protocol_label(p: SocketProtocol) -> Seq<char> {
    match p {
        SocketProtocol::Tcp => "tcp"@,
        SocketProtocol::Udp => "udp"@,
    }
}

/// The rank of a protocol in the order of owners: TCP before UDP.
pub open spec fn protocol_rank(p: SocketProtocol) -> int {
    match p {
        SocketProtocol::Tcp => 0,
        SocketProtocol::Udp => 1,
    }
}

impl SocketProtocol {
    /// The label of the protocol.
    pub fn label(self) -> (r: &'static str)
        ensures
            r@ == protocol_label(self),
    {
        match self {
            SocketProtocol::Tcp => "tcp",
            SocketProtocol::Udp => "udp",
        }
    }
}

/// A process that holds a socket on one of the inspected ports.
#[derive(Debug)]
pub struct PortOwner {
    pub protocol: SocketProtocol,
    pub local_address: IpAddress,
    pub port: u16,
    pub pid: Option<u32>,
    pub process_name: Option<String>,
    pub executable_path: Option<String>,
}

/// The view of a port owner.
pub struct OwnerView {
    pub protocol: SocketProtocol,
    pub address: IpAddress,
    pub port: u16,
    pub pid: Option<u32>,
    pub process_name: Option<Seq<char>>,
    pub executable_path: Option<Seq<char>>,
}

/// The view of an optional text.
pub open spec fn opt_text(o: Option<String>) -> Option<Seq<char>> {
    match o {
        Some(s) => Some(s@),
        None => None,
    }
}

impl View for PortOwner {
    type V = OwnerView;

    open spec fn view(&self) -> OwnerView {
        OwnerView {
            protocol: self.protocol,
            address: self.local_address,
            port: self.port,
            pid: self.pid,
            process_name: opt_text(self.process_name),
            executable_path: opt_text(self.executable_path),
        }
    }
}

impl PortOwner {
    /// A copy of the owner.
    pub fn copy(&self) -> (r: PortOwner)
        ensures
            r@ == self@,
    {
        PortOwner {
            protocol: self.protocol,
            local_address: self.local_address,
            port: self.port,
            pid: self.pid,
            process_name: copy_opt(&self.process_name),
            executable_path: copy_opt(&self.executable_path),
        }
    }
}

/// The views of a list of owners.
pub open spec fn owners_view(v: Seq<PortOwner>) -> Seq<OwnerView> {
    v.map_values(|o: PortOwner| o@)
}

/// A socket as the host's socket table reports it, with the processes that hold it.
#[derive(Debug)]
pub struct SocketEntry {
    pub protocol: SocketProtocol,
    /// For TCP, whether the socket is listening.
    pub tcp_listening: bool,
    pub local_address: IpAddress,
    pub port: u16,
    pub pids: Vec<u32>,
}

/// A process as the host's process table reports it.
#[derive(Debug)]
pub struct ProcessEntry {
    pub pid: u32,
    pub name: String,
    pub executable_path: Option<String>,
}

/// The first process entry of a process id.
pub open spec fn process_of(procs: Seq<ProcessEntry>, pid: u32) -> Option<ProcessEntry>
    decreases procs.len(),
{
    if procs.len() == 0 {
        None
    } else if procs[0].pid == pid {
        Some(procs[0])
    } else {
        process_of(procs.drop_first(), pid)
    }
}

/// The owner entry of a socket held by process `pid`.
pub open spec fn owner_for(s: SocketEntry, pid: u32, procs: Seq<ProcessEntry>) -> OwnerView {
    OwnerView {
        protocol: s.protocol,
        address: s.local_address,
        port: s.port,
        pid: Some(pid),
        process_name: match process_of(procs, pid) {
            Some(p) => Some(p.name@),
            None => None,
        },
        executable_path: match process_of(procs, pid) {
            Some(p) => opt_text(p.executable_path),
            None => None,
        },
    }
}

/// The owner entry of a socket that no known process holds.
pub open spec fn unowned(s: SocketEntry) -> OwnerView {
    OwnerView {
        protocol: s.protocol,
        address: s.local_address,
        port: s.port,
        pid: None,
        process_name: None,
        executable_path: None,
    }
}

/// The owner entries of a socket: one per holding process, or one without a process.
pub open spec fn socket_owners(s: SocketEntry, procs: Seq<ProcessEntry>) -> Seq<OwnerView> {
    if s.pids@.len() == 0 {
        seq![unowned(s)]
    } else {
        s.pids@.map_values(|pid: u32| owner_for(s, pid, procs))
    }
}

/// Whether a socket is reported: a listening TCP socket or a UDP socket on an inspected port.
pub open spec fn socket_selected(s: SocketEntry, ports: Seq<u16>) -> bool {
    (s.protocol == SocketProtocol::Udp || s.tcp_listening) && ports.contains(s.port)
}

/// The owner entries of the reported sockets, in socket-table order.
pub open spec fn listed_owners(sockets: Seq<SocketEntry>, ports: Seq<u16>, procs: Seq<ProcessEntry>) -> Seq<OwnerView>
    decreases sockets.len(),
{
    if sockets.len() == 0 {
        Seq::empty()
    } else {
        listed_owners(sockets.drop_last(), ports, procs) + if socket_selected(sockets.last(), ports) {
            socket_owners(sockets.last(), procs)
        } else {
            Seq::empty()
        }
    }
}

/// IP addresses in `core::net::IpAddr` order: IPv4 before IPv6, then by bits.
pub open spec fn address_lt(a: IpAddress, b: IpAddress) -> bool {
    (!a.is_v6 && b.is_v6) || (a.is_v6 == b.is_v6 && a.bits < b.bits)
}

/// Optional process ids in `Option` order: none first.
pub open spec fn pid_lt(a: Option<u32>, b: Option<u32>) -> bool {
    match (a, b) {
        (None, Some(_)) => true,
        (Some(x), Some(y)) => x < y,
        _ => false,
    }
}

/// Optional names in `Option` order: none first, then by text.
pub open spec fn name_lt(a: Option<Seq<char>>, b: Option<Seq<char>>) -> bool {
    match (a, b) {
        (None, Some(_)) => true,
        (Some(x), Some(y)) => lex_lt(x, y),
        _ => false,
    }
}

/// The order of owners: by protocol, local address, process id, then process name.
pub open spec fn owner_lt(a: OwnerView, b: OwnerView) -> bool {
    protocol_rank(a.protocol) < protocol_rank(b.protocol) || (a.protocol == b.protocol && (address_lt(a.address, b.address)
        || (a.address == b.address && (pid_lt(a.pid, b.pid) || (a.pid == b.pid && name_lt(a.process_name, b.process_name))))))
}

/// Where `x` goes in an ordered list: after every entry that does not sort after it.
pub open spec fn owner_slot(t: Seq<OwnerView>, x: OwnerView) -> int
    decreases t.len(),
{
    if t.len() == 0 {
        0
    } else if owner_lt(x, t[0]) {
        0
    } else {
        1 + owner_slot(t.drop_first(), x)
    }
}

/// A list of owners in stable order: each entry is placed after every earlier one that does
/// not sort after it.
pub open spec fn sort_owners(s: Seq<OwnerView>) -> Seq<OwnerView>
    decreases s.len(),
{
    if s.len() == 0 {
        s
    } else {
        let r = sort_owners(s.drop_last());
        r.insert(owner_slot(r, s.last()), s.last())
    }
}

/// Whether two owner entries describe the same socket holder.
pub open spec fn same_holder(a: OwnerView, b: OwnerView) -> bool {
    a.protocol == b.protocol && a.address == b.address && a.port == b.port && a.pid == b.pid
}

/// A list without entries that repeat the holder of the entry kept before them.
pub open spec fn dedup_owners(s: Seq<OwnerView>) -> Seq<OwnerView>
    decreases s.len(),
{
    if s.len() == 0 {
        s
    } else {
        let d = dedup_owners(s.drop_last());
        if d.len() > 0 && same_holder(d.last(), s.last()) {
            d
        } else {
            d.push(s.last())
        }
    }
}

/// The owners of the inspected ports: the reported sockets' entries, ordered, without
/// repeated holders.
pub open spec fn port_owners(sockets: Seq<SocketEntry>, ports: Seq<u16>, procs: Seq<ProcessEntry>) -> Seq<OwnerView> {
    dedup_owners(sort_owners(listed_owners(sockets, ports, procs)))
}

fn text_opt_lt(a: &Option<String>, b: &Option<String>) -> (r: bool)
    ensures
        r == name_lt(opt_text(*a), opt_text(*b)),
{
    match (a, b) {
        (None, Some(_)) => true,
        (Some(x), Some(y)) => text_lt(x.as_str(), y.as_str()),
        _ => false,
    }
}

fn owner_before(a: &PortOwner, b: &PortOwner) -> (r: bool)
    ensures
        r == owner_lt(a@, b@),
{
    let ra: u8 = match a.protocol {
        SocketProtocol::Tcp => 0,
        SocketProtocol::Udp => 1,
    };
    let rb: u8 = match b.protocol {
        SocketProtocol::Tcp => 0,
        SocketProtocol::Udp => 1,
    };
    if ra != rb {
        return ra < rb;
    }
    let aa = a.local_address;
    let ba = b.local_address;
    if aa.is_v6 != ba.is_v6 {
        return !aa.is_v6;
    }
    if aa.bits != ba.bits {
        return aa.bits < ba.bits;
    }
    match (a.pid, b.pid) {
        (None, Some(_)) => true,
        (Some(_), None) => false,
        (Some(x), Some(y)) => if x != y {
            x < y
        } else {
            text_opt_lt(&a.process_name, &b.process_name)
        },
        (None, None) => text_opt_lt(&a.process_name, &b.process_name),
    }
}

/// Inserts an owner at its place in an ordered list.
fn insert_owner(v: &mut Vec<PortOwner>, x: PortOwner)
    ensures
        owners_view(final(v)@) == owners_view(old(v)@).insert(owner_slot(owners_view(old(v)@), x@), x@),
{
    let ghost t = owners_view(v@);
    let mut j: usize = 0;
    assert(t.subrange(0, t.len() as int) =~= t);
    while j < v.len() && !owner_before(&x, &v[j])
        invariant
            j <= v.len(),
            t == owners_view(v@),
            owner_slot(t, x@) == j + owner_slot(t.subrange(j as int, t.len() as int), x@),
        decreases v.len() - j,
    {
        let ghost tail = t.subrange(j as int, t.len() as int);
        assert(tail[0] == t[j as int]);
        assert(tail.drop_first() =~= t.subrange(j + 1, t.len() as int));
        j = j + 1;
    }
    proof {
        let tail = t.subrange(j as int, t.len() as int);
        if j < v.len() {
            assert(tail[0] == t[j as int]);
        }
    }
    v.insert(j, x);
    assert(owners_view(v@) =~= t.insert(j as int, x@));
}

/// The first entry of a process id in the process table.
fn find_process(procs: &Vec<ProcessEntry>, pid: u32) -> (r: Option<usize>)
    ensures
        match process_of(procs@, pid) {
            Some(p) => r matches Some(k) && k < procs@.len() && procs@[k as int] == p,
            None => r is None,
        },
{
    let mut k: usize = 0;
    assert(procs@.subrange(0, procs@.len() as int) =~= procs@);
    while k < procs.len()
        invariant
            k <= procs.len(),
            process_of(procs@, pid) == process_of(procs@.subrange(k as int, procs@.len() as int), pid),
        decreases procs.len() - k,
    {
        let ghost tail = procs@.subrange(k as int, procs@.len() as int);
        assert(tail[0] == procs@[k as int]);
        if procs[k].pid == pid {
            return Some(k);
        }
        assert(tail.drop_first() =~= procs@.subrange(k + 1, procs@.len() as int));
        k = k + 1;
    }
    None
}

fn make_owner(s: &SocketEntry, pid: u32, procs: &Vec<ProcessEntry>) -> (r: PortOwner)
    ensures
        r@ == owner_for(*s, pid, procs@),
{
    let (name, exe) = match find_process(procs, pid) {
        Some(k) => (Some(procs[k].name.clone()), copy_opt(&procs[k].executable_path)),
        None => (None, None),
    };
    PortOwner { protocol: s.protocol, local_address: s.local_address, port: s.port, pid: Some(pid), process_name: name, executable_path: exe }
}

fn port_listed(ports: &Vec<u16>, port: u16) -> (r: bool)
    ensures
        r == ports@.contains(port),
{
    let mut k: usize = 0;
    while k < ports.len()
        invariant
            k <= ports.len(),
            forall|j: int| 0 <= j < k ==> ports@[j] != port,
        decreases ports.len() - k,
    {
        if ports[k] == port {
            assert(ports@[k as int] == port);
            return true;
        }
        k = k + 1;
    }
    false
}

proof fn lemma_sort_owners_push(s: Seq<OwnerView>, x: OwnerView)
    ensures
        sort_owners(s.push(x)) == sort_owners(s).insert(owner_slot(sort_owners(s), x), x),
{
    assert(s.push(x).drop_last() =~= s);
}

/// The processes that own the inspected ports, from the host's socket and process tables:
/// listening TCP and all UDP sockets on those ports, one entry per holding process (or one
/// without a process), ordered by protocol, address, process id and name, without repeated
/// holders.
pub fn owners_for_ports(sockets: &Vec<SocketEntry>, ports: &Vec<u16>, processes: &Vec<ProcessEntry>) -> (r: Vec<PortOwner>)
    ensures
        owners_view(r@) == port_owners(sockets@, ports@, processes@),
{
    let mut sorted: Vec<PortOwner> = Vec::new();
    let mut i: usize = 0;
    assert(owners_view(sorted@) =~= sort_owners(listed_owners(sockets@.subrange(0, 0), ports@, processes@)));
    while i < sockets.len()
        invariant
            i <= sockets.len(),
            owners_view(sorted@) == sort_owners(listed_owners(sockets@.subrange(0, i as int), ports@, processes@)),
        decreases sockets.len() - i,
    {
        let s = &sockets[i];
        let ghost before = listed_owners(sockets@.subrange(0, i as int), ports@, processes@);
        proof {
            assert(sockets@.subrange(0, i + 1).drop_last() =~= sockets@.subrange(0, i as int));
        }
        let selected = (s.protocol == SocketProtocol::Udp || s.tcp_listening) && port_listed(ports, s.port);
        if selected {
            if s.pids.len() == 0 {
                let o = PortOwner {
                    protocol: s.protocol,
                    local_address: s.local_address,
                    port: s.port,
                    pid: None,
                    process_name: None,
                    executable_path: None,
                };
                proof {
                    lemma_sort_owners_push(before, o@);
                }
                insert_owner(&mut sorted, o);
                proof {
                    assert(before.push(unowned(*s)) =~= before + socket_owners(*s, processes@));
                }
            } else {
                let mut j: usize = 0;
                assert(before + socket_owners(*s, processes@).subrange(0, 0) =~= before);
                while j < s.pids.len()
                    invariant
                        j <= s.pids.len(),
                        s == &sockets@[i as int],
                        s.pids@.len() > 0,
                        owners_view(sorted@) == sort_owners(before + socket_owners(*s, processes@).subrange(0, j as int)),
                    decreases s.pids.len() - j,
                {
                    let o = make_owner(s, s.pids[j], processes);
                    let ghost prefix = before + socket_owners(*s, processes@).subrange(0, j as int);
                    proof {
                        lemma_sort_owners_push(prefix, o@);
                        assert(prefix.push(o@) =~= before + socket_owners(*s, processes@).subrange(0, j + 1));
                    }
                    insert_owner(&mut sorted, o);
                    j = j + 1;
                }
                assert(socket_owners(*s, processes@).subrange(0, j as int) =~= socket_owners(*s, processes@));
            }
        } else {
            assert(before + Seq::<OwnerView>::empty() =~= before);
        }
        i = i + 1;
    }
    assert(sockets@.subrange(0, sockets@.len() as int) =~= sockets@);
    let ghost all = owners_view(sorted@);
    let mut out: Vec<PortOwner> = Vec::new();
    let mut k: usize = 0;
    assert(owners_view(out@) =~= dedup_owners(all.subrange(0, 0)));
    while k < sorted.len()
        invariant
            k <= sorted.len(),
            all == owners_view(sorted@),
            owners_view(out@) == dedup_owners(all.subrange(0, k as int)),
        decreases sorted.len() - k,
    {
        let ghost prefix = all.subrange(0, k as int);
        assert(all.subrange(0, k + 1).drop_last() =~= prefix);
        let n = out.len();
        let repeat = n > 0 && out[n - 1].protocol == sorted[k].protocol && out[n - 1].local_address == sorted[k].local_address
            && out[n - 1].port == sorted[k].port && out[n - 1].pid == sorted[k].pid;
        if !repeat {
            let c = sorted[k].copy();
            out.push(c);
            assert(owners_view(out@) =~= dedup_owners(prefix).push(all[k as int]));
        }
        k = k + 1;
    }
    assert(all.subrange(0, all.len() as int) =~= all);
    out
}

/// How a socket address is shown: `:port` for a loopback or unspecified address, `[addr]:port`
/// for other IPv6 addresses, `addr:port` otherwise.
pub open spec fn socket_label(o: OwnerView) -> Seq<char> {
    if ip_is_loopback(o.address) || ip_is_unspecified(o.address) {
        seq![':'] + decimal_digits(o.port as nat)
    } else if o.address.is_v6 {
        seq!['['] + ip_address_text(true, o.address.bits) + seq![']', ':'] + decimal_digits(o.port as nat)
    } else {
        ip_address_text(false, o.address.bits) + seq![':'] + decimal_digits(o.port as nat)
    }
}

/// The socket address of an owner as reports show it.
pub fn display_socket(owner: &PortOwner) -> (r: String)
    ensures
        r@ == socket_label(owner@),
{
    let a = owner.local_address;
    if a.is_loopback() || a.is_unspecified() {
        return port_label(owner.port);
    }
    let text = ip_text(a);
    let digits = u64_to_decimal(owner.port as u64);
    let mut r = String::new();
    if a.is_v6 {
        push_char(&mut r, '[');
        push_str(&mut r, text.as_str());
        push_char(&mut r, ']');
        push_char(&mut r, ':');
    } else {
        push_str(&mut r, text.as_str());
        push_char(&mut r, ':');
    }
    push_str(&mut r, digits.as_str());
    r
}

// ---------------------------------------------------------------------------------------
// Registered routes
// ---------------------------------------------------------------------------------------

/// A registered route: the positions of its project and of its domain in the snapshot, and
/// the upstream it proxies to.
#[derive(Debug)]
pub struct RouteMatch {
    pub project: usize,
    pub domain: usize,
    pub upstream: String,
}

/// The view of a route.
pub open spec fn route_view(m: RouteMatch) -> (int, int, Seq<char>) {
    (m.project as int, m.domain as int, m.upstream@)
}

/// The views of a list of routes.
pub open spec fn routes_view(v: Seq<RouteMatch>) -> Seq<(int, int, Seq<char>)> {
    v.map_values(|m: RouteMatch| route_view(m))
}

/// Whether every route names a project and one of its domains.
pub open spec fn routes_in(regs: Seq<EntrypointRegistration>, ms: Seq<(int, int, Seq<char>)>) -> bool {
    forall|k: int|
        0 <= k < ms.len() ==> 0 <= #[trigger] ms[k].0 < regs.len() && 0 <= ms[k].1 < regs[ms[k].0].registered_domains@.len()
}

/// The order key of a route: its project's working directory, then its canonical domain.
pub open spec fn route_key(regs: Seq<EntrypointRegistration>, m: (int, int, Seq<char>)) -> (Seq<char>, Seq<char>) {
    (regs[m.0].source_working_directory@, regs[m.0].registered_domains@[m.1].name.canonical@)
}

/// Routes in stable order of working directory and canonical domain.
pub open spec fn in_route_order(regs: Seq<EntrypointRegistration>, ms: Seq<(int, int, Seq<char>)>) -> Seq<(int, int, Seq<char>)> {
    stable_order(ms.len() as int, ms.map_values(|m: (int, int, Seq<char>)| route_key(regs, m))).map_values(
        |p: int| ms[p],
    )
}

/// The routes of project `i`'s domains whose upstream points at local port `port`.
pub open spec fn domain_port_routes(i: int, ds: Seq<RegisteredDomain>, port: u16) -> Seq<(int, int, Seq<char>)>
    decreases ds.len(),
{
    if ds.len() == 0 {
        Seq::empty()
    } else {
        domain_port_routes(i, ds.drop_last(), port) + match ds.last().upstream {
            Some(u) => if local_port(u@) == Some(port) {
                seq![(i, ds.len() - 1, u@)]
            } else {
                Seq::empty()
            },
            None => Seq::empty(),
        }
    }
}

/// The routes whose upstream points at local port `port`, in snapshot order.
pub open spec fn port_candidates(regs: Seq<EntrypointRegistration>, port: u16) -> Seq<(int, int, Seq<char>)>
    decreases regs.len(),
{
    if regs.len() == 0 {
        Seq::empty()
    } else {
        port_candidates(regs.drop_last(), port) + domain_port_routes(
            regs.len() - 1,
            regs.last().registered_domains@,
            port,
        )
    }
}

pub(crate) fn copy_route(m: &RouteMatch) -> (r: RouteMatch)
    ensures
        route_view(r) == route_view(*m),
{
    RouteMatch { project: m.project, domain: m.domain, upstream: m.upstream.clone() }
}

/// Puts routes in stable order of working directory and canonical domain.
pub(crate) fn order_routes(regs: &Vec<EntrypointRegistration>, cands: &Vec<RouteMatch>) -> (r: Vec<RouteMatch>)
    requires
        routes_in(regs@, routes_view(cands@)),
    ensures
        routes_view(r@) == in_route_order(regs@, routes_view(cands@)),
        routes_in(regs@, routes_view(r@)),
{
    let ghost ms = routes_view(cands@);
    let mut keys: Vec<(String, String)> = Vec::new();
    let mut k: usize = 0;
    while k < cands.len()
        invariant
            k <= cands.len(),
            ms == routes_view(cands@),
            routes_in(regs@, ms),
            keys_view(keys@) == ms.subrange(0, k as int).map_values(|m: (int, int, Seq<char>)| route_key(regs@, m)),
        decreases cands.len() - k,
    {
        assert(0 <= ms[k as int].0 < regs@.len());
        let reg = &regs[cands[k].project];
        let key = (reg.source_working_directory.clone(), reg.registered_domains[cands[k].domain].name.canonical.clone());
        let ghost old_keys = keys_view(keys@);
        keys.push(key);
        proof {
            assert(keys_view(keys@) =~= old_keys.push((key.0@, key.1@)));
            assert(ms.subrange(0, k + 1).map_values(|m: (int, int, Seq<char>)| route_key(regs@, m)) =~= ms.subrange(
                0,
                k as int,
            ).map_values(|m: (int, int, Seq<char>)| route_key(regs@, m)).push(route_key(regs@, ms[k as int])));
        }
        k = k + 1;
    }
    assert(ms.subrange(0, ms.len() as int) =~= ms);
    let order = stable_sort_positions(&keys);
    let mut out: Vec<RouteMatch> = Vec::new();
    let mut j: usize = 0;
    while j < order.len()
        invariant
            j <= order.len(),
            order@.len() == cands@.len(),
            forall|i: int| 0 <= i < order@.len() ==> #[trigger] order@[i] < cands@.len(),
            ms == routes_view(cands@),
            routes_in(regs@, ms),
            routes_view(out@) == order@.map_values(|p: usize| p as int).subrange(0, j as int).map_values(|p: int| ms[p]),
        decreases order.len() - j,
    {
        let c = copy_route(&cands[order[j]]);
        let ghost old_out = routes_view(out@);
        out.push(c);
        proof {
            let om = order@.map_values(|p: usize| p as int);
            assert(routes_view(out@) =~= old_out.push(route_view(c)));
            assert(om.subrange(0, j + 1).map_values(|p: int| ms[p]) =~= om.subrange(0, j as int).map_values(|p: int| ms[p]).push(
                ms[om[j as int]],
            ));
        }
        j = j + 1;
    }
    assert(order@.map_values(|p: usize| p as int).subrange(0, order@.len() as int) =~= order@.map_values(|p: usize| p as int));
    proof {
        let res = routes_view(out@);
        assert forall|i: int| 0 <= i < res.len() implies 0 <= #[trigger] res[i].0 < regs@.len()
            && 0 <= res[i].1 < regs@[res[i].0].registered_domains@.len() by {
            assert(res[i] == ms[order@[i] as int]);
        }
    }
    out
}

/// The registered routes whose upstream points at local port `port`, ordered by working
/// directory and canonical domain.
pub fn routes_for_port(regs: &Vec<EntrypointRegistration>, port: u16) -> (r: Vec<RouteMatch>)
    ensures
        routes_view(r@) == in_route_order(regs@, port_candidates(regs@, port)),
        routes_in(regs@, routes_view(r@)),
{
    let mut cands: Vec<RouteMatch> = Vec::new();
    let mut i: usize = 0;
    assert(regs@.subrange(0, 0) =~= Seq::<EntrypointRegistration>::empty());
    while i < regs.len()
        invariant
            i <= regs.len(),
            routes_view(cands@) == port_candidates(regs@.subrange(0, i as int), port),
            routes_in(regs@, routes_view(cands@)),
        decreases regs.len() - i,
    {
        let ds = &regs[i].registered_domains;
        let ghost before = routes_view(cands@);
        let mut j: usize = 0;
        assert(ds@.subrange(0, 0) =~= Seq::<RegisteredDomain>::empty());
        assert(before + domain_port_routes(i as int, ds@.subrange(0, 0), port) =~= before);
        while j < ds.len()
            invariant
                i < regs.len(),
                j <= ds.len(),
                ds == &regs@[i as int].registered_domains,
                routes_view(cands@) == before + domain_port_routes(i as int, ds@.subrange(0, j as int), port),
                routes_in(regs@, routes_view(cands@)),
            decreases ds.len() - j,
        {
            assert(ds@.subrange(0, j + 1).drop_last() =~= ds@.subrange(0, j as int));
            let ghost prev = routes_view(cands@);
            match &ds[j].upstream {
                Some(u) => {
                    if local_upstream(u.as_str()) == Some(port) {
                        cands.push(RouteMatch { project: i, domain: j, upstream: u.clone() });
                        assert(routes_view(cands@) =~= prev + seq![(i as int, j as int, u@)]);
                    } else {
                        assert(prev + Seq::<(int, int, Seq<char>)>::empty() =~= prev);
                    }
                },
                None => {
                    assert(prev + Seq::<(int, int, Seq<char>)>::empty() =~= prev);
                },
            }
            assert(routes_view(cands@) =~= before + domain_port_routes(i as int, ds@.subrange(0, j + 1), port));
            j = j + 1;
        }
        assert(ds@.subrange(0, ds@.len() as int) =~= ds@);
        assert(regs@.subrange(0, i + 1).drop_last() =~= regs@.subrange(0, i as int));
        i = i + 1;
    }
    assert(regs@.subrange(0, regs@.len() as int) =~= regs@);
    order_routes(regs, &cands)
}

/// Comparable forms of a project's Caddyfile path: as configured (resolved against its
/// working directory) and, when known, canonical.
#[derive(Debug)]
pub struct ComparablePaths {
    pub config_path: String,
    pub canonical_path: Option<String>,
}

/// Whether a project's Caddyfile is the requested one.
pub open spec fn paths_match(p: ComparablePaths, requested: Seq<char>) -> bool {
    p.config_path@ == requested || opt_text(p.canonical_path) == Some(requested)
}

fn project_matches_path(p: &ComparablePaths, requested: &str) -> (r: bool)
    ensures
        r == paths_match(*p, requested@),
{
    if text_eq(p.config_path.as_str(), requested) {
        return true;
    }
    match &p.canonical_path {
        Some(c) => text_eq(c.as_str(), requested),
        None => false,
    }
}

/// The routes of project `i`'s domains of canonical name `canonical`, with their upstreams
/// (`-` when unknown).
pub open spec fn domain_name_routes(i: int, ds: Seq<RegisteredDomain>, canonical: Seq<char>) -> Seq<(int, int, Seq<char>)>
    decreases ds.len(),
{
    if ds.len() == 0 {
        Seq::empty()
    } else {
        domain_name_routes(i, ds.drop_last(), canonical) + if ds.last().name.canonical@ == canonical {
            seq![(
                i,
                ds.len() - 1,
                match ds.last().upstream {
                    Some(u) => u@,
                    None => "-"@,
                },
            )]
        } else {
            Seq::empty()
        }
    }
}

/// Whether project `i` is among those asked about.
pub open spec fn project_requested(paths: Seq<ComparablePaths>, i: int, requested: Option<Seq<char>>) -> bool {
    match requested {
        Some(q) => paths_match(paths[i], q),
        None => true,
    }
}

/// The routes of a canonical domain in the requested projects, in snapshot order.
pub open spec fn domain_candidates(
    regs: Seq<EntrypointRegistration>,
    paths: Seq<ComparablePaths>,
    requested: Option<Seq<char>>,
    canonical: Seq<char>,
) -> Seq<(int, int, Seq<char>)>
    decreases regs.len(),
{
    if regs.len() == 0 {
        Seq::empty()
    } else {
        let i = regs.len() - 1;
        domain_candidates(regs.drop_last(), paths, requested, canonical) + if project_requested(paths, i, requested) {
            domain_name_routes(i, regs.last().registered_domains@, canonical)
        } else {
            Seq::empty()
        }
    }
}

/// The registered routes of a domain, in canonical form, optionally only in the projects
/// whose Caddyfile is the requested one, ordered by working directory and canonical domain.
/// `paths` holds the comparable Caddyfile paths of each project.
pub fn routes_for_domain(
    regs: &Vec<EntrypointRegistration>,
    domain: &str,
    caddyfile: Option<&str>,
    paths: &Vec<ComparablePaths>,
) -> (r: Vec<RouteMatch>)
    requires
        paths@.len() == regs@.len(),
    ensures
        routes_view(r@) == in_route_order(
            regs@,
            domain_candidates(
                regs@,
                paths@,
                match caddyfile {
                    Some(q) => Some(q@),
                    None => None,
                },
                canonical_domain(domain@),
            ),
        ),
        routes_in(regs@, routes_view(r@)),
{
    let canonical = canonicalize_domain(domain);
    let ghost requested: Option<Seq<char>> = match caddyfile {
        Some(q) => Some(q@),
        None => None,
    };
    let mut cands: Vec<RouteMatch> = Vec::new();
    let mut i: usize = 0;
    assert(regs@.subrange(0, 0) =~= Seq::<EntrypointRegistration>::empty());
    while i < regs.len()
        invariant
            i <= regs.len(),
            paths@.len() == regs@.len(),
            requested == match caddyfile {
                Some(q) => Some(q@),
                None => None::<Seq<char>>,
            },
            routes_view(cands@) == domain_candidates(regs@.subrange(0, i as int), paths@, requested, canonical@),
            routes_in(regs@, routes_view(cands@)),
        decreases regs.len() - i,
    {
        let ghost before = routes_view(cands@);
        assert(regs@.subrange(0, i + 1).drop_last() =~= regs@.subrange(0, i as int));
        let selected = match caddyfile {
            Some(q) => project_matches_path(&paths[i], q),
            None => true,
        };
        if selected {
            let ds = &regs[i].registered_domains;
            let mut j: usize = 0;
            assert(ds@.subrange(0, 0) =~= Seq::<RegisteredDomain>::empty());
            assert(before + domain_name_routes(i as int, ds@.subrange(0, 0), canonical@) =~= before);
            while j < ds.len()
                invariant
                    i < regs.len(),
                    j <= ds.len(),
                    ds == &regs@[i as int].registered_domains,
                    routes_view(cands@) == before + domain_name_routes(i as int, ds@.subrange(0, j as int), canonical@),
                    routes_in(regs@, routes_view(cands@)),
                decreases ds.len() - j,
            {
                assert(ds@.subrange(0, j + 1).drop_last() =~= ds@.subrange(0, j as int));
                assert(ds@.subrange(0, j + 1).last() == ds@[j as int]);
                let ghost prev = routes_view(cands@);
                if ds[j].name.canonical == canonical {
                    let upstream = match &ds[j].upstream {
                        Some(u) => u.clone(),
                        None => "-".to_owned(),
                    };
                    cands.push(RouteMatch { project: i, domain: j, upstream });
                    assert(routes_view(cands@) =~= prev + seq![(i as int, j as int, upstream@)]);
                } else {
                    assert(prev + Seq::<(int, int, Seq<char>)>::empty() =~= prev);
                }
                assert(routes_view(cands@) =~= before + domain_name_routes(i as int, ds@.subrange(0, j + 1), canonical@));
                j = j + 1;
            }
            assert(ds@.subrange(0, ds@.len() as int) =~= ds@);
        } else {
            assert(before + Seq::<(int, int, Seq<char>)>::empty() =~= before);
        }
        i = i + 1;
    }
    assert(regs@.subrange(0, regs@.len() as int) =~= regs@);
    order_routes(regs, &cands)
}

/// The projects whose Caddyfile is the requested one, in snapshot order.
pub open spec fn caddyfile_candidates(regs: Seq<EntrypointRegistration>, paths: Seq<ComparablePaths>, requested: Seq<char>) -> Seq<int>
    decreases regs.len(),
{
    if regs.len() == 0 {
        Seq::empty()
    } else {
        let i = regs.len() - 1;
        caddyfile_candidates(regs.drop_last(), paths, requested) + if paths_match(paths[i], requested) {
            seq![i]
        } else {
            Seq::empty()
        }
    }
}

/// Projects in stable order of working directory.
pub open spec fn in_project_order(regs: Seq<EntrypointRegistration>, ps: Seq<int>) -> Seq<int> {
    stable_order(
        ps.len() as int,
        ps.map_values(|i: int| (regs[i].source_working_directory@, Seq::<char>::empty())),
    ).map_values(|p: int| ps[p])
}

/// The projects whose Caddyfile is the requested one, by position, ordered by working
/// directory. `paths` holds the comparable Caddyfile paths of each project.
pub fn projects_for_caddyfile(regs: &Vec<EntrypointRegistration>, paths: &Vec<ComparablePaths>, requested: &str) -> (r: Vec<usize>)
    requires
        paths@.len() == regs@.len(),
    ensures
        r@.map_values(|i: usize| i as int) == in_project_order(regs@, caddyfile_candidates(regs@, paths@, requested@)),
        forall|k: int| 0 <= k < r@.len() ==> #[trigger] r@[k] < regs@.len(),
{
    let mut cands: Vec<usize> = Vec::new();
    let mut keys: Vec<(String, String)> = Vec::new();
    let mut i: usize = 0;
    assert(regs@.subrange(0, 0) =~= Seq::<EntrypointRegistration>::empty());
    while i < regs.len()
        invariant
            i <= regs.len(),
            paths@.len() == regs@.len(),
            cands@.map_values(|k: usize| k as int) == caddyfile_candidates(regs@.subrange(0, i as int), paths@, requested@),
            forall|k: int| 0 <= k < cands@.len() ==> #[trigger] cands@[k] < i,
            keys_view(keys@) == cands@.map_values(|k: usize| k as int).map_values(
                |k: int| (regs@[k].source_working_directory@, Seq::<char>::empty()),
            ),
        decreases regs.len() - i,
    {
        let ghost before = cands@.map_values(|k: usize| k as int);
        assert(regs@.subrange(0, i + 1).drop_last() =~= regs@.subrange(0, i as int));
        if project_matches_path(&paths[i], requested) {
            let ghost old_keys = keys_view(keys@);
            cands.push(i);
            let key = (regs[i].source_working_directory.clone(), String::new());
            keys.push(key);
            proof {
                assert(cands@.map_values(|k: usize| k as int) =~= before + seq![i as int]);
                assert(keys_view(keys@) =~= old_keys.push((key.0@, key.1@)));
                assert(cands@.map_values(|k: usize| k as int).map_values(
                    |k: int| (regs@[k].source_working_directory@, Seq::<char>::empty()),
                ) =~= before.map_values(|k: int| (regs@[k].source_working_directory@, Seq::<char>::empty())).push(
                    (regs@[i as int].source_working_directory@, Seq::<char>::empty()),
                ));
            }
        } else {
            assert(before + Seq::<int>::empty() =~= before);
        }
        i = i + 1;
    }
    assert(regs@.subrange(0, regs@.len() as int) =~= regs@);
    let ghost ps = cands@.map_values(|k: usize| k as int);
    let order = stable_sort_positions(&keys);
    let mut out: Vec<usize> = Vec::new();
    let mut j: usize = 0;
    while j < order.len()
        invariant
            j <= order.len(),
            order@.len() == cands@.len(),
            forall|k: int| 0 <= k < order@.len() ==> #[trigger] order@[k] < cands@.len(),
            forall|k: int| 0 <= k < cands@.len() ==> #[trigger] cands@[k] < regs@.len(),
            ps == cands@.map_values(|k: usize| k as int),
            out@.map_values(|k: usize| k as int) == order@.map_values(|p: usize| p as int).subrange(0, j as int).map_values(
                |p: int| ps[p],
            ),
            forall|k: int| 0 <= k < out@.len() ==> #[trigger] out@[k] < regs@.len(),
        decreases order.len() - j,
    {
        let ghost old_out = out@.map_values(|k: usize| k as int);
        out.push(cands[order[j]]);
        proof {
            let om = order@.map_values(|p: usize| p as int);
            assert(out@.map_values(|k: usize| k as int) =~= old_out.push(cands@[order@[j as int] as int] as int));
            assert(om.subrange(0, j + 1).map_values(|p: int| ps[p]) =~= om.subrange(0, j as int).map_values(|p: int| ps[p]).push(
                ps[om[j as int]],
            ));
        }
        j = j + 1;
    }
    assert(order@.map_values(|p: usize| p as int).subrange(0, order@.len() as int) =~= order@.map_values(|p: usize| p as int));
    out
}

/// A base path that starts with the Windows verbatim prefix `\\?\`, under which joining
/// normalizes the joined path.
pub open spec fn verbatim_prefixed(base: Seq<char>) -> bool {
    base.len() >= 4 && base[0] == '\\' && base[1] == '\\' && base[2] == '?' && base[3] == '\\'
}

/// What joining a relative path onto a base gives on every platform: the relative path
/// follows the base, after one separator (`/` or `\`, the platform's own) unless the
/// base is empty, ends with `/`, or (on Windows) needs none, as after a bare drive `C:`.
pub open spec fn joined_under(base: Seq<char>, relative: Seq<char>, joined: Seq<char>) -> bool {
    if base.len() == 0 {
        joined == relative
    } else if base.last() == '/' {
        joined == base + relative
    } else {
        joined == base + relative || joined == base + seq!['/'] + relative || joined == base + seq!['\\']
            + relative
    }
}

/// Joins a path onto a base directory as the platform does (`std::path::Path::join`),
/// written back as text. Its documentation has a relative path extend the base; what it
/// does with a rooted or prefixed path, or under a verbatim base, depends on the platform's
/// path rules and is left unsaid.
#[verifier::external_body]
fn join_path(base: &str, relative: &str) -> (r: String)
    ensures
        plainly_relative(relative@) && !verbatim_prefixed(base@) ==> joined_under(base@, relative@, r@),
{
    std::path::Path::new(base).join(relative).display().to_string()
}

/// The Caddyfile of a project: its configured path when the platform calls it absolute,
/// else that path under the project's working directory. A configured path that no
/// platform calls absolute is joined onto the working directory.
pub fn caddyfile_path(project: &EntrypointRegistration) -> (r: String)
    ensures
        plainly_relative(project.source_config_path@) && !verbatim_prefixed(project.source_working_directory@)
            ==> joined_under(project.source_working_directory@, project.source_config_path@, r@),
{
    if path_is_absolute(project.source_config_path.as_str()) {
        project.source_config_path.clone()
    } else {
        join_path(project.source_working_directory.as_str(), project.source_config_path.as_str())
    }
}

/// The upstream text a route of domain `d` shows: its upstream, or `-` when it has none.
pub open spec fn upstream_text(d: RegisteredDomain) -> Seq<char> {
    match d.upstream {
        Some(u) => u@,
        None => "-"@,
    }
}

proof fn lemma_name_routes_contain(i: int, ds: Seq<RegisteredDomain>, canonical: Seq<char>, k: int)
    requires
        0 <= k < ds.len(),
        ds[k].name.canonical@ == canonical,
    ensures
        domain_name_routes(i, ds, canonical).contains((i, k, upstream_text(ds[k]))),
    decreases ds.len(),
{
    let x = (i, k, upstream_text(ds[k]));
    let before = domain_name_routes(i, ds.drop_last(), canonical);
    let r = domain_name_routes(i, ds, canonical);
    if k == ds.len() - 1 {
        assert(r[before.len() as int] == x);
    } else {
        assert(ds.drop_last()[k] == ds[k]);
        lemma_name_routes_contain(i, ds.drop_last(), canonical, k);
        let j = choose|j: int| 0 <= j < before.len() && before[j] == x;
        assert(r[j] == x);
    }
}

proof fn lemma_candidates_contain(
    regs: Seq<EntrypointRegistration>,
    paths: Seq<ComparablePaths>,
    requested: Option<Seq<char>>,
    canonical: Seq<char>,
    i: int,
    x: (int, int, Seq<char>),
)
    requires
        0 <= i < regs.len(),
        project_requested(paths, i, requested),
        domain_name_routes(i, regs[i].registered_domains@, canonical).contains(x),
    ensures
        domain_candidates(regs, paths, requested, canonical).contains(x),
    decreases regs.len(),
{
    let before = domain_candidates(regs.drop_last(), paths, requested, canonical);
    let r = domain_candidates(regs, paths, requested, canonical);
    if i == regs.len() - 1 {
        let own = domain_name_routes(i, regs[i].registered_domains@, canonical);
        let j = choose|j: int| 0 <= j < own.len() && own[j] == x;
        assert(r[before.len() + j] == x);
    } else {
        assert(regs.drop_last()[i] == regs[i]);
        lemma_candidates_contain(regs.drop_last(), paths, requested, canonical, i, x);
        let j = choose|j: int| 0 <= j < before.len() && before[j] == x;
        assert(r[j] == x);
    }
}

proof fn lemma_route_order_keeps(regs: Seq<EntrypointRegistration>, ms: Seq<(int, int, Seq<char>)>, x: (int, int, Seq<char>))
    requires
        ms.contains(x),
    ensures
        in_route_order(regs, ms).contains(x),
{
    let p = choose|p: int| 0 <= p < ms.len() && ms[p] == x;
    let keys = ms.map_values(|m: (int, int, Seq<char>)| route_key(regs, m));
    lemma_stable_order_covers(ms.len() as int, keys, p);
    let order = stable_order(ms.len() as int, keys);
    let j = choose|j: int| 0 <= j < order.len() && order[j] == p;
    assert(in_route_order(regs, ms)[j] == x);
}

/// Asking for a Caddyfile keeps every route of each project whose Caddyfile it is, whether
/// it names the project's configured path or its canonical path: each domain of that project
/// with the requested canonical name is among the routes found, with its upstream.
pub proof fn lemma_requested_caddyfile_finds_project_routes(
    regs: Seq<EntrypointRegistration>,
    paths: Seq<ComparablePaths>,
    requested: Seq<char>,
    canonical: Seq<char>,
    i: int,
    k: int,
)
    requires
        0 <= i < regs.len(),
        paths.len() == regs.len(),
        paths[i].config_path@ == requested || (paths[i].canonical_path matches Some(c) && c@ == requested),
        0 <= k < regs[i].registered_domains@.len(),
        regs[i].registered_domains@[k].name.canonical@ == canonical,
    ensures
        in_route_order(regs, domain_candidates(regs, paths, Some(requested), canonical)).contains(
            (i, k, upstream_text(regs[i].registered_domains@[k])),
        ),
        in_route_order(regs, domain_candidates(regs, paths, None, canonical)).contains(
            (i, k, upstream_text(regs[i].registered_domains@[k])),
        ),
{
    let x = (i, k, upstream_text(regs[i].registered_domains@[k]));
    lemma_name_routes_contain(i, regs[i].registered_domains@, canonical, k);
    lemma_candidates_contain(regs, paths, Some(requested), canonical, i, x);
    lemma_candidates_contain(regs, paths, None, canonical, i, x);
    lemma_route_order_keeps(regs, domain_candidates(regs, paths, Some(requested), canonical), x);
    lemma_route_order_keeps(regs, domain_candidates(regs, paths, None, canonical), x);
}

} // verus!
