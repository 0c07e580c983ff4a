//! The decisions of the command-line commands that inspect and act on local ports: which
//! upstream ports are inspected, how their owners are grouped, when a process may be
//! signaled, and the failures the commands report.

use vstd::prelude::*;
use crate::operator::{AppExit, OperatorError};
use crate::ipc_errors::opt_view;
use crate::inspection::{PortOwner, OwnerView, owners_view, RouteMatch, local_upstream, local_port};
use crate::text::{push_str, u64_to_decimal, decimal_digits};

verus! {

/// A command's failure: its outcome, its message and what to do about it.
#[derive(Debug)]
pub struct CommandFailure {
    pub kind: AppExit,
    pub message: String,
    pub guidance: Option<String>,
}

/// A failure of outcome `kind` with `message` and `guidance`.
pub open spec fn failure_is(f: CommandFailure, kind: AppExit, message: Seq<char>, guidance: Option<Seq<char>>) -> bool {
    &&& f.kind == kind
    &&& f.message@ == message
    &&& opt_view(f.guidance) == guidance
}

impl CommandFailure {
    /// The host's sockets could not be listed.
    pub fn inspection(message: &str) -> (r: CommandFailure)
        ensures
            failure_is(r, AppExit::IpcFailure, "Could not inspect local sockets: "@ + message@ + "."@, None),
    {
        let mut m = "Could not inspect local sockets: ".to_owned();
        push_str(&mut m, message);
        push_str(&mut m, ".");
        CommandFailure { kind: AppExit::IpcFailure, message: m, guidance: None }
    }

    /// A failure of the local machinery, reported as an IPC failure.
    pub fn ipc(message: String) -> (r: CommandFailure)
        ensures
            failure_is(r, AppExit::IpcFailure, message@, None),
    {
        CommandFailure { kind: AppExit::IpcFailure, message, guidance: None }
    }

    /// What the command names does not exist.
    pub fn target_not_found(message: String) -> (r: CommandFailure)
        ensures
            failure_is(r, AppExit::TargetNotFound, message@, None),
    {
        CommandFailure { kind: AppExit::TargetNotFound, message, guidance: None }
    }

    /// The request conflicts with what the command found.
    pub fn conflict(message: String, guidance: Option<String>) -> (r: CommandFailure)
        ensures
            failure_is(r, AppExit::ConflictOrRejected, message@, opt_view(guidance)),
    {
        CommandFailure { kind: AppExit::ConflictOrRejected, message, guidance }
    }

    /// The operating system refused, for want of permission.
    pub fn permission(message: String) -> (r: CommandFailure)
        ensures
            failure_is(
                r,
                AppExit::PermissionOrElevation,
                message@,
                Some("Use an account allowed to terminate that process, then inspect the port again."@),
            ),
    {
        CommandFailure {
            kind: AppExit::PermissionOrElevation,
            message,
            guidance: Some("Use an account allowed to terminate that process, then inspect the port again.".to_owned()),
        }
    }

    /// The failure of an operator error: its outcome, message and guidance.
    pub fn from_operator(error: OperatorError) -> (r: CommandFailure)
        ensures
            failure_is(r, error.kind, error.message@, opt_view(error.guidance)),
    {
        CommandFailure { kind: error.kind, message: error.message, guidance: error.guidance }
    }

    /// The lines a failure prints: its message, then its guidance when it has one.
    pub fn report_lines(&self) -> (r: Vec<String>)
        ensures
            r@.map_values(|s: String| s@) == match opt_view(self.guidance) {
                Some(g) => seq![self.message@, g],
                None => seq![self.message@],
            },
    {
        let mut lines: Vec<String> = Vec::new();
        lines.push(self.message.clone());
        match &self.guidance {
            Some(g) => lines.push(g.clone()),
            None => {},
        }
        proof {
            match opt_view(self.guidance) {
                Some(g) => assert(lines@.map_values(|s: String| s@) =~= seq![self.message@, g]),
                None => assert(lines@.map_values(|s: String| s@) =~= seq![self.message@]),
            }
        }
        lines
    }
}

/// Why a termination signal was not delivered.
#[derive(Debug, Clone, Copy, PartialEq, Eq, Structural)]
pub enum ProcessSignalError {
    NotFound,
    Rejected,
}

/// What the host tells about the processes that hold local ports, and how a process is
/// signaled.
pub trait ProcessInspector {
    /// The sockets' owners on the given ports.
    fn owners_for_ports(&self, ports: &Vec<u16>) -> Result<Vec<PortOwner>, String>;

    /// Sends the termination signal to process `pid`.
    fn kill(&self, pid: u32) -> Result<(), ProcessSignalError>;

    /// The owners of one port.
    fn owners(&self, port: u16) -> Result<Vec<PortOwner>, String> {
        let ports: Vec<u16> = vec![port];
        self.owners_for_ports(&ports)
    }
}

/// The message of a refusal to signal the command's own process.
pub open spec fn own_process_message() -> Seq<char> {
    "Cadder refuses to terminate its own operator process."@
}

/// The message of a process that no longer owns the port.
pub open spec fn owner_changed_message(pid: u32, port: u16) -> Seq<char> {
    "PID "@ + decimal_digits(pid as nat) + " no longer owns a listening socket on port "@ + decimal_digits(port as nat)
        + "; no process was signaled."@
}

/// Whether some owner is process `pid`.
pub open spec fn owned_by(owners: Seq<PortOwner>, pid: u32) -> bool {
    exists|i: int| 0 <= i < owners.len() && (#[trigger] owners[i]).pid == Some(pid)
}

/// The command may not signal its own process.
pub fn refuse_own_process(own_pid: u32, pid: u32) -> (r: Result<(), CommandFailure>)
    ensures
        match r {
            Ok(()) => pid != own_pid,
            Err(f) => pid == own_pid && failure_is(f, AppExit::ConflictOrRejected, own_process_message(), None),
        },
{
    if pid == own_pid {
        return Err(
            CommandFailure::conflict("Cadder refuses to terminate its own operator process.".to_owned(), None),
        );
    }
    Ok(())
}

/// A process is signaled only while it still owns the port: among `owners`, some owner
/// must be process `pid`, which is then the process to signal.
pub fn confirm_kill_target(port: u16, pid: u32, owners: &Vec<PortOwner>) -> (r: Result<u32, CommandFailure>)
    ensures
        match r {
            Ok(target) => target == pid && owned_by(owners@, pid),
            Err(f) => !owned_by(owners@, pid) && failure_is(
                f,
                AppExit::ConflictOrRejected,
                owner_changed_message(pid, port),
                Some("Run `cadder port inspect <port>` again before retrying."@),
            ),
        },
{
    let mut i: usize = 0;
    while i < owners.len()
        invariant
            i <= owners.len(),
            forall|k: int| 0 <= k < i ==> (#[trigger] owners@[k]).pid != Some(pid),
        decreases owners.len() - i,
    {
        if owners[i].pid == Some(pid) {
            return Ok(pid);
        }
        i = i + 1;
    }
    let mut message = "PID ".to_owned();
    push_str(&mut message, u64_to_decimal(pid as u64).as_str());
    push_str(&mut message, " no longer owns a listening socket on port ");
    push_str(&mut message, u64_to_decimal(port as u64).as_str());
    push_str(&mut message, "; no process was signaled.");
    Err(
        CommandFailure::conflict(
            message,
            Some("Run `cadder port inspect <port>` again before retrying.".to_owned()),
        ),
    )
}

/// What a signal's outcome reports: the confirmation line when it was sent, else the
/// failure for a process that is gone or a signal the system rejected.
pub fn signal_outcome(port: u16, pid: u32, sent: Result<(), ProcessSignalError>) -> (r: Result<String, CommandFailure>)
    ensures
        match sent {
            Ok(()) => r matches Ok(line) && line@ == "Sent the termination signal to PID "@ + decimal_digits(pid as nat)
                + " on port "@ + decimal_digits(port as nat) + "."@,
            Err(ProcessSignalError::NotFound) => r matches Err(f) && failure_is(
                f,
                AppExit::TargetNotFound,
                "Process "@ + decimal_digits(pid as nat) + " no longer exists."@,
                None,
            ),
            Err(ProcessSignalError::Rejected) => r matches Err(f) && failure_is(
                f,
                AppExit::PermissionOrElevation,
                "The operating system rejected the termination signal for PID "@ + decimal_digits(pid as nat) + "."@,
                Some("Use an account allowed to terminate that process, then inspect the port again."@),
            ),
        },
{
    let pid_text = u64_to_decimal(pid as u64);
    match sent {
        Ok(()) => {
            let mut line = "Sent the termination signal to PID ".to_owned();
            push_str(&mut line, pid_text.as_str());
            push_str(&mut line, " on port ");
            push_str(&mut line, u64_to_decimal(port as u64).as_str());
            push_str(&mut line, ".");
            Ok(line)
        },
        Err(ProcessSignalError::NotFound) => {
            let mut m = "Process ".to_owned();
            push_str(&mut m, pid_text.as_str());
            push_str(&mut m, " no longer exists.");
            Err(CommandFailure::target_not_found(m))
        },
        Err(ProcessSignalError::Rejected) => {
            let mut m = "The operating system rejected the termination signal for PID ".to_owned();
            push_str(&mut m, pid_text.as_str());
            push_str(&mut m, ".");
            Err(CommandFailure::permission(m))
        },
    }
}

/// The line that confirms a delivered termination signal.
pub open spec fn signal_sent_line(pid: u32, port: u16) -> Seq<char> {
    "Sent the termination signal to PID "@ + decimal_digits(pid as nat) + " on port "@ + decimal_digits(port as nat) + "."@
}

/// The failures that signaling process `pid` on `port` can end in, other than refusing the
/// command's own process: the host's sockets could not be listed (an IPC failure without
/// guidance), the process no longer owns the port, the process is gone, or the system
/// rejected the signal.
pub open spec fn kill_failure(f: CommandFailure, port: u16, pid: u32) -> bool {
    ||| (f.kind == AppExit::IpcFailure && f.guidance is None)
    ||| failure_is(
        f,
        AppExit::ConflictOrRejected,
        owner_changed_message(pid, port),
        Some("Run `cadder port inspect <port>` again before retrying."@),
    )
    ||| failure_is(f, AppExit::TargetNotFound, "Process "@ + decimal_digits(pid as nat) + " no longer exists."@, None)
    ||| failure_is(
        f,
        AppExit::PermissionOrElevation,
        "The operating system rejected the termination signal for PID "@ + decimal_digits(pid as nat) + "."@,
        Some("Use an account allowed to terminate that process, then inspect the port again."@),
    )
}

/// Signals process `pid` on `port` once it is confirmed as an owner of the port, and gives
/// the confirmation line. The command's own process (`own_pid`) is refused before the host
/// is asked anything, and only then; a failed listing is an inspection failure. Which
/// owners the host lists, and whether the signal is delivered, is the inspector's answer.
pub fn kill_port_owner<I: ProcessInspector>(inspector: &I, own_pid: u32, port: u16, pid: u32) -> (r: Result<String, CommandFailure>)
    ensures
        pid == own_pid <==> (r matches Err(f) && failure_is(f, AppExit::ConflictOrRejected, own_process_message(), None)),
        r matches Ok(line) ==> line@ == signal_sent_line(pid, port),
        pid != own_pid ==> (r matches Err(f) ==> kill_failure(f, port, pid)),
{
    refuse_own_process(own_pid, pid)?;
    let owners = match inspector.owners(port) {
        Ok(owners) => owners,
        Err(message) => return Err(CommandFailure::inspection(message.as_str())),
    };
    let target = confirm_kill_target(port, pid, &owners)?;
    signal_outcome(port, target, inspector.kill(target))
}

/// Ports in strictly ascending order, so none occurs twice.
pub open spec fn ascending_ports(s: Seq<u16>) -> bool {
    forall|i: int, j: int| 0 <= i < j < s.len() ==> s[i] < s[j]
}

/// Adds `p` to an ascending list of ports, keeping it ascending.
fn insert_port(v: &mut Vec<u16>, p: u16)
    requires
        ascending_ports(old(v)@),
    ensures
        ascending_ports(final(v)@),
        final(v)@.to_set() == old(v)@.to_set().insert(p),
{
    let ghost s0 = v@;
    let mut j: usize = 0;
    while j < v.len() && v[j] < p
        invariant
            j <= v.len(),
            v@ == s0,
            forall|i: int| 0 <= i < j ==> s0[i] < p,
        decreases v.len() - j,
    {
        j = j + 1;
    }
    if j < v.len() && v[j] == p {
        assert(s0.to_set().insert(p) =~= s0.to_set()) by {
            assert(s0[j as int] == p);
        }
        return;
    }
    v.insert(j, p);
    proof {
        let s1 = v@;
        assert(s1 =~= s0.insert(j as int, p));
        assert(s1.to_set() =~= s0.to_set().insert(p)) by {
            assert forall|t: u16| s1.to_set().contains(t) implies s0.to_set().insert(p).contains(t) by {
                let k = choose|k: int| 0 <= k < s1.len() && s1[k] == t;
                if k < j {
                    assert(s0[k] == t);
                } else if k > j {
                    assert(s0[k - 1] == t);
                }
            }
            assert forall|t: u16| s0.to_set().insert(p).contains(t) implies s1.to_set().contains(t) by {
                if t == p {
                    assert(s1[j as int] == t);
                } else {
                    let k = choose|k: int| 0 <= k < s0.len() && s0[k] == t;
                    if k < j {
                        assert(s1[k] == t);
                    } else {
                        assert(s1[k + 1] == t);
                    }
                }
            }
        }
    }
}

/// The local ports that a list of routes proxies to.
pub open spec fn route_ports(routes: Seq<RouteMatch>) -> Set<u16> {
    Set::new(|p: u16| exists|i: int| 0 <= i < routes.len() && local_port((#[trigger] routes[i]).upstream@) == Some(p))
}

/// The distinct local upstream ports of `routes`, in ascending order.
pub fn route_owner_ports(routes: &Vec<RouteMatch>) -> (r: Vec<u16>)
    ensures
        ascending_ports(r@),
        r@.to_set() == route_ports(routes@),
{
    let mut ports: Vec<u16> = Vec::new();
    let mut i: usize = 0;
    while i < routes.len()
        invariant
            i <= routes.len(),
            ascending_ports(ports@),
            ports@.to_set() == route_ports(routes@.subrange(0, i as int)),
        decreases routes.len() - i,
    {
        let ghost before = ports@.to_set();
        match local_upstream(routes[i].upstream.as_str()) {
            Some(p) => insert_port(&mut ports, p),
            None => {},
        }
        proof {
            let pre = routes@.subrange(0, i as int);
            let post = routes@.subrange(0, i + 1);
            assert forall|p: u16| route_ports(post).contains(p) == (route_ports(pre).contains(p) || local_port(
                routes@[i as int].upstream@,
            ) == Some(p)) by {
                if route_ports(post).contains(p) {
                    let k = choose|k: int| 0 <= k < post.len() && local_port((#[trigger] post[k]).upstream@) == Some(p);
                    if k < i {
                        assert(pre[k] == post[k]);
                    }
                }
                if route_ports(pre).contains(p) {
                    let k = choose|k: int| 0 <= k < pre.len() && local_port((#[trigger] pre[k]).upstream@) == Some(p);
                    assert(post[k] == pre[k]);
                }
                if local_port(routes@[i as int].upstream@) == Some(p) {
                    assert(post[i as int] == routes@[i as int]);
                }
            }
            match local_port(routes@[i as int].upstream@) {
                Some(p) => assert(ports@.to_set() =~= route_ports(post)),
                None => assert(ports@.to_set() =~= route_ports(post)),
            }
        }
        i = i + 1;
    }
    proof {
        assert(routes@.subrange(0, routes@.len() as int) =~= routes@);
    }
    ports
}

/// The owners in `owners` on port `port`, in order.
pub open spec fn owners_on(owners: Seq<OwnerView>, port: u16) -> Seq<OwnerView> {
    owners.filter(|o: OwnerView| o.port == port)
}

/// The ports of a list of owners.
pub open spec fn owner_ports(owners: Seq<PortOwner>) -> Set<u16> {
    Set::new(|p: u16| exists|i: int| 0 <= i < owners.len() && (#[trigger] owners[i]).port == p)
}

/// The owners of one port, in the order listed.
fn owners_of_port(owners: &Vec<PortOwner>, port: u16) -> (r: Vec<PortOwner>)
    ensures
        owners_view(r@) == owners_on(owners_view(owners@), port),
{
    let mut out: Vec<PortOwner> = Vec::new();
    let mut i: usize = 0;
    while i < owners.len()
        invariant
            i <= owners.len(),
            owners_view(out@) == owners_on(owners_view(owners@.subrange(0, i as int)), port),
        decreases owners.len() - i,
    {
        let ghost prev = out@;
        proof {
            assert(owners_view(owners@.subrange(0, i + 1)) =~= owners_view(owners@.subrange(0, i as int)).push(owners@[i as int]@));
            owners_view(owners@.subrange(0, i as int)).lemma_filter_push(
                owners@[i as int]@,
                |o: OwnerView| o.port == port,
            );
        }
        if owners[i].port == port {
            out.push(owners[i].copy());
            proof {
                assert(owners_view(out@) =~= owners_view(prev).push(owners@[i as int]@));
            }
        }
        i = i + 1;
    }
    proof {
        assert(owners@.subrange(0, owners@.len() as int) =~= owners@);
    }
    out
}

/// The owners grouped by port, in ascending port order: every requested port, even one
/// without owners, and every port an owner was found on, each with its owners in the order
/// listed.
pub fn group_owners_by_port(ports: &Vec<u16>, owners: &Vec<PortOwner>) -> (r: Vec<(u16, Vec<PortOwner>)>)
    ensures
        ascending_ports(r@.map_values(|g: (u16, Vec<PortOwner>)| g.0)),
        r@.map_values(|g: (u16, Vec<PortOwner>)| g.0).to_set() == ports@.to_set().union(owner_ports(owners@)),
        forall|k: int| 0 <= k < r@.len() ==> owners_view((#[trigger] r@[k]).1@) == owners_on(owners_view(owners@), r@[k].0),
{
    let mut keys: Vec<u16> = Vec::new();
    let mut i: usize = 0;
    while i < ports.len()
        invariant
            i <= ports.len(),
            ascending_ports(keys@),
            keys@.to_set() == ports@.subrange(0, i as int).to_set(),
        decreases ports.len() - i,
    {
        insert_port(&mut keys, ports[i]);
        proof {
            assert(ports@.subrange(0, i + 1) =~= ports@.subrange(0, i as int).push(ports@[i as int]));
            ports@.subrange(0, i as int).lemma_push_to_set_commute(ports@[i as int]);
        }
        i = i + 1;
    }
    proof {
        assert(ports@.subrange(0, ports@.len() as int) =~= ports@);
    }
    let mut j: usize = 0;
    while j < owners.len()
        invariant
            j <= owners.len(),
            ascending_ports(keys@),
            keys@.to_set() == ports@.to_set().union(owner_ports(owners@.subrange(0, j as int))),
        decreases owners.len() - j,
    {
        insert_port(&mut keys, owners[j].port);
        proof {
            let pre = owners@.subrange(0, j as int);
            let post = owners@.subrange(0, j + 1);
            assert(owner_ports(post) =~= owner_ports(pre).insert(owners@[j as int].port)) by {
                assert forall|p: u16| owner_ports(post).contains(p) implies owner_ports(pre).insert(owners@[j as int].port).contains(p) by {
                    let k = choose|k: int| 0 <= k < post.len() && (#[trigger] post[k]).port == p;
                    if k < j {
                        assert(pre[k] == post[k]);
                    }
                }
                assert forall|p: u16| owner_ports(pre).insert(owners@[j as int].port).contains(p) implies owner_ports(post).contains(p) by {
                    if p == owners@[j as int].port {
                        assert(post[j as int].port == p);
                    } else {
                        let k = choose|k: int| 0 <= k < pre.len() && (#[trigger] pre[k]).port == p;
                        assert(post[k] == pre[k]);
                    }
                }
            }
            assert(keys@.to_set() =~= ports@.to_set().union(owner_ports(post)));
        }
        j = j + 1;
    }
    proof {
        assert(owners@.subrange(0, owners@.len() as int) =~= owners@);
    }
    let mut out: Vec<(u16, Vec<PortOwner>)> = Vec::new();
    let mut k: usize = 0;
    while k < keys.len()
        invariant
            k <= keys.len(),
            out@.map_values(|g: (u16, Vec<PortOwner>)| g.0) == keys@.subrange(0, k as int),
            forall|x: int| 0 <= x < out@.len() ==> owners_view((#[trigger] out@[x]).1@) == owners_on(owners_view(owners@), out@[x].0),
        decreases keys.len() - k,
    {
        let port = keys[k];
        let group = owners_of_port(owners, port);
        let ghost prev = out@;
        out.push((port, group));
        proof {
            assert(out@.map_values(|g: (u16, Vec<PortOwner>)| g.0) =~= prev.map_values(|g: (u16, Vec<PortOwner>)| g.0).push(port));
            assert(keys@.subrange(0, k + 1) =~= keys@.subrange(0, k as int).push(port));
            assert forall|x: int| 0 <= x < out@.len() implies owners_view((#[trigger] out@[x]).1@) == owners_on(owners_view(owners@), out@[x].0) by {
                if x < prev.len() {
                    assert(out@[x] == prev[x]);
                }
            }
        }
        k = k + 1;
    }
    proof {
        assert(keys@.subrange(0, keys@.len() as int) =~= keys@);
    }
    out
}

/// The failure of a domain that no route matched: `Domain `d` was not found`, naming the
/// Caddyfile when the search was limited to one.
pub fn domain_not_found(domain: &str, caddyfile: Option<&str>) -> (r: CommandFailure)
    ensures
        failure_is(
            r,
            AppExit::TargetNotFound,
            "Domain `"@ + domain@ + "` was not found"@ + match caddyfile {
                Some(c) => " in `"@ + c@ + "`"@,
                None => Seq::empty(),
            } + "."@,
            None,
        ),
{
    let mut m = "Domain `".to_owned();
    push_str(&mut m, domain);
    push_str(&mut m, "` was not found");
    let ghost head = m@;
    match caddyfile {
        Some(c) => {
            push_str(&mut m, " in `");
            push_str(&mut m, c);
            push_str(&mut m, "`");
            assert(m@ =~= head + (" in `"@ + c@ + "`"@));
        },
        None => {
            assert(m@ =~= head + Seq::<char>::empty());
        },
    }
    push_str(&mut m, ".");
    CommandFailure::target_not_found(m)
}

/// The one project registered for a Caddyfile, among the projects `matches` found for it:
/// none is a missing target, and more than one a conflict to resolve first.
pub fn unique_project(caddyfile: &str, matches: &Vec<usize>) -> (r: Result<usize, CommandFailure>)
    ensures
        matches@.len() == 1 ==> r == Ok::<usize, CommandFailure>(matches@[0]),
        matches@.len() == 0 ==> (r matches Err(f) && failure_is(
            f,
            AppExit::TargetNotFound,
            "Caddyfile `"@ + caddyfile@ + "` is not registered."@,
            None,
        )),
        matches@.len() > 1 ==> (r matches Err(f) && failure_is(
            f,
            AppExit::ConflictOrRejected,
            "Caddyfile `"@ + caddyfile@
                + "` is registered by multiple running projects; stop the duplicate `caddy run` process before changing activation."@,
            None,
        )),
{
    if matches.len() == 1 {
        return Ok(matches[0]);
    }
    let mut m = "Caddyfile `".to_owned();
    push_str(&mut m, caddyfile);
    if matches.len() == 0 {
        push_str(&mut m, "` is not registered.");
        Err(CommandFailure::target_not_found(m))
    } else {
        push_str(
            &mut m,
            "` is registered by multiple running projects; stop the duplicate `caddy run` process before changing activation.",
        );
        Err(CommandFailure::conflict(m, None))
    }
}

} // verus!
