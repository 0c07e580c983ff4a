//! The context a command runs in: the runtime directory it works on, the client that
//! talks to the daemon there, and how the daemon is to be launched when it is not running.

use vstd::prelude::*;
use crate::text::push_str;
use crate::launch::DaemonLaunchOptions;
use crate::operator::{OperatorError, AppExit, plain_error, carries, exit_for_ipc};
use crate::ipc_errors::{opt_view, IpcClientError};

verus! {

/// The runtime directory that a command and the daemon share, once resolved.
#[derive(Debug, Clone)]
pub struct RuntimePaths {
    pub runtime_dir: String,
}

impl RuntimePaths {
    /// The paths rooted at an already resolved runtime directory.
    pub fn from_runtime_dir(runtime_dir: String) -> (r: RuntimePaths)
        ensures
            r.runtime_dir@ == runtime_dir@,
    {
        RuntimePaths { runtime_dir }
    }

    /// The runtime directory.
    pub fn runtime_dir(&self) -> (r: &str)
        ensures
            r@ == self.runtime_dir@,
    {
        self.runtime_dir.as_str()
    }

    fn duplicate(&self) -> (r: RuntimePaths)
        ensures
            r.runtime_dir@ == self.runtime_dir@,
    {
        RuntimePaths { runtime_dir: self.runtime_dir.clone() }
    }
}

/// How long a request may take, by the kind of operation it is.
#[derive(Debug, Clone, Copy, PartialEq, Eq, Structural)]
pub enum DeadlineClass {
    Ordinary,
    Reload,
    Shutdown,
}

/// The client's time limits, in seconds: for connecting, and for the response to each
/// kind of operation.
#[derive(Debug, Clone, Copy)]
pub struct IpcClientDeadlines {
    pub connect_secs: u64,
    pub ordinary_secs: u64,
    pub reload_secs: u64,
    pub shutdown_secs: u64,
}

impl Default for IpcClientDeadlines {
    fn default() -> (r: IpcClientDeadlines)
        ensures
            r.connect_secs == 5,
            r.ordinary_secs == 30,
            r.reload_secs == 120,
            r.shutdown_secs == 30,
    {
        IpcClientDeadlines { connect_secs: 5, ordinary_secs: 30, reload_secs: 120, shutdown_secs: 30 }
    }
}

impl IpcClientDeadlines {
    /// The response deadline for an operation of class `class`; an operation whose class
    /// is not known gets the ordinary deadline.
    pub fn response_for(self, class: Option<DeadlineClass>) -> (r: u64)
        ensures
            r == match class {
                Some(DeadlineClass::Reload) => self.reload_secs,
                Some(DeadlineClass::Shutdown) => self.shutdown_secs,
                _ => self.ordinary_secs,
            },
    {
        match class {
            Some(DeadlineClass::Reload) => self.reload_secs,
            Some(DeadlineClass::Shutdown) => self.shutdown_secs,
            Some(DeadlineClass::Ordinary) => self.ordinary_secs,
            None => self.ordinary_secs,
        }
    }
}

/// The client of the daemon that serves a runtime directory.
#[derive(Debug, Clone)]
pub struct CadderClient {
    pub paths: RuntimePaths,
    pub deadlines: IpcClientDeadlines,
}

impl CadderClient {
    /// A client of the daemon at `paths`, with the default deadlines.
    pub fn new(paths: RuntimePaths) -> (r: CadderClient)
        ensures
            r.paths.runtime_dir@ == paths.runtime_dir@,
            r.deadlines.connect_secs == 5,
            r.deadlines.ordinary_secs == 30,
            r.deadlines.reload_secs == 120,
            r.deadlines.shutdown_secs == 30,
    {
        CadderClient { paths, deadlines: IpcClientDeadlines::default() }
    }
}

/// What a command works with: the runtime paths, a client for them, and the launch options.
pub struct OperatorContext {
    paths: RuntimePaths,
    client: CadderClient,
    launch_options: DaemonLaunchOptions,
}

/// The message of a runtime directory that could not be resolved.
pub open spec fn unresolved_runtime_message(reason: Seq<char>) -> Seq<char> {
    "Could not resolve the Cadder runtime directory: "@ + reason + "."@
}

impl OperatorContext {
    /// The runtime paths.
    pub closed spec fn paths_view(&self) -> RuntimePaths {
        self.paths
    }

    /// The launch options.
    pub closed spec fn options_view(&self) -> DaemonLaunchOptions {
        self.launch_options
    }

    /// The client's runtime paths.
    pub closed spec fn client_view(&self) -> CadderClient {
        self.client
    }

    /// Whether the client serves the context's own runtime directory with the default
    /// deadlines.
    pub open spec fn well_formed(&self) -> bool {
        &&& self.client_view().paths.runtime_dir@ == self.paths_view().runtime_dir@
        &&& self.client_view().deadlines.connect_secs == 5
        &&& self.client_view().deadlines.ordinary_secs == 30
        &&& self.client_view().deadlines.reload_secs == 120
        &&& self.client_view().deadlines.shutdown_secs == 30
    }

    /// The context of a command for the runtime directory `resolved` settled on; where it
    /// could not be settled, an invalid-usage error of `command` that gives the reason.
    pub fn new(command: &'static str, resolved: Result<RuntimePaths, String>, launch_options: DaemonLaunchOptions) -> (r: Result<OperatorContext, OperatorError>)
        ensures
            match (resolved, r) {
                (Ok(p), Ok(c)) => {
                    &&& c.well_formed()
                    &&& c.paths_view().runtime_dir@ == p.runtime_dir@
                    &&& c.options_view() == launch_options
                },
                (Err(reason), Err(e)) => plain_error(e, command, AppExit::InvalidUsage, unresolved_runtime_message(reason@), None),
                _ => false,
            },
    {
        match resolved {
            Ok(paths) => Ok(OperatorContext::from_paths(paths, launch_options)),
            Err(reason) => {
                let mut message = String::new();
                push_str(&mut message, "Could not resolve the Cadder runtime directory: ");
                push_str(&mut message, reason.as_str());
                push_str(&mut message, ".");
                proof {
                    reveal_strlit("Could not resolve the Cadder runtime directory: ");
                    reveal_strlit(".");
                }
                let e = OperatorError::invalid_usage(command, message, None);
                proof {
                    assert(opt_view(None::<String>) == None::<Seq<char>>);
                }
                Err(e)
            },
        }
    }

    /// The context for `paths`, with a client of the daemon there.
    pub fn from_paths(paths: RuntimePaths, launch_options: DaemonLaunchOptions) -> (r: OperatorContext)
        ensures
            r.well_formed(),
            r.paths_view().runtime_dir@ == paths.runtime_dir@,
            r.options_view() == launch_options,
    {
        OperatorContext { client: CadderClient::new(paths.duplicate()), paths, launch_options }
    }

    /// The runtime paths.
    pub fn paths(&self) -> (r: &RuntimePaths)
        ensures
            *r == self.paths_view(),
    {
        &self.paths
    }

    /// The client of the daemon.
    pub fn client(&self) -> (r: &CadderClient)
        ensures
            *r == self.client_view(),
    {
        &self.client
    }

    /// The launch options.
    pub fn launch_options(&self) -> (r: &DaemonLaunchOptions)
        ensures
            *r == self.options_view(),
    {
        &self.launch_options
    }
}

/// How many times a restart polls for the previous daemon to go away.
pub const DAEMON_STOP_ATTEMPTS: usize = 100;

/// How many polls in a row must find no daemon before it counts as stopped.
pub const DAEMON_STOP_CONFIRMATIONS: usize = 3;

/// The pause between two polls, in milliseconds.
pub const DAEMON_STOP_POLL_INTERVAL_MS: u64 = 50;

/// A poll that failed in a way that shows no daemon answering: a retryable failure, an
/// unreachable daemon, or a stale instance.
pub open spec fn counts_as_stopped(e: IpcClientError) -> bool {
    ||| match e {
        IpcClientError::Daemon(p) => p.retryable,
        IpcClientError::Local(l) => l.retryable,
    }
    ||| e.spec_daemon_unavailable()
    ||| e.spec_stale_instance()
}

/// Waiting for a stopped daemon to release its endpoint: the polls made so far, and how
/// many of the last ones in a row found no daemon.
#[derive(Debug, Clone, Copy, PartialEq, Eq, Structural)]
pub struct StopWait {
    pub attempts: usize,
    pub confirmations: usize,
}

/// What follows one poll.
#[derive(Debug)]
pub enum StopWaitStep {
    /// Pause, then poll again from this state.
    PollAgain(StopWait),
    /// The daemon is gone.
    Stopped,
    /// The poll failed in a way that says nothing of the daemon being gone.
    Failed(IpcClientError),
    /// The daemon did not go away within the allowed polls.
    TimedOut,
}

impl StopWait {
    /// Polls left and confirmations still needed.
    pub open spec fn well_formed(self) -> bool {
        self.attempts < DAEMON_STOP_ATTEMPTS && self.confirmations < DAEMON_STOP_CONFIRMATIONS
    }

    /// Before the first poll.
    pub fn new() -> (r: StopWait)
        ensures
            r.attempts == 0,
            r.confirmations == 0,
            r.well_formed(),
    {
        StopWait { attempts: 0, confirmations: 0 }
    }

    /// Takes in the outcome of one poll of the daemon's state: an answer resets the count of
    /// confirmations; a failure that shows no daemon adds one, and the third in a row ends the
    /// wait; any other failure ends it as a failure. Without an end, the wait times out after
    /// the last allowed poll.
    pub fn observe(self, outcome: Result<(), IpcClientError>) -> (r: StopWaitStep)
        requires
            self.well_formed(),
        ensures
            match outcome {
                Ok(()) => if self.attempts + 1 == DAEMON_STOP_ATTEMPTS {
                    r is TimedOut
                } else {
                    r == StopWaitStep::PollAgain(StopWait { attempts: (self.attempts + 1) as usize, confirmations: 0 })
                },
                Err(e) => if counts_as_stopped(e) {
                    if self.confirmations + 1 == DAEMON_STOP_CONFIRMATIONS {
                        r is Stopped
                    } else if self.attempts + 1 == DAEMON_STOP_ATTEMPTS {
                        r is TimedOut
                    } else {
                        r == StopWaitStep::PollAgain(StopWait {
                            attempts: (self.attempts + 1) as usize,
                            confirmations: (self.confirmations + 1) as usize,
                        })
                    }
                } else {
                    r == StopWaitStep::Failed(e)
                },
            },
            r matches StopWaitStep::PollAgain(next) ==> next.well_formed() && next.attempts == self.attempts + 1,
    {
        match outcome {
            Ok(()) => {
                if self.attempts + 1 == DAEMON_STOP_ATTEMPTS {
                    StopWaitStep::TimedOut
                } else {
                    StopWaitStep::PollAgain(StopWait { attempts: self.attempts + 1, confirmations: 0 })
                }
            },
            Err(e) => {
                if e.retryable() || e.is_daemon_unavailable() || e.is_stale_instance() {
                    if self.confirmations + 1 == DAEMON_STOP_CONFIRMATIONS {
                        StopWaitStep::Stopped
                    } else if self.attempts + 1 == DAEMON_STOP_ATTEMPTS {
                        StopWaitStep::TimedOut
                    } else {
                        StopWaitStep::PollAgain(
                            StopWait { attempts: self.attempts + 1, confirmations: self.confirmations + 1 },
                        )
                    }
                } else {
                    StopWaitStep::Failed(e)
                }
            },
        }
    }
}

/// The error of a poll that failed while waiting for the daemon to stop.
pub fn stop_wait_failure(command: &'static str, runtime_dir: &str, error: IpcClientError) -> (r: OperatorError)
    ensures
        r.kind == exit_for_ipc(error),
        r.command == command,
        carries(r, error),
{
    OperatorError::daemon_request(command, runtime_dir, "wait for the daemon to stop", error)
}

/// The error of a daemon that did not release its endpoint in time.
pub fn stop_wait_timeout(command: &'static str) -> (r: OperatorError)
    ensures
        plain_error(
            r,
            command,
            AppExit::IpcFailure,
            "Cadder timed out waiting for the previous daemon process to release its local endpoint."@,
            Some("Check the daemon diagnostics, then retry the restart once."@),
        ),
{
    OperatorError::new(
        command,
        AppExit::IpcFailure,
        "Cadder timed out waiting for the previous daemon process to release its local endpoint.".to_owned(),
        Some("Check the daemon diagnostics, then retry the restart once.".to_owned()),
    )
}

/// The error of a state query that came back without a snapshot.
pub fn missing_snapshot_error(command: &'static str) -> (r: OperatorError)
    ensures
        plain_error(
            r,
            command,
            AppExit::IpcFailure,
            "Cadder daemon returned no state snapshot."@,
            Some("Retry the command after the daemon finishes its current state transition."@),
        ),
{
    OperatorError::new(
        command,
        AppExit::IpcFailure,
        "Cadder daemon returned no state snapshot.".to_owned(),
        Some("Retry the command after the daemon finishes its current state transition.".to_owned()),
    )
}

/// The error of an entrypoint toggle that the daemon did not accept: the entrypoint is
/// unknown.
pub fn entrypoint_not_found(command: &'static str, registration_id: &str) -> (r: OperatorError)
    ensures
        plain_error(
            r,
            command,
            AppExit::TargetNotFound,
            "Entrypoint `"@ + registration_id@ + "` was not found."@,
            Some("Run `cadder projects list` to inspect registered Caddyfiles."@),
        ),
{
    let mut message = "Entrypoint `".to_owned();
    push_str(&mut message, registration_id);
    push_str(&mut message, "` was not found.");
    OperatorError::target_not_found(
        command,
        message,
        Some("Run `cadder projects list` to inspect registered Caddyfiles.".to_owned()),
    )
}

/// The error of a domain toggle that the daemon did not accept, with the daemon's message.
pub fn domain_toggle_rejected(command: &'static str, message: String) -> (r: OperatorError)
    ensures
        plain_error(
            r,
            command,
            AppExit::ConflictOrRejected,
            message@,
            Some("Refresh the domain list and retry the command with an explicit `--registration` filter if needed."@),
        ),
{
    OperatorError::conflict_or_rejected(
        command,
        message,
        Some(
            "Refresh the domain list and retry the command with an explicit `--registration` filter if needed.".to_owned(),
        ),
    )
}

} // verus!
