//! The daemon's local IPC server from claiming its endpoint to a finished shutdown: it
//! accepts connections until shutdown is asked for or the server fails, drains the request
//! handlers (gracefully, then by force), shuts the Caddy runtime and the storage down, and
//! reports how it ended. A step takes what just happened and returns the next state and the
//! commands that the server task carries out.

use vstd::prelude::*;

verus! {

/// How the server ended.
#[derive(Debug, Clone, Copy, PartialEq, Eq, Structural)]
pub enum ServerOutcome {
    /// Everything shut down cleanly.
    Stopped,
    /// Another daemon already owns the local endpoint.
    EndpointOwned,
    /// Force-stopping the Caddy runtime failed or ran out of time.
    ForceStopFailed,
    /// The runtime refused to shut down.
    RuntimeRejected,
    /// Flushing and joining the storage failed.
    StorageFailed,
    /// The request handlers failed, or did not finish within the shutdown grace.
    HandlersFailed,
    /// Accepting connections failed, or a connection or mutation task ended abnormally.
    AcceptFailed,
}

/// How a change of the shutdown signal reads: shutdown asked for, a change that does not ask
/// for it, or the signal's sender is gone.
#[derive(Debug, Clone, Copy, PartialEq, Eq, Structural)]
pub enum SignalChange {
    ShutdownAsked,
    Unset,
    Closed,
}

/// How draining the handlers went: all finished, one failed, or the deadline passed.
#[derive(Debug, Clone, Copy, PartialEq, Eq, Structural)]
pub enum DrainOutcome {
    Finished,
    Failed,
    TimedOut,
}

/// Where the server stands. `accept_failed` records a failure of the accepting loop,
/// `handlers_failed` one of the handlers, and `accepted` whether the runtime accepted its
/// shutdown.
#[derive(Debug, Clone, Copy, PartialEq, Eq, Structural)]
pub enum ServerState {
    Claiming,
    Serving,
    GracefulDrain { accept_failed: bool },
    ForcedDrain { accept_failed: bool },
    RuntimeShutdown { accept_failed: bool, handlers_failed: bool },
    ForceStopping { accept_failed: bool, handlers_failed: bool, accepted: bool },
    StorageShutdown { accept_failed: bool, handlers_failed: bool, accepted: bool },
    Ended(ServerOutcome),
}

/// What happened to the server.
#[derive(Debug, Clone, Copy, PartialEq, Eq, Structural)]
pub enum ServerEvent {
    /// Claiming the endpoint: whether it was claimed.
    LeaseClaimed(bool),
    /// A shutdown request arrived over IPC.
    ShutdownRequested,
    SignalChanged(SignalChange),
    MutationTaskPanicked,
    /// A connection task ended: whether it ended abnormally.
    ConnectionTaskEnded { abnormal: bool },
    /// A connection was accepted: whether a connection permit was free.
    ConnectionAccepted { permit: bool },
    /// Accepting failed: whether it was only interrupted.
    AcceptFailed { interrupted: bool },
    Drained(DrainOutcome),
    /// The runtime's shutdown: whether it is quiescent and whether it accepted.
    RuntimeShutDown { quiescent: bool, accepted: bool },
    ForceStopped(bool),
    StorageShutDown(bool),
}

/// A command for the server task.
#[derive(Debug, Clone, Copy, PartialEq, Eq, Structural)]
pub enum ServerCommand {
    /// Wait for the next shutdown request, signal change, task end or connection.
    Serve,
    /// Close a connection for which no permit was free.
    DropConnection,
    /// Serve an accepted connection in a task of its own.
    SpawnConnection,
    /// Stop accepting: drain operations, cancel requests at the accept deadline, close the
    /// mutation tasks and wait for the handlers until the graceful deadline.
    BeginDrain,
    /// Cancel the mutations and connections, abort the connection tasks and wait for the
    /// handlers until the handler deadline.
    ForceDrain,
    /// Log that an owned mutation outlived the shutdown grace.
    LogMutationTimeout,
    /// Prepare the runtime's shutdown until the runtime deadline.
    ShutDownRuntime,
    /// Force-stop the Caddy runtime within its budget.
    ForceStopRuntime,
    /// Flush and join the storage until the storage deadline.
    ShutDownStorage,
    /// End with this outcome.
    End(ServerOutcome),
}

/// How the server ends once the storage is down: a refused runtime shutdown first, then a
/// storage failure, then a handler failure, then an accepting failure.
pub open spec fn final_outcome(accept_failed: bool, handlers_failed: bool, accepted: bool, storage_ok: bool) -> ServerOutcome {
    if !accepted {
        ServerOutcome::RuntimeRejected
    } else if !storage_ok {
        ServerOutcome::StorageFailed
    } else if handlers_failed {
        ServerOutcome::HandlersFailed
    } else if accept_failed {
        ServerOutcome::AcceptFailed
    } else {
        ServerOutcome::Stopped
    }
}

/// One step of the server.
///
/// Without an endpoint lease the server ends at once. While serving, an IPC shutdown
/// request or a set (or closed) shutdown signal starts the drain; a panicked mutation task,
/// an abnormally ended connection task or a failed accept (other than an interrupted one)
/// records a failure and starts the drain; an accepted connection is served when a permit is
/// free and dropped otherwise. The drain waits for the handlers until the graceful deadline,
/// then by force until the handler deadline; a failure or a missed deadline counts against
/// the handlers, and a missed forced deadline is logged. The runtime is then shut down, and
/// force-stopped when it is not quiescent (a failure there ends the server), then the
/// storage, and the server ends as `final_outcome` says.
pub open spec fn server_next(state: ServerState, event: ServerEvent) -> (ServerState, Seq<ServerCommand>) {
    match (state, event) {
        (ServerState::Claiming, ServerEvent::LeaseClaimed(claimed)) => if claimed {
            (ServerState::Serving, seq![ServerCommand::Serve])
        } else {
            (
                ServerState::Ended(ServerOutcome::EndpointOwned),
                seq![ServerCommand::End(ServerOutcome::EndpointOwned)],
            )
        },
        (ServerState::Serving, ServerEvent::ShutdownRequested) => (
            ServerState::GracefulDrain { accept_failed: false },
            seq![ServerCommand::BeginDrain],
        ),
        (ServerState::Serving, ServerEvent::SignalChanged(change)) => match change {
            SignalChange::Unset => (ServerState::Serving, seq![ServerCommand::Serve]),
            _ => (ServerState::GracefulDrain { accept_failed: false }, seq![ServerCommand::BeginDrain]),
        },
        (ServerState::Serving, ServerEvent::MutationTaskPanicked) => (
            ServerState::GracefulDrain { accept_failed: true },
            seq![ServerCommand::BeginDrain],
        ),
        (ServerState::Serving, ServerEvent::ConnectionTaskEnded { abnormal }) => if abnormal {
            (ServerState::GracefulDrain { accept_failed: true }, seq![ServerCommand::BeginDrain])
        } else {
            (ServerState::Serving, seq![ServerCommand::Serve])
        },
        (ServerState::Serving, ServerEvent::ConnectionAccepted { permit }) => if permit {
            (ServerState::Serving, seq![ServerCommand::SpawnConnection, ServerCommand::Serve])
        } else {
            (ServerState::Serving, seq![ServerCommand::DropConnection, ServerCommand::Serve])
        },
        (ServerState::Serving, ServerEvent::AcceptFailed { interrupted }) => if interrupted {
            (ServerState::Serving, seq![ServerCommand::Serve])
        } else {
            (ServerState::GracefulDrain { accept_failed: true }, seq![ServerCommand::BeginDrain])
        },
        (ServerState::GracefulDrain { accept_failed }, ServerEvent::Drained(outcome)) => match outcome {
            DrainOutcome::Finished => (
                ServerState::RuntimeShutdown { accept_failed, handlers_failed: false },
                seq![ServerCommand::ShutDownRuntime],
            ),
            DrainOutcome::Failed => (
                ServerState::RuntimeShutdown { accept_failed, handlers_failed: true },
                seq![ServerCommand::ShutDownRuntime],
            ),
            DrainOutcome::TimedOut => (ServerState::ForcedDrain { accept_failed }, seq![ServerCommand::ForceDrain]),
        },
        (ServerState::ForcedDrain { accept_failed }, ServerEvent::Drained(outcome)) => match outcome {
            DrainOutcome::Finished => (
                ServerState::RuntimeShutdown { accept_failed, handlers_failed: false },
                seq![ServerCommand::ShutDownRuntime],
            ),
            DrainOutcome::Failed => (
                ServerState::RuntimeShutdown { accept_failed, handlers_failed: true },
                seq![ServerCommand::ShutDownRuntime],
            ),
            DrainOutcome::TimedOut => (
                ServerState::RuntimeShutdown { accept_failed, handlers_failed: true },
                seq![ServerCommand::LogMutationTimeout, ServerCommand::ShutDownRuntime],
            ),
        },
        (ServerState::RuntimeShutdown { accept_failed, handlers_failed }, ServerEvent::RuntimeShutDown { quiescent, accepted }) => if quiescent {
            (ServerState::StorageShutdown { accept_failed, handlers_failed, accepted }, seq![ServerCommand::ShutDownStorage])
        } else {
            (ServerState::ForceStopping { accept_failed, handlers_failed, accepted }, seq![ServerCommand::ForceStopRuntime])
        },
        (ServerState::ForceStopping { accept_failed, handlers_failed, accepted }, ServerEvent::ForceStopped(ok)) => if ok {
            (ServerState::StorageShutdown { accept_failed, handlers_failed, accepted }, seq![ServerCommand::ShutDownStorage])
        } else {
            (
                ServerState::Ended(ServerOutcome::ForceStopFailed),
                seq![ServerCommand::End(ServerOutcome::ForceStopFailed)],
            )
        },
        (ServerState::StorageShutdown { accept_failed, handlers_failed, accepted }, ServerEvent::StorageShutDown(ok)) => {
            let outcome = final_outcome(accept_failed, handlers_failed, accepted, ok);
            (ServerState::Ended(outcome), seq![ServerCommand::End(outcome)])
        },
        _ => (state, Seq::empty()),
    }
}

fn final_outcome_of(accept_failed: bool, handlers_failed: bool, accepted: bool, storage_ok: bool) -> (r: ServerOutcome)
    ensures
        r == final_outcome(accept_failed, handlers_failed, accepted, storage_ok),
{
    if !accepted {
        ServerOutcome::RuntimeRejected
    } else if !storage_ok {
        ServerOutcome::StorageFailed
    } else if handlers_failed {
        ServerOutcome::HandlersFailed
    } else if accept_failed {
        ServerOutcome::AcceptFailed
    } else {
        ServerOutcome::Stopped
    }
}

/// One step of the server (see `server_next`); an event that does not belong to the state
/// changes nothing.
pub fn server_step(state: ServerState, event: ServerEvent) -> (r: (ServerState, Vec<ServerCommand>))
    ensures
        (r.0, r.1@) == server_next(state, event),
{
    match (state, event) {
        (ServerState::Claiming, ServerEvent::LeaseClaimed(claimed)) => if claimed {
            (ServerState::Serving, vec![ServerCommand::Serve])
        } else {
            (
                ServerState::Ended(ServerOutcome::EndpointOwned),
                vec![ServerCommand::End(ServerOutcome::EndpointOwned)],
            )
        },
        (ServerState::Serving, ServerEvent::ShutdownRequested) => (
            ServerState::GracefulDrain { accept_failed: false },
            vec![ServerCommand::BeginDrain],
        ),
        (ServerState::Serving, ServerEvent::SignalChanged(change)) => match change {
            SignalChange::Unset => (ServerState::Serving, vec![ServerCommand::Serve]),
            _ => (ServerState::GracefulDrain { accept_failed: false }, vec![ServerCommand::BeginDrain]),
        },
        (ServerState::Serving, ServerEvent::MutationTaskPanicked) => (
            ServerState::GracefulDrain { accept_failed: true },
            vec![ServerCommand::BeginDrain],
        ),
        (ServerState::Serving, ServerEvent::ConnectionTaskEnded { abnormal }) => if abnormal {
            (ServerState::GracefulDrain { accept_failed: true }, vec![ServerCommand::BeginDrain])
        } else {
            (ServerState::Serving, vec![ServerCommand::Serve])
        },
        (ServerState::Serving, ServerEvent::ConnectionAccepted { permit }) => if permit {
            (ServerState::Serving, vec![ServerCommand::SpawnConnection, ServerCommand::Serve])
        } else {
            (ServerState::Serving, vec![ServerCommand::DropConnection, ServerCommand::Serve])
        },
        (ServerState::Serving, ServerEvent::AcceptFailed { interrupted }) => if interrupted {
            (ServerState::Serving, vec![ServerCommand::Serve])
        } else {
            (ServerState::GracefulDrain { accept_failed: true }, vec![ServerCommand::BeginDrain])
        },
        (ServerState::GracefulDrain { accept_failed }, ServerEvent::Drained(outcome)) => match outcome {
            DrainOutcome::Finished => (
                ServerState::RuntimeShutdown { accept_failed, handlers_failed: false },
                vec![ServerCommand::ShutDownRuntime],
            ),
            DrainOutcome::Failed => (
                ServerState::RuntimeShutdown { accept_failed, handlers_failed: true },
                vec![ServerCommand::ShutDownRuntime],
            ),
            DrainOutcome::TimedOut => (ServerState::ForcedDrain { accept_failed }, vec![ServerCommand::ForceDrain]),
        },
        (ServerState::ForcedDrain { accept_failed }, ServerEvent::Drained(outcome)) => match outcome {
            DrainOutcome::Finished => (
                ServerState::RuntimeShutdown { accept_failed, handlers_failed: false },
                vec![ServerCommand::ShutDownRuntime],
            ),
            DrainOutcome::Failed => (
                ServerState::RuntimeShutdown { accept_failed, handlers_failed: true },
                vec![ServerCommand::ShutDownRuntime],
            ),
            DrainOutcome::TimedOut => (
                ServerState::RuntimeShutdown { accept_failed, handlers_failed: true },
                vec![ServerCommand::LogMutationTimeout, ServerCommand::ShutDownRuntime],
            ),
        },
        (ServerState::RuntimeShutdown { accept_failed, handlers_failed }, ServerEvent::RuntimeShutDown { quiescent, accepted }) => if quiescent {
            (ServerState::StorageShutdown { accept_failed, handlers_failed, accepted }, vec![ServerCommand::ShutDownStorage])
        } else {
            (ServerState::ForceStopping { accept_failed, handlers_failed, accepted }, vec![ServerCommand::ForceStopRuntime])
        },
        (ServerState::ForceStopping { accept_failed, handlers_failed, accepted }, ServerEvent::ForceStopped(ok)) => if ok {
            (ServerState::StorageShutdown { accept_failed, handlers_failed, accepted }, vec![ServerCommand::ShutDownStorage])
        } else {
            (
                ServerState::Ended(ServerOutcome::ForceStopFailed),
                vec![ServerCommand::End(ServerOutcome::ForceStopFailed)],
            )
        },
        (ServerState::StorageShutdown { accept_failed, handlers_failed, accepted }, ServerEvent::StorageShutDown(ok)) => {
            let outcome = final_outcome_of(accept_failed, handlers_failed, accepted, ok);
            (ServerState::Ended(outcome), vec![ServerCommand::End(outcome)])
        },
        _ => (state, Vec::new()),
    }
}

/// The graceful drain's deadline: the handler deadline less the smaller of the budget for
/// joining aborted connections and half the handler grace.
pub fn graceful_drain_deadline(handler_deadline: u64, abort_join_budget: u64, handler_grace: u64) -> (r: u64)
    requires
        (if abort_join_budget <= handler_grace / 2 { abort_join_budget } else { handler_grace / 2 }) <= handler_deadline,
    ensures
        r == handler_deadline - (if abort_join_budget <= handler_grace / 2 {
            abort_join_budget
        } else {
            handler_grace / 2
        }),
{
    let half = handler_grace / 2;
    let budget = if abort_join_budget <= half {
        abort_join_budget
    } else {
        half
    };
    handler_deadline - budget
}

/// Once the storage is down, the server ends cleanly exactly when the runtime accepted its
/// shutdown, the storage shut down, and neither the handlers nor the accepting loop failed.
pub proof fn lemma_clean_stop_needs_every_part(accept_failed: bool, handlers_failed: bool, accepted: bool, storage_ok: bool)
    ensures
        final_outcome(accept_failed, handlers_failed, accepted, storage_ok) == ServerOutcome::Stopped <==> (accepted
            && storage_ok && !handlers_failed && !accept_failed),
{
}

/// A server that has ended stays ended, whatever happens next.
pub proof fn lemma_server_end_is_final(outcome: ServerOutcome, event: ServerEvent)
    ensures
        server_next(ServerState::Ended(outcome), event) == (ServerState::Ended(outcome), Seq::<ServerCommand>::empty()),
{
}

} // verus!
