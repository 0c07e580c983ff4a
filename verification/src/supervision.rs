//! Supervising one authorized request on a daemon connection.
//!
//! A request runs against three other things that can happen first: the daemon starting to
//! drain requests for shutdown, the cancellation of its operation fence, and its deadline.
//! A frame that arrives while it runs is a pipelined request, which the protocol refuses.
//! The supervisors here are state machines: each step takes what just happened and returns
//! the next state and the commands, in order, that the connection task carries out; the
//! outcomes of those commands are the next events.

use vstd::prelude::*;

verus! {

/// What a connection does after a request: read the next one, or close.
#[derive(Debug, Clone, Copy, PartialEq, Eq, Structural)]
pub enum ConnectionAction {
    Continue,
    Close,
}

/// What a read made while a request ran found: another frame (a pipelined request), or the
/// end of the stream. The pipelined request's identifier, if it has one, stays with the caller.
#[derive(Debug, Clone, Copy, PartialEq, Eq, Structural)]
pub enum ConcurrentRead {
    Pipelined,
    Closed,
}

/// How trying to revoke an operation fence went: the operation had already committed, the
/// fence is now revoked, or it was revoked before.
#[derive(Debug, Clone, Copy, PartialEq, Eq, Structural)]
pub enum RevokeOutcome {
    Finalized,
    Revoked,
    AlreadyRevoked,
}

/// How issuing an operation fence went: issued, refused because operations are draining, or
/// refused for another reason.
#[derive(Debug, Clone, Copy, PartialEq, Eq, Structural)]
pub enum FenceIssue {
    Issued,
    Draining,
    Failed,
}

/// A command for the connection task.
#[derive(Debug, Clone, Copy, PartialEq, Eq, Structural)]
pub enum SupervisionCommand {
    /// Issue the operation fence; its outcome is the next event.
    IssueFence,
    /// Hand the request to the owned-mutation supervisor.
    SuperviseOwnedMutation,
    /// Start the request's handler.
    StartHandler,
    /// Wait for whichever comes first: drain, cancellation, a concurrent read, the
    /// handler or worker, or the deadline.
    Race,
    /// Wait again, no longer reading: drain, cancellation, the handler or worker, or the
    /// deadline.
    RaceWithoutReading,
    /// Mark the fenced operation complete.
    CompleteFence,
    /// Revoke the fence.
    RevokeFence,
    /// Try to revoke the fence; its outcome is the next event.
    TryRevokeFence,
    /// Try to revoke the fence, whatever the outcome.
    DiscardFence,
    /// Answer that the request's payload could not be decoded.
    RejectUndecodable,
    /// Take the connection's mutation ownership; whether it could is the next event.
    BeginMutation,
    /// Spawn the mutation worker; whether it could is the next event.
    SpawnWorker,
    /// Wait for the worker's response.
    AwaitWorker,
    /// Let the worker go without waiting for it.
    AbandonWorker,
    /// Tell whether the operation deadline is still ahead.
    CheckDeadline,
    /// Tell whether the read buffer holds nothing more.
    CheckReadBuffer,
    /// Write the response within the operation deadline.
    WriteResponse,
    /// Write the response within a fresh no-progress deadline.
    WriteResponseFresh,
    /// Answer that the daemon is shutting down.
    SendShuttingDown,
    /// Answer that this request was cut short by shutdown.
    SendRequestShuttingDown,
    /// Answer that the operation ran out of time.
    SendOperationTimeout,
    /// Refuse a pipelined request that has no identifier.
    SendPipelinedError,
    /// Refuse the pipelined request that the concurrent read found, by its identifier.
    SendPipelinedErrorForRead,
    /// Stop supervising, with this action for the connection.
    Finish(ConnectionAction),
    /// Stop supervising with an error.
    Fail,
}

/// The commands `cmd` when `c` holds, else none.
pub open spec fn when(c: bool, cmd: SupervisionCommand) -> Seq<SupervisionCommand> {
    if c {
        seq![cmd]
    } else {
        Seq::empty()
    }
}

/// The end of a supervision that closes the connection: after a concurrent read that found
/// a pipelined request, that request is refused first.
pub open spec fn closing(read: Option<ConcurrentRead>) -> Seq<SupervisionCommand> {
    match read {
        Some(ConcurrentRead::Pipelined) => seq![
            SupervisionCommand::SendPipelinedErrorForRead,
            SupervisionCommand::Finish(ConnectionAction::Close),
        ],
        _ => seq![SupervisionCommand::Finish(ConnectionAction::Close)],
    }
}

fn when_cmd(c: bool, cmd: SupervisionCommand) -> (r: Vec<SupervisionCommand>)
    ensures
        r@ == when(c, cmd),
{
    if c {
        vec![cmd]
    } else {
        Vec::new()
    }
}

fn closing_cmds(read: Option<ConcurrentRead>) -> (r: Vec<SupervisionCommand>)
    ensures
        r@ == closing(read),
{
    match read {
        Some(ConcurrentRead::Pipelined) => vec![
            SupervisionCommand::SendPipelinedErrorForRead,
            SupervisionCommand::Finish(ConnectionAction::Close),
        ],
        _ => vec![SupervisionCommand::Finish(ConnectionAction::Close)],
    }
}

fn then(a: Vec<SupervisionCommand>, b: Vec<SupervisionCommand>) -> (r: Vec<SupervisionCommand>)
    ensures
        r@ == a@ + b@,
{
    let mut a = a;
    let mut b = b;
    a.append(&mut b);
    a
}

/// Whether an operation runs under a fence: mutations do, except the daemon's shutdown.
pub open spec fn uses_fence(is_mutation: bool, is_shutdown: bool) -> bool {
    is_mutation && !is_shutdown
}

/// Whether an operation runs under a fence: mutations do, except the daemon's shutdown.
pub fn operation_uses_fence(is_mutation: bool, is_shutdown: bool) -> (r: bool)
    ensures
        r == uses_fence(is_mutation, is_shutdown),
{
    is_mutation && !is_shutdown
}

/// The requests that a connection's owned-mutation worker carries out.
#[derive(Debug, Clone, Copy, PartialEq, Eq, Structural)]
pub enum OwnedMutationKind {
    Register,
    Unregister,
    Heartbeat,
    SetEntrypointEnabled,
    SetDomainEnabled,
}

/// Where a unary request's supervision stands.
#[derive(Debug, Clone, Copy, PartialEq, Eq, Structural)]
pub enum UnaryState {
    /// Not begun; whether the operation is fenced, and whether it is an owned mutation.
    Start { fenced: bool, owned: bool },
    /// Waiting for the fence; whether it is an owned mutation.
    IssuingFence { owned: bool },
    /// The handler runs and the connection is read.
    Racing { fenced: bool },
    /// The handler runs after a concurrent read.
    FollowUp { fenced: bool, read: ConcurrentRead },
    /// The handler finished with this action; the read buffer decides.
    CheckingBuffer { action: ConnectionAction },
    /// The owned-mutation supervisor took the request over.
    Delegated,
    /// Supervision has ended.
    Done,
}

/// What happened during a unary request's supervision.
#[derive(Debug, Clone, Copy, PartialEq, Eq, Structural)]
pub enum UnaryEvent {
    Begin,
    FenceIssued(FenceIssue),
    /// The handler finished: its action, or none when it failed.
    HandlerFinished(Option<ConnectionAction>),
    ConcurrentReadDone(ConcurrentRead),
    Cancelled,
    DrainStarted,
    DeadlinePassed,
    ReadBuffer { empty: bool },
}

/// One step of a unary request's supervision.
///
/// A fenced operation first gets its fence; draining refuses it with a shutting-down
/// answer, and an owned mutation goes to its own supervisor. While the handler runs, its
/// finishing completes the fence, then a leftover pipelined frame is refused and closes the
/// connection; a concurrent read makes the supervisor wait without reading and then refuse
/// the pipelined request; cancellation, drain and the deadline revoke the fence and close,
/// drain with a shutting-down answer and the deadline with a timeout answer.
pub open spec fn unary_next(state: UnaryState, event: UnaryEvent) -> (UnaryState, Seq<SupervisionCommand>) {
    match (state, event) {
        (UnaryState::Start { fenced, owned }, UnaryEvent::Begin) => if fenced {
            (UnaryState::IssuingFence { owned }, seq![SupervisionCommand::IssueFence])
        } else if owned {
            (UnaryState::Done, seq![SupervisionCommand::Fail])
        } else {
            (UnaryState::Racing { fenced: false }, seq![SupervisionCommand::StartHandler, SupervisionCommand::Race])
        },
        (UnaryState::IssuingFence { owned }, UnaryEvent::FenceIssued(issue)) => match issue {
            FenceIssue::Issued => if owned {
                (UnaryState::Delegated, seq![SupervisionCommand::SuperviseOwnedMutation])
            } else {
                (UnaryState::Racing { fenced: true }, seq![SupervisionCommand::StartHandler, SupervisionCommand::Race])
            },
            FenceIssue::Draining => (
                UnaryState::Done,
                seq![SupervisionCommand::SendShuttingDown, SupervisionCommand::Finish(ConnectionAction::Close)],
            ),
            FenceIssue::Failed => (UnaryState::Done, seq![SupervisionCommand::Fail]),
        },
        (UnaryState::Racing { fenced }, UnaryEvent::HandlerFinished(result)) => match result {
            Some(action) => (
                UnaryState::CheckingBuffer { action },
                when(fenced, SupervisionCommand::CompleteFence) + seq![SupervisionCommand::CheckReadBuffer],
            ),
            None => (UnaryState::Done, when(fenced, SupervisionCommand::CompleteFence) + seq![SupervisionCommand::Fail]),
        },
        (UnaryState::Racing { fenced }, UnaryEvent::ConcurrentReadDone(read)) => (
            UnaryState::FollowUp { fenced, read },
            seq![SupervisionCommand::RaceWithoutReading],
        ),
        (UnaryState::Racing { fenced }, UnaryEvent::Cancelled) => (
            UnaryState::Done,
            when(fenced, SupervisionCommand::RevokeFence) + seq![SupervisionCommand::Finish(ConnectionAction::Close)],
        ),
        (UnaryState::Racing { fenced }, UnaryEvent::DrainStarted) => (
            UnaryState::Done,
            when(fenced, SupervisionCommand::RevokeFence) + seq![
                SupervisionCommand::SendRequestShuttingDown,
                SupervisionCommand::Finish(ConnectionAction::Close),
            ],
        ),
        (UnaryState::Racing { fenced }, UnaryEvent::DeadlinePassed) => (
            UnaryState::Done,
            when(fenced, SupervisionCommand::RevokeFence) + seq![
                SupervisionCommand::SendOperationTimeout,
                SupervisionCommand::Finish(ConnectionAction::Close),
            ],
        ),
        (UnaryState::FollowUp { fenced, read }, UnaryEvent::HandlerFinished(result)) => match result {
            Some(_) => (UnaryState::Done, when(fenced, SupervisionCommand::CompleteFence) + closing(Some(read))),
            None => (UnaryState::Done, when(fenced, SupervisionCommand::CompleteFence) + seq![SupervisionCommand::Fail]),
        },
        (UnaryState::FollowUp { fenced, read: _ }, UnaryEvent::Cancelled) => (
            UnaryState::Done,
            when(fenced, SupervisionCommand::RevokeFence) + seq![
                SupervisionCommand::SendRequestShuttingDown,
                SupervisionCommand::Finish(ConnectionAction::Close),
            ],
        ),
        (UnaryState::FollowUp { fenced, read: _ }, UnaryEvent::DrainStarted) => (
            UnaryState::Done,
            when(fenced, SupervisionCommand::RevokeFence) + seq![
                SupervisionCommand::SendRequestShuttingDown,
                SupervisionCommand::Finish(ConnectionAction::Close),
            ],
        ),
        (UnaryState::FollowUp { fenced, read }, UnaryEvent::DeadlinePassed) => (
            UnaryState::Done,
            when(fenced, SupervisionCommand::RevokeFence) + seq![SupervisionCommand::SendOperationTimeout] + closing(
                Some(read),
            ),
        ),
        (UnaryState::CheckingBuffer { action }, UnaryEvent::ReadBuffer { empty }) => if empty {
            (UnaryState::Done, seq![SupervisionCommand::Finish(action)])
        } else {
            (
                UnaryState::Done,
                seq![SupervisionCommand::SendPipelinedError, SupervisionCommand::Finish(ConnectionAction::Close)],
            )
        },
        _ => (state, Seq::empty()),
    }
}

/// One step of a unary request's supervision (see `unary_next`); an event that does not
/// belong to the state changes nothing.
pub fn unary_supervision_step(state: UnaryState, event: UnaryEvent) -> (r: (UnaryState, Vec<SupervisionCommand>))
    ensures
        (r.0, r.1@) == unary_next(state, event),
{
    match (state, event) {
        (UnaryState::Start { fenced, owned }, UnaryEvent::Begin) => if fenced {
            (UnaryState::IssuingFence { owned }, vec![SupervisionCommand::IssueFence])
        } else if owned {
            (UnaryState::Done, vec![SupervisionCommand::Fail])
        } else {
            (UnaryState::Racing { fenced: false }, vec![SupervisionCommand::StartHandler, SupervisionCommand::Race])
        },
        (UnaryState::IssuingFence { owned }, UnaryEvent::FenceIssued(issue)) => match issue {
            FenceIssue::Issued => if owned {
                (UnaryState::Delegated, vec![SupervisionCommand::SuperviseOwnedMutation])
            } else {
                (UnaryState::Racing { fenced: true }, vec![SupervisionCommand::StartHandler, SupervisionCommand::Race])
            },
            FenceIssue::Draining => (
                UnaryState::Done,
                vec![SupervisionCommand::SendShuttingDown, SupervisionCommand::Finish(ConnectionAction::Close)],
            ),
            FenceIssue::Failed => (UnaryState::Done, vec![SupervisionCommand::Fail]),
        },
        (UnaryState::Racing { fenced }, UnaryEvent::HandlerFinished(result)) => match result {
            Some(action) => (
                UnaryState::CheckingBuffer { action },
                then(when_cmd(fenced, SupervisionCommand::CompleteFence), vec![SupervisionCommand::CheckReadBuffer]),
            ),
            None => (
                UnaryState::Done,
                then(when_cmd(fenced, SupervisionCommand::CompleteFence), vec![SupervisionCommand::Fail]),
            ),
        },
        (UnaryState::Racing { fenced }, UnaryEvent::ConcurrentReadDone(read)) => (
            UnaryState::FollowUp { fenced, read },
            vec![SupervisionCommand::RaceWithoutReading],
        ),
        (UnaryState::Racing { fenced }, UnaryEvent::Cancelled) => (
            UnaryState::Done,
            then(
                when_cmd(fenced, SupervisionCommand::RevokeFence),
                vec![SupervisionCommand::Finish(ConnectionAction::Close)],
            ),
        ),
        (UnaryState::Racing { fenced }, UnaryEvent::DrainStarted) => (
            UnaryState::Done,
            then(
                when_cmd(fenced, SupervisionCommand::RevokeFence),
                vec![SupervisionCommand::SendRequestShuttingDown, SupervisionCommand::Finish(ConnectionAction::Close)],
            ),
        ),
        (UnaryState::Racing { fenced }, UnaryEvent::DeadlinePassed) => (
            UnaryState::Done,
            then(
                when_cmd(fenced, SupervisionCommand::RevokeFence),
                vec![SupervisionCommand::SendOperationTimeout, SupervisionCommand::Finish(ConnectionAction::Close)],
            ),
        ),
        (UnaryState::FollowUp { fenced, read }, UnaryEvent::HandlerFinished(result)) => match result {
            Some(_) => (UnaryState::Done, then(when_cmd(fenced, SupervisionCommand::CompleteFence), closing_cmds(Some(read)))),
            None => (
                UnaryState::Done,
                then(when_cmd(fenced, SupervisionCommand::CompleteFence), vec![SupervisionCommand::Fail]),
            ),
        },
        (UnaryState::FollowUp { fenced, read: _ }, UnaryEvent::Cancelled) => (
            UnaryState::Done,
            then(
                when_cmd(fenced, SupervisionCommand::RevokeFence),
                vec![SupervisionCommand::SendRequestShuttingDown, SupervisionCommand::Finish(ConnectionAction::Close)],
            ),
        ),
        (UnaryState::FollowUp { fenced, read: _ }, UnaryEvent::DrainStarted) => (
            UnaryState::Done,
            then(
                when_cmd(fenced, SupervisionCommand::RevokeFence),
                vec![SupervisionCommand::SendRequestShuttingDown, SupervisionCommand::Finish(ConnectionAction::Close)],
            ),
        ),
        (UnaryState::FollowUp { fenced, read }, UnaryEvent::DeadlinePassed) => (
            UnaryState::Done,
            then(
                then(when_cmd(fenced, SupervisionCommand::RevokeFence), vec![SupervisionCommand::SendOperationTimeout]),
                closing_cmds(Some(read)),
            ),
        ),
        (UnaryState::CheckingBuffer { action }, UnaryEvent::ReadBuffer { empty }) => if empty {
            (UnaryState::Done, vec![SupervisionCommand::Finish(action)])
        } else {
            (
                UnaryState::Done,
                vec![SupervisionCommand::SendPipelinedError, SupervisionCommand::Finish(ConnectionAction::Close)],
            )
        },
        _ => (state, Vec::new()),
    }
}

/// Where an owned mutation's supervision stands. `Option<ConcurrentRead>` tells how the
/// supervision ends: `None` before any concurrent read, else after that read.
#[derive(Debug, Clone, Copy, PartialEq, Eq, Structural)]
pub enum MutationState {
    /// The payload is being decoded.
    Decoding,
    /// The connection's mutation ownership is being taken.
    BeginningOwnership,
    /// The worker is being spawned.
    Spawning,
    /// The worker runs and the connection is read.
    Racing,
    /// The worker runs after a concurrent read.
    FollowUp(ConcurrentRead),
    /// The worker answered; the deadline decides how its response is written.
    CheckingDeadline(Option<ConcurrentRead>),
    /// The deadline passed before the response; the fence's revocation decides.
    WriteRevoking(Option<ConcurrentRead>),
    /// The response went out before any concurrent read; the read buffer decides.
    CheckingBuffer,
    /// Drain started; the fence's revocation decides.
    ShutdownRevoking,
    /// The deadline passed; the fence's revocation decides.
    TimeoutRevoking(Option<ConcurrentRead>),
    /// The operation committed; its response is awaited and then written.
    AwaitingResponse(Option<ConcurrentRead>),
    /// Supervision has ended.
    Done,
}

/// What happened during an owned mutation's supervision.
#[derive(Debug, Clone, Copy, PartialEq, Eq, Structural)]
pub enum MutationEvent {
    Decoded(bool),
    OwnershipBegun(bool),
    WorkerSpawned(bool),
    /// The worker finished: with a response, or with an error.
    WorkerFinished(bool),
    ConcurrentReadDone(ConcurrentRead),
    Cancelled,
    DrainStarted,
    DeadlinePassed,
    BeforeDeadline(bool),
    Revoked(RevokeOutcome),
    ReadBuffer { empty: bool },
}

/// How a write of the worker's response ends: before any concurrent read, a response that
/// went out lets the read buffer decide and one that did not closes; after a concurrent read
/// the connection closes either way.
pub open spec fn after_write(read: Option<ConcurrentRead>, wrote: bool) -> (MutationState, Seq<SupervisionCommand>) {
    match read {
        None => if wrote {
            (MutationState::CheckingBuffer, seq![SupervisionCommand::CheckReadBuffer])
        } else {
            (MutationState::Done, seq![SupervisionCommand::Finish(ConnectionAction::Close)])
        },
        Some(r) => (MutationState::Done, closing(Some(r))),
    }
}

fn after_write_step(read: Option<ConcurrentRead>, wrote: bool) -> (r: (MutationState, Vec<SupervisionCommand>))
    ensures
        (r.0, r.1@) == after_write(read, wrote),
{
    match read {
        None => if wrote {
            (MutationState::CheckingBuffer, vec![SupervisionCommand::CheckReadBuffer])
        } else {
            (MutationState::Done, vec![SupervisionCommand::Finish(ConnectionAction::Close)])
        },
        Some(r) => (MutationState::Done, closing_cmds(Some(r))),
    }
}

/// One step of an owned mutation's supervision.
///
/// An undecodable payload is answered and the connection reads on. When the ownership cannot
/// be taken or the worker cannot be spawned, the fence is given up and the daemon answers
/// that it is shutting down. A worker's response is written within the deadline (completing
/// the fence) or, once the deadline passed, only if the operation had already committed;
/// otherwise a timeout is answered. Drain revokes the fence: a committed operation still has
/// its response written, else the request is answered as cut short by shutdown; either way
/// the connection closes without refusing a pipelined request. Cancellation waits for the
/// response and writes it. The deadline revokes the fence: a committed operation still has
/// its response written, a revoked one is answered with a timeout. Before any concurrent
/// read, a written response lets the connection read on unless a frame is already buffered.
pub open spec fn owned_mutation_next(state: MutationState, event: MutationEvent) -> (MutationState, Seq<SupervisionCommand>) {
    match (state, event) {
        (MutationState::Decoding, MutationEvent::Decoded(ok)) => if ok {
            (MutationState::BeginningOwnership, seq![SupervisionCommand::BeginMutation])
        } else {
            (
                MutationState::Done,
                seq![SupervisionCommand::RejectUndecodable, SupervisionCommand::Finish(ConnectionAction::Continue)],
            )
        },
        (MutationState::BeginningOwnership, MutationEvent::OwnershipBegun(ok)) => if ok {
            (MutationState::Spawning, seq![SupervisionCommand::SpawnWorker])
        } else {
            (
                MutationState::Done,
                seq![
                    SupervisionCommand::DiscardFence,
                    SupervisionCommand::SendShuttingDown,
                    SupervisionCommand::Finish(ConnectionAction::Close),
                ],
            )
        },
        (MutationState::Spawning, MutationEvent::WorkerSpawned(ok)) => if ok {
            (MutationState::Racing, seq![SupervisionCommand::Race])
        } else {
            (
                MutationState::Done,
                seq![
                    SupervisionCommand::DiscardFence,
                    SupervisionCommand::SendShuttingDown,
                    SupervisionCommand::Finish(ConnectionAction::Close),
                ],
            )
        },
        (MutationState::Racing, MutationEvent::WorkerFinished(ok)) => if ok {
            (MutationState::CheckingDeadline(None), seq![SupervisionCommand::CheckDeadline])
        } else {
            (MutationState::Done, seq![SupervisionCommand::Fail])
        },
        (MutationState::Racing, MutationEvent::ConcurrentReadDone(read)) => (
            MutationState::FollowUp(read),
            seq![SupervisionCommand::RaceWithoutReading],
        ),
        (MutationState::Racing, MutationEvent::DrainStarted) => (
            MutationState::ShutdownRevoking,
            seq![SupervisionCommand::TryRevokeFence],
        ),
        (MutationState::Racing, MutationEvent::Cancelled) => (
            MutationState::AwaitingResponse(None),
            seq![SupervisionCommand::AwaitWorker],
        ),
        (MutationState::Racing, MutationEvent::DeadlinePassed) => (
            MutationState::TimeoutRevoking(None),
            seq![SupervisionCommand::TryRevokeFence],
        ),
        (MutationState::FollowUp(read), MutationEvent::WorkerFinished(ok)) => if ok {
            (MutationState::CheckingDeadline(Some(read)), seq![SupervisionCommand::CheckDeadline])
        } else {
            (MutationState::Done, seq![SupervisionCommand::Fail])
        },
        (MutationState::FollowUp(_), MutationEvent::DrainStarted) => (
            MutationState::ShutdownRevoking,
            seq![SupervisionCommand::TryRevokeFence],
        ),
        (MutationState::FollowUp(read), MutationEvent::Cancelled) => (
            MutationState::AwaitingResponse(Some(read)),
            seq![SupervisionCommand::AwaitWorker],
        ),
        (MutationState::FollowUp(read), MutationEvent::DeadlinePassed) => (
            MutationState::TimeoutRevoking(Some(read)),
            seq![SupervisionCommand::TryRevokeFence],
        ),
        (MutationState::CheckingDeadline(read), MutationEvent::BeforeDeadline(before)) => if before {
            let next = after_write(read, true);
            (next.0, seq![SupervisionCommand::CompleteFence, SupervisionCommand::WriteResponse] + next.1)
        } else {
            (MutationState::WriteRevoking(read), seq![SupervisionCommand::TryRevokeFence])
        },
        (MutationState::WriteRevoking(read), MutationEvent::Revoked(outcome)) => match outcome {
            RevokeOutcome::Finalized => {
                let next = after_write(read, true);
                (next.0, seq![SupervisionCommand::WriteResponseFresh] + next.1)
            },
            RevokeOutcome::Revoked => {
                let next = after_write(read, false);
                (next.0, seq![SupervisionCommand::SendOperationTimeout] + next.1)
            },
            RevokeOutcome::AlreadyRevoked => after_write(read, false),
        },
        (MutationState::CheckingBuffer, MutationEvent::ReadBuffer { empty }) => if empty {
            (MutationState::Done, seq![SupervisionCommand::Finish(ConnectionAction::Continue)])
        } else {
            (
                MutationState::Done,
                seq![SupervisionCommand::SendPipelinedError, SupervisionCommand::Finish(ConnectionAction::Close)],
            )
        },
        (MutationState::ShutdownRevoking, MutationEvent::Revoked(outcome)) => match outcome {
            RevokeOutcome::Finalized => (MutationState::AwaitingResponse(None), seq![SupervisionCommand::AwaitWorker]),
            _ => (
                MutationState::Done,
                seq![
                    SupervisionCommand::AbandonWorker,
                    SupervisionCommand::SendRequestShuttingDown,
                    SupervisionCommand::Finish(ConnectionAction::Close),
                ],
            ),
        },
        (MutationState::TimeoutRevoking(read), MutationEvent::Revoked(outcome)) => match outcome {
            RevokeOutcome::Finalized => (MutationState::AwaitingResponse(read), seq![SupervisionCommand::AwaitWorker]),
            RevokeOutcome::Revoked => (
                MutationState::Done,
                seq![SupervisionCommand::AbandonWorker, SupervisionCommand::SendOperationTimeout] + closing(read),
            ),
            RevokeOutcome::AlreadyRevoked => (MutationState::Done, seq![SupervisionCommand::AbandonWorker] + closing(read)),
        },
        (MutationState::AwaitingResponse(read), MutationEvent::WorkerFinished(ok)) => if ok {
            (MutationState::Done, seq![SupervisionCommand::WriteResponseFresh] + closing(read))
        } else {
            (MutationState::Done, seq![SupervisionCommand::Fail])
        },
        _ => (state, Seq::empty()),
    }
}

/// One step of an owned mutation's supervision (see `owned_mutation_next`); an event that
/// does not belong to the state changes nothing.
pub fn owned_mutation_step(state: MutationState, event: MutationEvent) -> (r: (MutationState, Vec<SupervisionCommand>))
    ensures
        (r.0, r.1@) == owned_mutation_next(state, event),
{
    match (state, event) {
        (MutationState::Decoding, MutationEvent::Decoded(ok)) => if ok {
            (MutationState::BeginningOwnership, vec![SupervisionCommand::BeginMutation])
        } else {
            (
                MutationState::Done,
                vec![SupervisionCommand::RejectUndecodable, SupervisionCommand::Finish(ConnectionAction::Continue)],
            )
        },
        (MutationState::BeginningOwnership, MutationEvent::OwnershipBegun(ok)) => if ok {
            (MutationState::Spawning, vec![SupervisionCommand::SpawnWorker])
        } else {
            (
                MutationState::Done,
                vec![
                    SupervisionCommand::DiscardFence,
                    SupervisionCommand::SendShuttingDown,
                    SupervisionCommand::Finish(ConnectionAction::Close),
                ],
            )
        },
        (MutationState::Spawning, MutationEvent::WorkerSpawned(ok)) => if ok {
            (MutationState::Racing, vec![SupervisionCommand::Race])
        } else {
            (
                MutationState::Done,
                vec![
                    SupervisionCommand::DiscardFence,
                    SupervisionCommand::SendShuttingDown,
                    SupervisionCommand::Finish(ConnectionAction::Close),
                ],
            )
        },
        (MutationState::Racing, MutationEvent::WorkerFinished(ok)) => if ok {
            (MutationState::CheckingDeadline(None), vec![SupervisionCommand::CheckDeadline])
        } else {
            (MutationState::Done, vec![SupervisionCommand::Fail])
        },
        (MutationState::Racing, MutationEvent::ConcurrentReadDone(read)) => (
            MutationState::FollowUp(read),
            vec![SupervisionCommand::RaceWithoutReading],
        ),
        (MutationState::Racing, MutationEvent::DrainStarted) => (
            MutationState::ShutdownRevoking,
            vec![SupervisionCommand::TryRevokeFence],
        ),
        (MutationState::Racing, MutationEvent::Cancelled) => (
            MutationState::AwaitingResponse(None),
            vec![SupervisionCommand::AwaitWorker],
        ),
        (MutationState::Racing, MutationEvent::DeadlinePassed) => (
            MutationState::TimeoutRevoking(None),
            vec![SupervisionCommand::TryRevokeFence],
        ),
        (MutationState::FollowUp(read), MutationEvent::WorkerFinished(ok)) => if ok {
            (MutationState::CheckingDeadline(Some(read)), vec![SupervisionCommand::CheckDeadline])
        } else {
            (MutationState::Done, vec![SupervisionCommand::Fail])
        },
        (MutationState::FollowUp(_), MutationEvent::DrainStarted) => (
            MutationState::ShutdownRevoking,
            vec![SupervisionCommand::TryRevokeFence],
        ),
        (MutationState::FollowUp(read), MutationEvent::Cancelled) => (
            MutationState::AwaitingResponse(Some(read)),
            vec![SupervisionCommand::AwaitWorker],
        ),
        (MutationState::FollowUp(read), MutationEvent::DeadlinePassed) => (
            MutationState::TimeoutRevoking(Some(read)),
            vec![SupervisionCommand::TryRevokeFence],
        ),
        (MutationState::CheckingDeadline(read), MutationEvent::BeforeDeadline(before)) => if before {
            let next = after_write_step(read, true);
            (next.0, then(vec![SupervisionCommand::CompleteFence, SupervisionCommand::WriteResponse], next.1))
        } else {
            (MutationState::WriteRevoking(read), vec![SupervisionCommand::TryRevokeFence])
        },
        (MutationState::WriteRevoking(read), MutationEvent::Revoked(outcome)) => match outcome {
            RevokeOutcome::Finalized => {
                let next = after_write_step(read, true);
                (next.0, then(vec![SupervisionCommand::WriteResponseFresh], next.1))
            },
            RevokeOutcome::Revoked => {
                let next = after_write_step(read, false);
                (next.0, then(vec![SupervisionCommand::SendOperationTimeout], next.1))
            },
            RevokeOutcome::AlreadyRevoked => after_write_step(read, false),
        },
        (MutationState::CheckingBuffer, MutationEvent::ReadBuffer { empty }) => if empty {
            (MutationState::Done, vec![SupervisionCommand::Finish(ConnectionAction::Continue)])
        } else {
            (
                MutationState::Done,
                vec![SupervisionCommand::SendPipelinedError, SupervisionCommand::Finish(ConnectionAction::Close)],
            )
        },
        (MutationState::ShutdownRevoking, MutationEvent::Revoked(outcome)) => match outcome {
            RevokeOutcome::Finalized => (MutationState::AwaitingResponse(None), vec![SupervisionCommand::AwaitWorker]),
            _ => (
                MutationState::Done,
                vec![
                    SupervisionCommand::AbandonWorker,
                    SupervisionCommand::SendRequestShuttingDown,
                    SupervisionCommand::Finish(ConnectionAction::Close),
                ],
            ),
        },
        (MutationState::TimeoutRevoking(read), MutationEvent::Revoked(outcome)) => match outcome {
            RevokeOutcome::Finalized => (MutationState::AwaitingResponse(read), vec![SupervisionCommand::AwaitWorker]),
            RevokeOutcome::Revoked => (
                MutationState::Done,
                then(vec![SupervisionCommand::AbandonWorker, SupervisionCommand::SendOperationTimeout], closing_cmds(read)),
            ),
            RevokeOutcome::AlreadyRevoked => (
                MutationState::Done,
                then(vec![SupervisionCommand::AbandonWorker], closing_cmds(read)),
            ),
        },
        (MutationState::AwaitingResponse(read), MutationEvent::WorkerFinished(ok)) => if ok {
            (MutationState::Done, then(vec![SupervisionCommand::WriteResponseFresh], closing_cmds(read)))
        } else {
            (MutationState::Done, vec![SupervisionCommand::Fail])
        },
        _ => (state, Vec::new()),
    }
}

/// The operations a daemon connection serves.
#[derive(Debug, Clone, Copy, PartialEq, Eq, Structural)]
pub enum Operation {
    RegisterEntrypoint,
    UnregisterEntrypoint,
    HeartbeatEntrypoint,
    QueryState,
    SetEntrypointEnabled,
    SetDomainEnabled,
    QueryLogs,
    ShutdownDaemon,
}

/// Whether an operation changes the daemon's state: everything but the two queries.
pub open spec fn is_mutation(op: Operation) -> bool {
    !(op == Operation::QueryState || op == Operation::QueryLogs)
}

/// The owned-mutation worker's kind of an operation, if the worker carries it out.
pub open spec fn owned_kind(op: Operation) -> Option<OwnedMutationKind> {
    match op {
        Operation::RegisterEntrypoint => Some(OwnedMutationKind::Register),
        Operation::UnregisterEntrypoint => Some(OwnedMutationKind::Unregister),
        Operation::HeartbeatEntrypoint => Some(OwnedMutationKind::Heartbeat),
        Operation::SetEntrypointEnabled => Some(OwnedMutationKind::SetEntrypointEnabled),
        Operation::SetDomainEnabled => Some(OwnedMutationKind::SetDomainEnabled),
        _ => None,
    }
}

/// The owned-mutation worker's kind of an operation, if the worker carries it out.
pub fn owned_mutation_kind(op: Operation) -> (r: Option<OwnedMutationKind>)
    ensures
        r == owned_kind(op),
{
    match op {
        Operation::RegisterEntrypoint => Some(OwnedMutationKind::Register),
        Operation::UnregisterEntrypoint => Some(OwnedMutationKind::Unregister),
        Operation::HeartbeatEntrypoint => Some(OwnedMutationKind::Heartbeat),
        Operation::SetEntrypointEnabled => Some(OwnedMutationKind::SetEntrypointEnabled),
        Operation::SetDomainEnabled => Some(OwnedMutationKind::SetDomainEnabled),
        _ => None,
    }
}

/// How a unary request's supervision starts for an operation: fenced when it is a mutation
/// other than shutdown, and handed to the owned-mutation worker when the worker carries it.
pub fn unary_start(op: Operation) -> (r: UnaryState)
    ensures
        r == (UnaryState::Start {
            fenced: uses_fence(is_mutation(op), op == Operation::ShutdownDaemon),
            owned: owned_kind(op) is Some,
        }),
{
    let mutation = !(op == Operation::QueryState || op == Operation::QueryLogs);
    UnaryState::Start {
        fenced: operation_uses_fence(mutation, op == Operation::ShutdownDaemon),
        owned: owned_mutation_kind(op).is_some(),
    }
}

/// A step of dispatching an authorized request.
#[derive(Debug, Clone, Copy, PartialEq, Eq, Structural)]
pub enum DispatchStep {
    /// Decode the payload; an undecodable one is answered with a rejection and the
    /// connection reads on.
    Decode,
    /// Take the operation fence, which a fenced operation must have.
    RequireFence,
    Register,
    /// Record that this connection owns the registration, when it was accepted.
    RecordOwnershipIfAccepted,
    Unregister,
    /// Forget this connection's ownership of the registration, when it was accepted.
    ForgetOwnershipIfAccepted,
    Heartbeat,
    QueryState,
    SetEntrypointEnabled,
    SetDomainEnabled,
    QueryLogs,
    /// Record when shutdown started and request it.
    StartShutdown,
    /// Write the response, carrying the request's identifier, within the deadline.
    WriteResponse,
    /// Write the accepted shutdown answer within the earlier of the deadline and the
    /// shutdown's accept budget.
    WriteShutdownResponse,
}

/// How an authorized request is dispatched: its steps, and what the connection does after.
pub open spec fn dispatch_plan_spec(op: Operation) -> (Seq<DispatchStep>, ConnectionAction) {
    match op {
        Operation::RegisterEntrypoint => (
            seq![
                DispatchStep::Decode,
                DispatchStep::RequireFence,
                DispatchStep::Register,
                DispatchStep::RecordOwnershipIfAccepted,
                DispatchStep::WriteResponse,
            ],
            ConnectionAction::Continue,
        ),
        Operation::UnregisterEntrypoint => (
            seq![
                DispatchStep::Decode,
                DispatchStep::RequireFence,
                DispatchStep::Unregister,
                DispatchStep::ForgetOwnershipIfAccepted,
                DispatchStep::WriteResponse,
            ],
            ConnectionAction::Continue,
        ),
        Operation::HeartbeatEntrypoint => (
            seq![DispatchStep::Decode, DispatchStep::RequireFence, DispatchStep::Heartbeat, DispatchStep::WriteResponse],
            ConnectionAction::Continue,
        ),
        Operation::QueryState => (
            seq![DispatchStep::Decode, DispatchStep::QueryState, DispatchStep::WriteResponse],
            ConnectionAction::Continue,
        ),
        Operation::SetEntrypointEnabled => (
            seq![
                DispatchStep::Decode,
                DispatchStep::RequireFence,
                DispatchStep::SetEntrypointEnabled,
                DispatchStep::WriteResponse,
            ],
            ConnectionAction::Continue,
        ),
        Operation::SetDomainEnabled => (
            seq![
                DispatchStep::Decode,
                DispatchStep::RequireFence,
                DispatchStep::SetDomainEnabled,
                DispatchStep::WriteResponse,
            ],
            ConnectionAction::Continue,
        ),
        Operation::QueryLogs => (
            seq![DispatchStep::Decode, DispatchStep::QueryLogs, DispatchStep::WriteResponse],
            ConnectionAction::Continue,
        ),
        Operation::ShutdownDaemon => (
            seq![DispatchStep::Decode, DispatchStep::StartShutdown, DispatchStep::WriteShutdownResponse],
            ConnectionAction::Close,
        ),
    }
}

/// How an authorized request is dispatched (see `dispatch_plan_spec`).
pub fn dispatch_plan(op: Operation) -> (r: (Vec<DispatchStep>, ConnectionAction))
    ensures
        (r.0@, r.1) == dispatch_plan_spec(op),
{
    match op {
        Operation::RegisterEntrypoint => (
            vec![
                DispatchStep::Decode,
                DispatchStep::RequireFence,
                DispatchStep::Register,
                DispatchStep::RecordOwnershipIfAccepted,
                DispatchStep::WriteResponse,
            ],
            ConnectionAction::Continue,
        ),
        Operation::UnregisterEntrypoint => (
            vec![
                DispatchStep::Decode,
                DispatchStep::RequireFence,
                DispatchStep::Unregister,
                DispatchStep::ForgetOwnershipIfAccepted,
                DispatchStep::WriteResponse,
            ],
            ConnectionAction::Continue,
        ),
        Operation::HeartbeatEntrypoint => (
            vec![DispatchStep::Decode, DispatchStep::RequireFence, DispatchStep::Heartbeat, DispatchStep::WriteResponse],
            ConnectionAction::Continue,
        ),
        Operation::QueryState => (
            vec![DispatchStep::Decode, DispatchStep::QueryState, DispatchStep::WriteResponse],
            ConnectionAction::Continue,
        ),
        Operation::SetEntrypointEnabled => (
            vec![
                DispatchStep::Decode,
                DispatchStep::RequireFence,
                DispatchStep::SetEntrypointEnabled,
                DispatchStep::WriteResponse,
            ],
            ConnectionAction::Continue,
        ),
        Operation::SetDomainEnabled => (
            vec![
                DispatchStep::Decode,
                DispatchStep::RequireFence,
                DispatchStep::SetDomainEnabled,
                DispatchStep::WriteResponse,
            ],
            ConnectionAction::Continue,
        ),
        Operation::QueryLogs => (
            vec![DispatchStep::Decode, DispatchStep::QueryLogs, DispatchStep::WriteResponse],
            ConnectionAction::Continue,
        ),
        Operation::ShutdownDaemon => (
            vec![DispatchStep::Decode, DispatchStep::StartShutdown, DispatchStep::WriteShutdownResponse],
            ConnectionAction::Close,
        ),
    }
}

/// The deadline of the shutdown answer: the earlier of the request's deadline and the
/// shutdown's start plus its accept budget.
pub fn shutdown_response_deadline(deadline: u64, started_at: u64, accept_budget: u64) -> (r: u64)
    requires
        started_at + accept_budget <= u64::MAX,
    ensures
        r == if deadline <= started_at + accept_budget { deadline as int } else { started_at + accept_budget },
{
    let bound = started_at + accept_budget;
    if deadline <= bound {
        deadline
    } else {
        bound
    }
}

/// The message of the accepted shutdown answer.
pub fn shutdown_started_message() -> (r: &'static str)
    ensures
        r@ == "Daemon shutdown started."@,
{
    "Daemon shutdown started."
}

/// An operation runs under a fence exactly when the owned-mutation worker carries it out.
pub proof fn lemma_worker_operations_are_fenced(op: Operation)
    ensures
        owned_kind(op) is Some <==> uses_fence(is_mutation(op), op == Operation::ShutdownDaemon),
{
}

/// Whether some command satisfies `p`.
pub open spec fn has_command(cmds: Seq<SupervisionCommand>, p: spec_fn(SupervisionCommand) -> bool) -> bool {
    exists|i: int| 0 <= i < cmds.len() && #[trigger] p(cmds[i])
}

/// Whether at most one command satisfies `p`.
pub open spec fn at_most_one(cmds: Seq<SupervisionCommand>, p: spec_fn(SupervisionCommand) -> bool) -> bool {
    forall|i: int, j: int| 0 <= i < j < cmds.len() && #[trigger] p(cmds[i]) ==> !#[trigger] p(cmds[j])
}

/// An answer to the supervised request itself (a refused pipelined request is another
/// request's answer).
pub open spec fn is_answer(c: SupervisionCommand) -> bool {
    c == SupervisionCommand::RejectUndecodable || c == SupervisionCommand::WriteResponse || c
        == SupervisionCommand::WriteResponseFresh || c == SupervisionCommand::SendOperationTimeout || c
        == SupervisionCommand::SendRequestShuttingDown || c == SupervisionCommand::SendShuttingDown
}

/// A command that settles the operation fence: completing or revoking it.
pub open spec fn settles_fence(c: SupervisionCommand) -> bool {
    c == SupervisionCommand::CompleteFence || c == SupervisionCommand::RevokeFence
}

proof fn lemma_at_most_one_concat(a: Seq<SupervisionCommand>, b: Seq<SupervisionCommand>, p: spec_fn(SupervisionCommand) -> bool)
    requires
        at_most_one(a, p),
        at_most_one(b, p),
        has_command(a, p) ==> !has_command(b, p),
    ensures
        at_most_one(a + b, p),
        has_command(a + b, p) == (has_command(a, p) || has_command(b, p)),
{
    let c = a + b;
    assert forall|i: int, j: int| 0 <= i < j < c.len() && #[trigger] p(c[i]) implies !#[trigger] p(c[j]) by {
        if j < a.len() {
            assert(c[i] == a[i] && c[j] == a[j]);
        } else if i >= a.len() {
            assert(c[i] == b[i - a.len()] && c[j] == b[j - a.len()]);
        } else {
            assert(c[i] == a[i]);
            assert(c[j] == b[j - a.len()]);
            if p(c[j]) {
                assert(has_command(b, p));
            }
        }
    }
    if has_command(c, p) {
        let i = choose|i: int| 0 <= i < c.len() && #[trigger] p(c[i]);
        if i < a.len() {
            assert(c[i] == a[i]);
        } else {
            assert(c[i] == b[i - a.len()]);
        }
    }
    if has_command(a, p) {
        let i = choose|i: int| 0 <= i < a.len() && #[trigger] p(a[i]);
        assert(c[i] == a[i]);
    }
    if has_command(b, p) {
        let i = choose|i: int| 0 <= i < b.len() && #[trigger] p(b[i]);
        assert(c[a.len() + i] == b[i]);
    }
}

/// The state and all commands after a series of events of an owned mutation.
pub open spec fn owned_run(state: MutationState, events: Seq<MutationEvent>) -> (MutationState, Seq<SupervisionCommand>)
    decreases events.len(),
{
    if events.len() == 0 {
        (state, Seq::empty())
    } else {
        let before = owned_run(state, events.drop_last());
        let step = owned_mutation_next(before.0, events.last());
        (step.0, before.1 + step.1)
    }
}

/// The states of an owned mutation in which its request has been answered, if at all.
pub open spec fn owned_settled(s: MutationState) -> bool {
    s == MutationState::Done || s == MutationState::CheckingBuffer
}

proof fn lemma_owned_step_answers(s: MutationState, e: MutationEvent)
    ensures
        at_most_one(owned_mutation_next(s, e).1, |c: SupervisionCommand| is_answer(c)),
        has_command(owned_mutation_next(s, e).1, |c: SupervisionCommand| is_answer(c)) ==> owned_settled(
            owned_mutation_next(s, e).0,
        ),
        owned_settled(s) ==> !has_command(owned_mutation_next(s, e).1, |c: SupervisionCommand| is_answer(c))
            && owned_settled(owned_mutation_next(s, e).0),
{
    let p = |c: SupervisionCommand| is_answer(c);
    let r = owned_mutation_next(s, e);
    assert forall|i: int, j: int| 0 <= i < j < r.1.len() && #[trigger] p(r.1[i]) implies !#[trigger] p(r.1[j]) by {}
    if has_command(r.1, p) {
        let i = choose|i: int| 0 <= i < r.1.len() && #[trigger] p(r.1[i]);
    }
}

/// An owned mutation's request is answered at most once, whatever happens: a rejection, its
/// response, a timeout or a shutting-down answer, never two of them.
pub proof fn lemma_owned_request_answered_at_most_once(events: Seq<MutationEvent>)
    ensures
        at_most_one(owned_run(MutationState::Decoding, events).1, |c: SupervisionCommand| is_answer(c)),
{
    lemma_owned_run_answers(MutationState::Decoding, events);
}

proof fn lemma_owned_run_answers(start: MutationState, events: Seq<MutationEvent>)
    requires
        !owned_settled(start),
    ensures
        at_most_one(owned_run(start, events).1, |c: SupervisionCommand| is_answer(c)),
        has_command(owned_run(start, events).1, |c: SupervisionCommand| is_answer(c)) ==> owned_settled(
            owned_run(start, events).0,
        ),
    decreases events.len(),
{
    let p = |c: SupervisionCommand| is_answer(c);
    if events.len() > 0 {
        lemma_owned_run_answers(start, events.drop_last());
        let before = owned_run(start, events.drop_last());
        lemma_owned_step_answers(before.0, events.last());
        let step = owned_mutation_next(before.0, events.last());
        lemma_at_most_one_concat(before.1, step.1, p);
    }
}

/// The state and all commands after a series of events of a unary request.
pub open spec fn unary_run(state: UnaryState, events: Seq<UnaryEvent>) -> (UnaryState, Seq<SupervisionCommand>)
    decreases events.len(),
{
    if events.len() == 0 {
        (state, Seq::empty())
    } else {
        let before = unary_run(state, events.drop_last());
        let step = unary_next(before.0, events.last());
        (step.0, before.1 + step.1)
    }
}

/// The states of a unary request in which its fence, if any, has been settled.
pub open spec fn unary_settled(s: UnaryState) -> bool {
    s == UnaryState::Done || s is CheckingBuffer || s == UnaryState::Delegated
}

proof fn lemma_unary_step_fence(s: UnaryState, e: UnaryEvent)
    ensures
        at_most_one(unary_next(s, e).1, |c: SupervisionCommand| settles_fence(c)),
        has_command(unary_next(s, e).1, |c: SupervisionCommand| settles_fence(c)) ==> unary_settled(unary_next(s, e).0),
        unary_settled(s) ==> !has_command(unary_next(s, e).1, |c: SupervisionCommand| settles_fence(c))
            && unary_settled(unary_next(s, e).0),
{
    let p = |c: SupervisionCommand| settles_fence(c);
    let r = unary_next(s, e);
    assert forall|i: int, j: int| 0 <= i < j < r.1.len() && #[trigger] p(r.1[i]) implies !#[trigger] p(r.1[j]) by {}
    if has_command(r.1, p) {
        let i = choose|i: int| 0 <= i < r.1.len() && #[trigger] p(r.1[i]);
    }
}

proof fn lemma_unary_run_fence(start: UnaryState, events: Seq<UnaryEvent>)
    requires
        !unary_settled(start),
    ensures
        at_most_one(unary_run(start, events).1, |c: SupervisionCommand| settles_fence(c)),
        has_command(unary_run(start, events).1, |c: SupervisionCommand| settles_fence(c)) ==> unary_settled(
            unary_run(start, events).0,
        ),
    decreases events.len(),
{
    let p = |c: SupervisionCommand| settles_fence(c);
    if events.len() > 0 {
        lemma_unary_run_fence(start, events.drop_last());
        let before = unary_run(start, events.drop_last());
        lemma_unary_step_fence(before.0, events.last());
        let step = unary_next(before.0, events.last());
        lemma_at_most_one_concat(before.1, step.1, p);
    }
}

/// A unary request's fence is settled at most once, whatever happens: it is completed or
/// revoked, never both and never twice.
pub proof fn lemma_unary_fence_settled_at_most_once(fenced: bool, owned: bool, events: Seq<UnaryEvent>)
    ensures
        at_most_one(unary_run(UnaryState::Start { fenced, owned }, events).1, |c: SupervisionCommand| settles_fence(c)),
{
    lemma_unary_run_fence(UnaryState::Start { fenced, owned }, events);
}

} // verus!
