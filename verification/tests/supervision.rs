use cadder::connection_loop::{
    connection_step, Authorization, ConnectionCommand, ConnectionEvent, ConnectionLoopState, FirstByte, FrameRead,
};
use cadder::handshake::{handshake_failure, handshake_verdict, HandshakeIoFailure, ServerHandshakeFrame};
use cadder::ipc_errors::{IpcClientError, IpcClientPhase, LocalIpcErrorCode, ProtocolError, ProtocolErrorKind};
use cadder::server_loop::{
    graceful_drain_deadline, server_step, DrainOutcome, ServerCommand, ServerEvent, ServerOutcome, ServerState, SignalChange,
};
use cadder::supervision::{
    dispatch_plan, owned_mutation_step, shutdown_response_deadline, unary_start, unary_supervision_step, ConcurrentRead,
    ConnectionAction, DispatchStep, FenceIssue, MutationEvent, MutationState, Operation, RevokeOutcome,
    SupervisionCommand as C, UnaryEvent, UnaryState,
};

fn run_unary(start: UnaryState, events: &[UnaryEvent]) -> (UnaryState, Vec<C>) {
    let mut state = start;
    let mut all = Vec::new();
    for event in events {
        let (next, commands) = unary_supervision_step(state, *event);
        state = next;
        all.extend(commands);
    }
    (state, all)
}

fn run_owned(events: &[MutationEvent]) -> (MutationState, Vec<C>) {
    let mut state = MutationState::Decoding;
    let mut all = Vec::new();
    for event in events {
        let (next, commands) = owned_mutation_step(state, *event);
        state = next;
        all.extend(commands);
    }
    (state, all)
}

#[test]
fn query_runs_unfenced_and_keeps_the_connection() {
    let start = unary_start(Operation::QueryState);
    assert_eq!(start, UnaryState::Start { fenced: false, owned: false });
    let (state, commands) = run_unary(
        start,
        &[UnaryEvent::Begin, UnaryEvent::HandlerFinished(Some(ConnectionAction::Continue)), UnaryEvent::ReadBuffer { empty: true }],
    );
    assert_eq!(state, UnaryState::Done);
    assert_eq!(commands, vec![C::StartHandler, C::Race, C::CheckReadBuffer, C::Finish(ConnectionAction::Continue)]);
}

#[test]
fn buffered_frame_after_a_handler_is_refused_and_closes() {
    let (_, commands) = run_unary(
        UnaryState::Start { fenced: true, owned: false },
        &[
            UnaryEvent::Begin,
            UnaryEvent::FenceIssued(FenceIssue::Issued),
            UnaryEvent::HandlerFinished(Some(ConnectionAction::Continue)),
            UnaryEvent::ReadBuffer { empty: false },
        ],
    );
    assert_eq!(
        commands,
        vec![
            C::IssueFence,
            C::StartHandler,
            C::Race,
            C::CompleteFence,
            C::CheckReadBuffer,
            C::SendPipelinedError,
            C::Finish(ConnectionAction::Close)
        ]
    );
}

#[test]
fn draining_fence_refuses_the_request() {
    let (_, commands) =
        run_unary(UnaryState::Start { fenced: true, owned: false }, &[UnaryEvent::Begin, UnaryEvent::FenceIssued(FenceIssue::Draining)]);
    assert_eq!(commands, vec![C::IssueFence, C::SendShuttingDown, C::Finish(ConnectionAction::Close)]);
    let (_, failed) =
        run_unary(UnaryState::Start { fenced: true, owned: false }, &[UnaryEvent::Begin, UnaryEvent::FenceIssued(FenceIssue::Failed)]);
    assert_eq!(failed, vec![C::IssueFence, C::Fail]);
}

#[test]
fn unary_deadline_and_pipelined_request() {
    let (_, timeout) = run_unary(
        UnaryState::Start { fenced: true, owned: false },
        &[UnaryEvent::Begin, UnaryEvent::FenceIssued(FenceIssue::Issued), UnaryEvent::DeadlinePassed],
    );
    assert_eq!(&timeout[3..], &[C::RevokeFence, C::SendOperationTimeout, C::Finish(ConnectionAction::Close)]);

    let (_, pipelined) = run_unary(
        UnaryState::Start { fenced: false, owned: false },
        &[
            UnaryEvent::Begin,
            UnaryEvent::ConcurrentReadDone(ConcurrentRead::Pipelined),
            UnaryEvent::HandlerFinished(Some(ConnectionAction::Continue)),
        ],
    );
    assert_eq!(
        pipelined,
        vec![C::StartHandler, C::Race, C::RaceWithoutReading, C::SendPipelinedErrorForRead, C::Finish(ConnectionAction::Close)]
    );

    let (_, cancelled) = run_unary(
        UnaryState::Start { fenced: true, owned: false },
        &[UnaryEvent::Begin, UnaryEvent::FenceIssued(FenceIssue::Issued), UnaryEvent::Cancelled],
    );
    assert_eq!(&cancelled[3..], &[C::RevokeFence, C::Finish(ConnectionAction::Close)]);
}

#[test]
fn owned_mutations_go_to_the_worker() {
    let start = unary_start(Operation::RegisterEntrypoint);
    assert_eq!(start, UnaryState::Start { fenced: true, owned: true });
    assert_eq!(unary_start(Operation::ShutdownDaemon), UnaryState::Start { fenced: false, owned: false });
    let (state, commands) = run_unary(start, &[UnaryEvent::Begin, UnaryEvent::FenceIssued(FenceIssue::Issued)]);
    assert_eq!(state, UnaryState::Delegated);
    assert_eq!(commands, vec![C::IssueFence, C::SuperviseOwnedMutation]);
}

#[test]
fn owned_mutation_success_and_decode_rejection() {
    let (state, commands) = run_owned(&[
        MutationEvent::Decoded(true),
        MutationEvent::OwnershipBegun(true),
        MutationEvent::WorkerSpawned(true),
        MutationEvent::WorkerFinished(true),
        MutationEvent::BeforeDeadline(true),
        MutationEvent::ReadBuffer { empty: true },
    ]);
    assert_eq!(state, MutationState::Done);
    assert_eq!(
        commands,
        vec![
            C::BeginMutation,
            C::SpawnWorker,
            C::Race,
            C::CheckDeadline,
            C::CompleteFence,
            C::WriteResponse,
            C::CheckReadBuffer,
            C::Finish(ConnectionAction::Continue)
        ]
    );
    let (_, rejected) = run_owned(&[MutationEvent::Decoded(false)]);
    assert_eq!(rejected, vec![C::RejectUndecodable, C::Finish(ConnectionAction::Continue)]);
    let (_, no_owner) = run_owned(&[MutationEvent::Decoded(true), MutationEvent::OwnershipBegun(false)]);
    assert_eq!(&no_owner[1..], &[C::DiscardFence, C::SendShuttingDown, C::Finish(ConnectionAction::Close)]);
}

#[test]
fn late_worker_response_is_written_only_when_committed() {
    let prefix = [
        MutationEvent::Decoded(true),
        MutationEvent::OwnershipBegun(true),
        MutationEvent::WorkerSpawned(true),
        MutationEvent::WorkerFinished(true),
        MutationEvent::BeforeDeadline(false),
    ];
    let mut revoked = prefix.to_vec();
    revoked.push(MutationEvent::Revoked(RevokeOutcome::Revoked));
    let (_, commands) = run_owned(&revoked);
    assert_eq!(&commands[4..], &[C::TryRevokeFence, C::SendOperationTimeout, C::Finish(ConnectionAction::Close)]);

    let mut finalized = prefix.to_vec();
    finalized.push(MutationEvent::Revoked(RevokeOutcome::Finalized));
    finalized.push(MutationEvent::ReadBuffer { empty: true });
    let (_, commands) = run_owned(&finalized);
    assert_eq!(&commands[4..], &[C::TryRevokeFence, C::WriteResponseFresh, C::CheckReadBuffer, C::Finish(ConnectionAction::Continue)]);
}

#[test]
fn owned_mutation_shutdown_timeout_and_cancellation() {
    let base = [MutationEvent::Decoded(true), MutationEvent::OwnershipBegun(true), MutationEvent::WorkerSpawned(true)];
    let mut drain = base.to_vec();
    drain.extend([MutationEvent::DrainStarted, MutationEvent::Revoked(RevokeOutcome::Revoked)]);
    let (_, commands) = run_owned(&drain);
    assert_eq!(
        &commands[3..],
        &[C::TryRevokeFence, C::AbandonWorker, C::SendRequestShuttingDown, C::Finish(ConnectionAction::Close)]
    );

    let mut committed = base.to_vec();
    committed.extend([
        MutationEvent::ConcurrentReadDone(ConcurrentRead::Pipelined),
        MutationEvent::DeadlinePassed,
        MutationEvent::Revoked(RevokeOutcome::Finalized),
        MutationEvent::WorkerFinished(true),
    ]);
    let (_, commands) = run_owned(&committed);
    assert_eq!(
        &commands[3..],
        &[
            C::RaceWithoutReading,
            C::TryRevokeFence,
            C::AwaitWorker,
            C::WriteResponseFresh,
            C::SendPipelinedErrorForRead,
            C::Finish(ConnectionAction::Close)
        ]
    );

    let mut cancelled = base.to_vec();
    cancelled.extend([MutationEvent::Cancelled, MutationEvent::WorkerFinished(false)]);
    let (_, commands) = run_owned(&cancelled);
    assert_eq!(&commands[3..], &[C::AwaitWorker, C::Fail]);
}

#[test]
fn dispatch_plans_follow_the_operation() {
    let (steps, after) = dispatch_plan(Operation::RegisterEntrypoint);
    assert_eq!(
        steps,
        vec![
            DispatchStep::Decode,
            DispatchStep::RequireFence,
            DispatchStep::Register,
            DispatchStep::RecordOwnershipIfAccepted,
            DispatchStep::WriteResponse
        ]
    );
    assert_eq!(after, ConnectionAction::Continue);
    let (steps, after) = dispatch_plan(Operation::ShutdownDaemon);
    assert_eq!(steps, vec![DispatchStep::Decode, DispatchStep::StartShutdown, DispatchStep::WriteShutdownResponse]);
    assert_eq!(after, ConnectionAction::Close);
    assert_eq!(dispatch_plan(Operation::QueryLogs).0, vec![DispatchStep::Decode, DispatchStep::QueryLogs, DispatchStep::WriteResponse]);
    assert_eq!(shutdown_response_deadline(100, 10, 30), 40);
    assert_eq!(shutdown_response_deadline(20, 10, 30), 20);
}

#[test]
fn connection_serves_requests_until_close() {
    let events = [
        ConnectionEvent::FirstByteRead(FirstByte::Read),
        ConnectionEvent::HelloRead(FrameRead::Line),
        ConnectionEvent::Hello { decoded: true, same_runtime: true, same_version: true },
        ConnectionEvent::RequestRead(FrameRead::Line),
        ConnectionEvent::Envelope { decoded: true, draining: false },
        ConnectionEvent::Authorized(Authorization::Authorized(Operation::QueryState)),
        ConnectionEvent::Supervised(Some(ConnectionAction::Continue)),
        ConnectionEvent::RequestRead(FrameRead::Line),
        ConnectionEvent::Envelope { decoded: true, draining: true },
    ];
    let mut state = ConnectionLoopState::AwaitingFirstByte;
    let mut all = Vec::new();
    for event in events {
        let (next, commands) = connection_step(state, event);
        state = next;
        all.extend(commands);
    }
    assert_eq!(state, ConnectionLoopState::Stopped);
    assert_eq!(
        all,
        vec![
            ConnectionCommand::ReadHello,
            ConnectionCommand::DecodeHello,
            ConnectionCommand::AcceptHandshake,
            ConnectionCommand::ReadRequest,
            ConnectionCommand::DecodeEnvelope,
            ConnectionCommand::Authorize,
            ConnectionCommand::Supervise(UnaryState::Start { fenced: false, owned: false }),
            ConnectionCommand::ReadRequest,
            ConnectionCommand::DecodeEnvelope,
            ConnectionCommand::SendShuttingDown,
            ConnectionCommand::Stop,
        ]
    );
    let (state, commands) = connection_step(
        ConnectionLoopState::DecodingHello,
        ConnectionEvent::Hello { decoded: true, same_runtime: false, same_version: true },
    );
    assert_eq!(state, ConnectionLoopState::Stopped);
    assert_eq!(commands, vec![ConnectionCommand::RejectStaleRuntime, ConnectionCommand::Stop]);
    let (_, commands) = connection_step(ConnectionLoopState::Reading, ConnectionEvent::RequestRead(FrameRead::Invalid));
    assert_eq!(commands, vec![ConnectionCommand::RejectInvalidFrame, ConnectionCommand::Fail]);
}

#[test]
fn server_shutdown_reports_the_first_failure_in_order() {
    let events = [
        ServerEvent::LeaseClaimed(true),
        ServerEvent::ConnectionAccepted { permit: false },
        ServerEvent::AcceptFailed { interrupted: false },
        ServerEvent::Drained(DrainOutcome::TimedOut),
        ServerEvent::Drained(DrainOutcome::TimedOut),
        ServerEvent::RuntimeShutDown { quiescent: false, accepted: true },
        ServerEvent::ForceStopped(true),
        ServerEvent::StorageShutDown(true),
    ];
    let mut state = ServerState::Claiming;
    let mut all = Vec::new();
    for event in events {
        let (next, commands) = server_step(state, event);
        state = next;
        all.extend(commands);
    }
    assert_eq!(state, ServerState::Ended(ServerOutcome::HandlersFailed));
    assert_eq!(
        all,
        vec![
            ServerCommand::Serve,
            ServerCommand::DropConnection,
            ServerCommand::Serve,
            ServerCommand::BeginDrain,
            ServerCommand::ForceDrain,
            ServerCommand::LogMutationTimeout,
            ServerCommand::ShutDownRuntime,
            ServerCommand::ForceStopRuntime,
            ServerCommand::ShutDownStorage,
            ServerCommand::End(ServerOutcome::HandlersFailed),
        ]
    );
    let (state, _) = server_step(ServerState::Claiming, ServerEvent::LeaseClaimed(false));
    assert_eq!(state, ServerState::Ended(ServerOutcome::EndpointOwned));
    let (state, _) = server_step(ServerState::Serving, ServerEvent::SignalChanged(SignalChange::Unset));
    assert_eq!(state, ServerState::Serving);
    let (state, _) = server_step(
        ServerState::StorageShutdown { accept_failed: true, handlers_failed: false, accepted: false },
        ServerEvent::StorageShutDown(false),
    );
    assert_eq!(state, ServerState::Ended(ServerOutcome::RuntimeRejected));
    assert_eq!(graceful_drain_deadline(100, 10, 8), 96);
    assert_eq!(graceful_drain_deadline(100, 3, 8), 97);
}

fn local_parts(error: &IpcClientError) -> (IpcClientPhase, LocalIpcErrorCode, String, bool) {
    match error {
        IpcClientError::Local(e) => (e.phase, e.code, e.message.clone(), e.retryable),
        IpcClientError::Daemon(_) => panic!("expected a local error"),
    }
}

#[test]
fn handshake_failures_name_their_phase() {
    let error = handshake_failure(HandshakeIoFailure::Closed, "hello-1", "client_hello");
    let (phase, code, message, retryable) = local_parts(&error);
    assert_eq!(phase, IpcClientPhase::ResponseRead);
    assert_eq!(code, LocalIpcErrorCode::UnexpectedEof);
    assert!(message.contains("no operation was sent"));
    assert!(retryable);
    assert_eq!(error.request_id(), Some("hello-1"));
    assert_eq!(error.operation(), Some("client_hello"));
    let (phase, code, _, retryable) = local_parts(&handshake_failure(HandshakeIoFailure::Decode, "hello-1", "client_hello"));
    assert_eq!((phase, code, retryable), (IpcClientPhase::ResponseDecode, LocalIpcErrorCode::Frame, false));
}

#[test]
fn handshake_verdict_checks_request_runtime_and_version() {
    let accepted = |request: &str, runtime: &str, version: u32| ServerHandshakeFrame::Accepted {
        request_id: request.to_string(),
        runtime_id: runtime.to_string(),
        protocol_version: version,
    };
    assert_eq!(handshake_verdict(accepted("r1", "rt", 3), "r1", "rt", 3, "hello").ok(), Some(3));
    let (_, code, message, _) = local_parts(&handshake_verdict(accepted("r2", "rt", 3), "r1", "rt", 3, "hello").unwrap_err());
    assert_eq!(code, LocalIpcErrorCode::ProtocolViolation);
    assert_eq!(message, "The daemon handshake response used a different request ID.");
    let (_, code, _, retryable) = local_parts(&handshake_verdict(accepted("r1", "other", 3), "r1", "rt", 3, "hello").unwrap_err());
    assert_eq!((code, retryable), (LocalIpcErrorCode::StaleInstance, true));
    let (_, code, _, _) = local_parts(&handshake_verdict(accepted("r1", "rt", 2), "r1", "rt", 3, "hello").unwrap_err());
    assert_eq!(code, LocalIpcErrorCode::ProtocolViolation);

    let rejection = ProtocolError {
        kind: ProtocolErrorKind::IncompatibleProtocolVersion,
        code: "incompatible_protocol_version".to_string(),
        message: "protocol mismatch".to_string(),
        guidance: None,
        retryable: false,
        request_id: Some("r1".to_string()),
        denied_operation: None,
    };
    let error = handshake_verdict(
        ServerHandshakeFrame::Rejected { error: rejection.clone(), runtime_id: "rt".to_string() },
        "r1",
        "rt",
        3,
        "hello",
    )
    .unwrap_err();
    assert_eq!(error.code(), "incompatible_protocol_version");
    let mut other = rejection;
    other.request_id = Some("r9".to_string());
    let (_, code, message, _) = local_parts(
        &handshake_verdict(ServerHandshakeFrame::Rejected { error: other, runtime_id: "rt".to_string() }, "r1", "rt", 3, "hello")
            .unwrap_err(),
    );
    assert_eq!(code, LocalIpcErrorCode::ProtocolViolation);
    assert_eq!(message, "The daemon handshake rejection used a different request ID.");
}
