use cadder::discovery::{
    discovery_read_error, is_stale_temporary, random_id_from_bytes, temporary_file_name, temporary_generation,
    validate_random_id, IpcEndpoint, IpcEndpointMetadata, IpcEndpointPublication, RuntimeIdentity, CleanupDecision, DocumentRead,
    IPC_DISCOVERY_SCHEMA_VERSION,
};
use cadder::ipc_errors::{IoErrorClass, LocalIpcErrorCode};

#[test]
fn discovery_publication_temporary_name_requires_exact_generation() {
    assert_eq!(
        temporary_generation(".cadder-ipc.00112233445566778899aabbccddeeff.tmp").as_deref(),
        Some("00112233445566778899aabbccddeeff")
    );
    assert_eq!(temporary_generation(".cadder-ipc.not-random.tmp"), None);
    assert_eq!(temporary_generation("cadder-ipc.00112233445566778899aabbccddeeff.tmp"), None);
}

#[test]
fn temporary_names_round_trip_through_their_generation() {
    let generation = random_id_from_bytes(&[0xab; 16]);
    assert_eq!(generation, "abababababababababababababababab");
    let name = temporary_file_name(&generation);
    assert_eq!(name, ".cadder-ipc.abababababababababababababababab.tmp");
    assert_eq!(temporary_generation(&name), Some(generation.clone()));
    assert!(validate_random_id("generation", &generation).is_ok());
    assert!(validate_random_id("generation", "ABABABABABABABABABABABABABABABAB").is_err());
}

fn runtime(key: &str) -> RuntimeIdentity {
    RuntimeIdentity {
        profile: "default".to_string(),
        instance_key: key.to_string(),
        endpoint: IpcEndpoint::UnixSocket { path: format!("/run/{key}/cadder.sock") },
    }
}

fn metadata(runtime: &RuntimeIdentity, generation_byte: u8) -> IpcEndpointMetadata {
    IpcEndpointMetadata {
        schema_version: IPC_DISCOVERY_SCHEMA_VERSION,
        cadder_version: "0.1.0".to_string(),
        profile: runtime.profile.clone(),
        runtime_id: runtime.instance_key.clone(),
        daemon_instance_id: random_id_from_bytes(&[0x11; 16]),
        endpoint: runtime.endpoint.clone(),
        minimum_protocol_version: 1,
        maximum_protocol_version: 1,
        capabilities: Vec::new(),
        publication_generation: random_id_from_bytes(&[generation_byte; 16]),
        process_id: 42,
        published_at_utc: "2026-06-17T11:30:00Z".to_string(),
    }
}

#[test]
fn discovery_publication_roundtrips_complete_versioned_metadata() {
    let runtime = runtime("runtime");
    let metadata = metadata(&runtime, 0x22);
    let mut publication = IpcEndpointPublication::publish_current(&metadata, &runtime).unwrap();

    assert!(metadata.validate_for(&runtime).is_ok());
    assert!(publication.owns(&metadata));

    publication.cleanup(Ok(())).unwrap();
    assert!(!publication.is_active());
    assert!(!publication.owns(&metadata));
}

#[test]
fn shutdown_storage_discovery_publication_old_guard_never_removes_a_new_generation() {
    let runtime = runtime("runtime");
    let first = metadata(&runtime, 0x22);
    let old_guard = IpcEndpointPublication::publish_current(&first, &runtime).unwrap();
    let second = metadata(&runtime, 0x33);
    let mut current_guard = IpcEndpointPublication::publish_current(&second, &runtime).unwrap();

    assert!(!old_guard.owns(&second));
    assert!(current_guard.owns(&second));
    current_guard.cleanup(Ok(())).unwrap();
}

#[test]
fn discovery_publication_failed_cleanup_remains_retryable() {
    let runtime = runtime("runtime");
    let metadata = metadata(&runtime, 0x22);
    let mut publication = IpcEndpointPublication::publish_current(&metadata, &runtime).unwrap();

    let error = publication.cleanup(Err("injected cleanup failure".to_string())).unwrap_err();

    assert!(error.contains("injected cleanup failure"));
    assert!(publication.is_active());
    publication.cleanup(Ok(())).unwrap();
    assert!(!publication.is_active());
}

#[test]
fn discovery_publication_operational_read_failure_keeps_cleanup_retryable() {
    let runtime = runtime("runtime");
    let metadata = metadata(&runtime, 0x22);
    let mut publication = IpcEndpointPublication::publish_current(&metadata, &runtime).unwrap();

    let error = discovery_read_error(IoErrorClass::PermissionDenied);
    assert_eq!(error.local_error().unwrap().code(), LocalIpcErrorCode::PermissionDenied);
    assert!(publication.cleanup(Err("injected discovery read denial".to_string())).is_err());
    assert!(publication.is_active());
    publication.cleanup(Ok(())).unwrap();
}

#[test]
fn discovery_publication_removes_only_verified_stale_temporary_generations() {
    let runtime = runtime("runtime");
    let stale = metadata(&runtime, 0x44);
    let current = metadata(&runtime, 0x55);

    assert!(is_stale_temporary(&stale, &current, &stale.publication_generation));
    let unverified = random_id_from_bytes(&[0x66; 16]);
    assert!(!is_stale_temporary(&stale, &current, &unverified));
    let other_runtime = metadata(&self::runtime("other"), 0x44);
    assert!(!is_stale_temporary(&other_runtime, &current, &other_runtime.publication_generation));
}

#[test]
fn discovery_publication_rejects_metadata_for_another_runtime() {
    let first = runtime("first");
    let second = runtime("second");
    let metadata = metadata(&first, 0x22);

    assert!(IpcEndpointPublication::publish_current(&metadata, &second).is_err());
}

#[test]
fn discovery_publication_rejects_an_endpoint_for_another_runtime_or_platform() {
    let paths = runtime("runtime");
    let other = runtime("other");
    let mut metadata = metadata(&paths, 0x22);
    metadata.endpoint = other.endpoint.clone();

    assert!(IpcEndpointPublication::publish_current(&metadata, &paths).is_err());

    metadata.endpoint = IpcEndpoint::WindowsNamedPipe { name: "cadder-runtime".to_string() };
    assert!(IpcEndpointPublication::publish_current(&metadata, &paths).is_err());
}

#[test]
fn fresh_random_ids_are_valid_discovery_ids() {
    let id = cadder::discovery::random_id().unwrap();
    assert_eq!(id.len(), 32);
    assert!(cadder::discovery::validate_random_id("daemon instance", &id).is_ok());
    assert_eq!(cadder::discovery::random_id_from_bytes(&[0xab; 16]), "ab".repeat(16));
}

#[test]
fn invalid_discovery_is_a_local_decode_failure() {
    match cadder::discovery::invalid_discovery_error() {
        cadder::ipc_errors::IpcClientError::Local(error) => {
            assert_eq!(error.code, LocalIpcErrorCode::InvalidDiscovery);
            assert!(!error.retryable);
            assert_eq!(error.operation.as_deref(), Some("discover-ipc-endpoint"));
            assert_eq!(error.message, "Cadder IPC discovery is invalid; no request was sent.");
        }
        other => panic!("expected a local error, got {other:?}"),
    }
}

#[test]
fn cleanup_after_success_succeeds_and_changes_nothing() {
    let runtime = runtime("runtime");
    let metadata = metadata(&runtime, 0x33);
    let mut publication = IpcEndpointPublication::publish_current(&metadata, &runtime).unwrap();
    publication.cleanup(Ok(())).unwrap();
    assert!(!publication.is_active());
    assert_eq!(publication.cleanup(Err("would fail".to_string())), Ok(()));
    assert!(!publication.is_active());
    assert!(!publication.owns(&metadata));
}

#[test]
fn cleanup_leaves_malformed_and_foreign_documents_untouched() {
    let runtime = runtime("runtime");
    let metadata = metadata(&runtime, 0x44);
    let mut publication = IpcEndpointPublication::publish_current(&metadata, &runtime).unwrap();
    assert_eq!(publication.cleanup_decision(&DocumentRead::Found(metadata.clone())), CleanupDecision::Remove);
    assert_eq!(publication.cleanup_decision(&DocumentRead::Malformed), CleanupDecision::Keep);
    assert_eq!(publication.cleanup_decision(&DocumentRead::Missing), CleanupDecision::Keep);
    assert_eq!(publication.cleanup_decision(&DocumentRead::Unreadable), CleanupDecision::Fail);
    let mut other_schema = metadata.clone();
    other_schema.schema_version += 1;
    assert_eq!(publication.cleanup_decision(&DocumentRead::Found(other_schema)), CleanupDecision::Keep);
    let mut other_generation = metadata.clone();
    other_generation.publication_generation = "f".repeat(32);
    assert_eq!(publication.cleanup_decision(&DocumentRead::Found(other_generation)), CleanupDecision::Keep);
    publication.cleanup(Ok(())).unwrap();
    assert_eq!(publication.cleanup_decision(&DocumentRead::Found(metadata)), CleanupDecision::Keep);
}
