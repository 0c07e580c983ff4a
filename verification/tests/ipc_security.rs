use cadder::ipc_security::{IpcOperation, IpcOsIdentity, IpcPrincipal, IpcSecurityPolicy, PrivilegeStatus};

#[test]
fn policy_allows_same_user_non_elevated_client_to_elevated_endpoint() {
    let owner = IpcPrincipal::test("owner-identity", PrivilegeStatus::Elevated);
    let peer = IpcPrincipal::test("owner-identity", PrivilegeStatus::NormalUser);
    let decision = IpcSecurityPolicy.evaluate(&owner, &peer, &IpcOperation::state_changing("set-autostart"));

    assert!(decision.is_allowed());
}

#[test]
fn policy_denies_different_user_without_leaking_peer_account() {
    let owner = IpcPrincipal::test("owner-identity", PrivilegeStatus::Elevated);
    let peer = IpcPrincipal::test("other-token=secret", PrivilegeStatus::NormalUser);
    let decision = IpcSecurityPolicy.evaluate(&owner, &peer, &IpcOperation::state_changing("shutdown"));

    assert!(!decision.is_allowed());
    assert_eq!(decision.reason_code(), "principal-outside-runtime-owner");
    assert!(!decision.message().contains("bob-token"));
    assert!(!decision.message().contains("secret"));
}

#[test]
fn peer_identity_missing_or_unknown_fails_closed() {
    let owner = IpcPrincipal::unknown(PrivilegeStatus::Unknown);
    let peer = IpcPrincipal::unknown(PrivilegeStatus::Unknown);

    let decision = IpcSecurityPolicy.authenticate_peer(&owner, &peer);

    assert!(!decision.is_allowed());
    assert_eq!(decision.reason_code(), "principal-outside-runtime-owner");
}

#[test]
fn current_process_identity_is_authenticated() {
    let principal =
        IpcPrincipal::current_process(PrivilegeStatus::NormalUser, Some(IpcOsIdentity::UnixUid(1000))).unwrap();

    assert!(principal.is_authenticated());
    assert!(matches!(principal.identity_kind(), "unixUid" | "windowsSid"));
}

#[test]
fn an_unavailable_process_identity_is_an_error() {
    assert!(IpcPrincipal::current_process(PrivilegeStatus::NormalUser, None).is_err());
}

#[test]
fn read_only_operations_follow_the_connection_decision() {
    let owner = IpcPrincipal::test("owner", PrivilegeStatus::NormalUser);
    let peer = IpcPrincipal::test("owner", PrivilegeStatus::Elevated);
    assert!(IpcSecurityPolicy.evaluate(&owner, &peer, &IpcOperation::read_only("query-state")).is_allowed());
    assert!(IpcSecurityPolicy.authenticate_peer(&owner, &peer).is_allowed());
}

#[test]
fn windows_sid_is_exposed_only_for_windows_identities() {
    let windows = IpcPrincipal::current_process(
        PrivilegeStatus::NormalUser,
        Some(IpcOsIdentity::WindowsSid("S-1-5-21-1".to_string())),
    )
    .unwrap();
    assert_eq!(windows.windows_sid(), Some("S-1-5-21-1"));
    assert_eq!(windows.identity_kind(), "windowsSid");
    let unix = IpcPrincipal::current_process(PrivilegeStatus::NormalUser, Some(IpcOsIdentity::UnixUid(1000))).unwrap();
    assert_eq!(unix.windows_sid(), None);
    assert!(IpcPrincipal::current_process(PrivilegeStatus::NormalUser, None).is_err());
}

#[test]
fn default_principal_is_unknown_with_unknown_privilege() {
    let principal = IpcPrincipal::default();
    assert!(!principal.is_authenticated());
    assert_eq!(principal.identity_kind(), "unknown");
    assert_eq!(principal.privilege_status(), PrivilegeStatus::Unknown);
}
