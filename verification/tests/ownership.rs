use cadder::ownership::ConnectionOwnership;

#[test]
fn closed_connection_refuses_new_mutations_and_waits_for_running_ones() {
    let mut ownership = ConnectionOwnership::new();
    ownership.insert("reg-b".to_string(), "nonce-b".to_string());
    ownership.insert("reg-a".to_string(), "nonce-a".to_string());
    assert!(ownership.begin_mutation());

    ownership.disconnect();
    assert!(!ownership.begin_mutation());
    assert!(ownership.take_entries_if_idle().is_none());

    assert!(ownership.end_mutation());
    let entries = ownership.take_entries_if_idle().unwrap();
    assert_eq!(
        entries,
        vec![("reg-a".to_string(), "nonce-a".to_string()), ("reg-b".to_string(), "nonce-b".to_string())]
    );
    assert_eq!(ownership.take_entries_if_idle().unwrap(), Vec::new());
}

#[test]
fn ownership_entries_are_replaced_and_removed_by_registration() {
    let mut ownership = ConnectionOwnership::new();
    ownership.insert("reg-1".to_string(), "first".to_string());
    ownership.insert("reg-1".to_string(), "second".to_string());
    ownership.insert("reg-2".to_string(), "other".to_string());
    ownership.remove("reg-2");
    ownership.remove("missing");
    assert!(ownership.begin_mutation());
    assert!(!ownership.end_mutation());
    assert_eq!(ownership.take_entries_if_idle().unwrap(), vec![("reg-1".to_string(), "second".to_string())]);
}
