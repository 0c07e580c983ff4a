use cadder::iis::IisBindingRecord;
use cadder::iis_metadata::{IisMetadata, IisRestoreRecord};

fn binding(info: &str) -> IisBindingRecord {
    IisBindingRecord::from_binding_information("Default Web Site", "http", info).unwrap()
}

fn record(info: &str, domain: &str, registration: Option<&str>) -> IisRestoreRecord {
    let b = binding(info);
    IisRestoreRecord {
        backend_binding: Some(b.backend_http_binding(41000, domain)),
        binding: b,
        domain_key: domain.to_string(),
        registration_id: registration.map(|r| r.to_string()),
    }
}

#[test]
fn metadata_keeps_and_removes_handoffs() {
    let b = binding("*:80:app.localhost");
    let mut metadata = IisMetadata::new();
    assert!(metadata.insert(b.binding_id(), record("*:80:app.localhost", "app.localhost", Some("shim-1"))).is_none());
    assert_eq!(metadata.len(), 1);
    assert_eq!(metadata.get(&b.binding_id()).unwrap().registration_id.as_deref(), Some("shim-1"));

    let removed = metadata.remove(&b.binding_id());
    assert_eq!(removed.unwrap().domain_key, "app.localhost");
    assert!(metadata.is_empty());
    assert!(metadata.get(&b.binding_id()).is_none());
    assert!(metadata.remove(&b.binding_id()).is_none());
}

#[test]
fn metadata_insert_replaces_and_returns_the_previous_record() {
    let mut metadata = IisMetadata::new();
    metadata.insert("site|http|*:80:a".to_string(), record("*:80:a.localhost", "a.localhost", None));
    let previous = metadata.insert("site|http|*:80:a".to_string(), record("*:80:a.localhost", "b.localhost", None));
    assert_eq!(previous.unwrap().domain_key, "a.localhost");
    assert_eq!(metadata.len(), 1);
    assert_eq!(metadata.get("site|http|*:80:a").unwrap().domain_key, "b.localhost");
}

#[test]
fn metadata_snapshot_lists_handoffs_in_identity_order() {
    let mut metadata = IisMetadata::new();
    metadata.insert("c".to_string(), record("*:80:c.localhost", "c.localhost", None));
    metadata.insert("a".to_string(), record("*:80:a.localhost", "a.localhost", None));
    metadata.insert("b".to_string(), record("*:80:b.localhost", "b.localhost", None));
    metadata.remove("missing");
    let keys: Vec<String> = metadata.snapshot().into_iter().map(|entry| entry.binding_id).collect();
    assert_eq!(keys, vec!["a".to_string(), "b".to_string(), "c".to_string()]);
    assert_eq!(metadata.snapshot()[1].record.domain_key, "b.localhost");
}
