use provenclaw::audit::{
    default_verification_status, receipt_file_name, AuditRecord, AuditStore, SeqRange,
};
use provenclaw::model::{Timestamp, VerificationStatus};

fn record(id: &str, secs: i64) -> AuditRecord {
    AuditRecord {
        id: id.to_string(),
        timestamp: Timestamp { secs, nanos: 0 },
        tool_digest: "sha256:test".to_string(),
        policy_hash: "sha256:policy".to_string(),
        receipt_hash: "deadbeef".to_string(),
        decision: "allow".to_string(),
        reason: "policy-match".to_string(),
        duration_ms: 10,
        seq: 0,
        prev_hash: None,
        record_hash: String::new(),
        verification_status: VerificationStatus::Pass,
    }
}

fn append(store: &mut AuditStore, r: AuditRecord) -> AuditRecord {
    let prepared = store.prepare_append(r);
    let unhashed = format!("{}|{}|{:?}", prepared.id, prepared.seq, prepared.prev_hash).into_bytes();
    store.append_record(prepared, unhashed)
}

#[test]
fn writes_and_verifies_receipt_and_chain() {
    let mut store = AuditStore::new(Vec::new());
    assert_eq!(store.next_chain_metadata(), (0, None));
    let first = append(&mut store, record("r-1", 1));
    assert_eq!(first.seq, 1);
    assert!(first.prev_hash.is_none());
    let second = append(&mut store, record("r-2", 2));
    assert_eq!(second.seq, 2);
    assert_eq!(second.prev_hash.as_deref(), Some(first.record_hash.as_str()));
    assert_eq!(store.next_chain_metadata(), (2, Some(second.record_hash.clone())));
    assert_eq!(store.export_audit().len(), 2);
    assert!(store.clone().verify_chain(None).valid);
    let report = store.clone().verify_chain(Some(SeqRange { start: 1, end: 1 }));
    assert!(report.valid);
    assert_eq!(report.checked_records, 1);
    // A range that begins after the first record has no previous hash to
    // link back to, so its first record reads as a broken link.
    let report = store.clone().verify_chain(Some(SeqRange { start: 2, end: 2 }));
    assert!(!report.valid);
    assert_eq!(report.first_invalid_seq, Some(2));
    assert_eq!(report.reason.as_deref(), Some("previous hash mismatch"));
}

#[test]
fn chain_breaks_are_named() {
    let mut store = AuditStore::new(Vec::new());
    append(&mut store, record("r-1", 1));
    append(&mut store, record("r-2", 2));
    let mut forged = store.clone();
    forged.entries[0].unhashed_json.push(b'!');
    let report = forged.verify_chain(None);
    assert!(!report.valid);
    assert_eq!(report.first_invalid_seq, Some(1));
    assert_eq!(report.reason.as_deref(), Some("record hash mismatch"));
    let mut gap = store.clone();
    gap.entries[1].record.seq = 5;
    let report = gap.verify_chain(None);
    assert_eq!(report.reason.as_deref(), Some("non-contiguous sequence number"));
}

#[test]
fn lookups_over_the_log() {
    let mut store = AuditStore::new(Vec::new());
    append(&mut store, record("r-1", 1));
    append(&mut store, record("r-2", 5));
    append(&mut store, record("r-3", 3));
    assert_eq!(store.find_audit_record("r-2").unwrap().seq, 2);
    assert!(store.find_audit_record("r-9").is_none());
    let tail = store.tail_audit(2, 1);
    assert_eq!(tail.len(), 1);
    assert_eq!(tail[0].id, "r-2");
    assert_eq!(default_verification_status(), VerificationStatus::Skipped);
}

#[test]
fn receipt_file_names_come_from_uuids() {
    assert_eq!(
        receipt_file_name("67E55044-10B1-426F-9247-BB680E5FE0C8").unwrap(),
        "67e55044-10b1-426f-9247-bb680e5fe0c8.json"
    );
    let err = receipt_file_name("not-a-uuid").unwrap_err();
    assert!(err.message().starts_with("audit error: receipt error: "));
}
