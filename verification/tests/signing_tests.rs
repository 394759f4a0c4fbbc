use provenclaw::model::{KeyProviderKind, ReceiptEnvelope, RiskLevel, Timestamp, VerificationReport};
use provenclaw::signing::{decode_stored_key, ReceiptSigner, SigningError};

fn receipt() -> ReceiptEnvelope {
    ReceiptEnvelope {
        id: "r-1".to_string(),
        timestamp: Timestamp { secs: 1_767_225_600, nanos: 5 },
        tool_digest: "sha256:abc".to_string(),
        policy_hash: "sha256:def".to_string(),
        decision: "allow".to_string(),
        reason: "policy-match".to_string(),
        output_hash: "out".to_string(),
        payload: "{}".to_string(),
        receipt_hash: String::new(),
        signature: None,
        signing_key_id: None,
        verification_report: VerificationReport::default(),
        sequence_number: 1,
        prev_audit_hash: None,
        risk_level: RiskLevel::Medium,
    }
}

const KEY_HEX: &str = "0707070707070707070707070707070707070707070707070707070707070707";

#[test]
fn signed_receipt_verifies_and_tampering_does_not() {
    let (signer, created) =
        ReceiptSigner::load_or_create(Some(KEY_HEX), false, KeyProviderKind::SoftwareOnly);
    assert!(created.is_none());
    let signer = signer.unwrap();
    assert_eq!(*signer.risk_level(), RiskLevel::Medium);
    assert!(signer.key_id().starts_with("ed25519:"));
    assert_eq!(signer.key_id().len(), "ed25519:".len() + 16);

    let unsigned = b"unsigned receipt";
    let mut r = receipt().finalize(unsigned);
    assert!(!signer.verify_receipt(&r, unsigned).unwrap());
    let outcome = signer.sign_receipt(&r, unsigned).unwrap();
    assert_eq!(outcome.signature.len(), 88);
    r.signature = Some(outcome.signature);
    assert!(signer.verify_receipt(&r, unsigned).unwrap());
    assert!(!signer.verify_receipt(&r, b"another receipt").unwrap());
}

#[test]
fn stored_key_is_trimmed_and_checked() {
    let padded = format!("  {KEY_HEX}\n");
    assert_eq!(decode_stored_key(&padded).unwrap(), vec![7_u8; 32]);
    match decode_stored_key("0707") {
        Err(SigningError::InvalidKey(m)) => assert_eq!(m, "expected 32-byte key"),
        _ => panic!("a short key must be refused"),
    }
    assert!(matches!(decode_stored_key("zz"), Err(SigningError::InvalidKey(_))));
}

#[test]
fn new_keys_come_back_to_be_stored() {
    let (signer, created) = ReceiptSigner::load_or_create(None, true, KeyProviderKind::Hybrid);
    let created = created.unwrap();
    assert_eq!(created.len(), 64);
    let signer = signer.unwrap();
    assert_eq!(*signer.risk_level(), RiskLevel::Low);
    let (reloaded, again) =
        ReceiptSigner::load_or_create(Some(&created), true, KeyProviderKind::Hybrid);
    assert!(again.is_none());
    assert_eq!(reloaded.unwrap().key_id(), signer.key_id());
}

#[test]
fn hardware_only_needs_hardware() {
    let (signer, _) = ReceiptSigner::load_or_create(Some(KEY_HEX), false, KeyProviderKind::HardwareOnly);
    let err = signer.unwrap_err();
    assert!(matches!(err, SigningError::HardwareUnavailable));
    assert_eq!(err.message(), "hardware-backed key required but unavailable");
    let (signer, _) = ReceiptSigner::load_or_create(Some(KEY_HEX), false, KeyProviderKind::Hybrid);
    assert_eq!(*signer.unwrap().risk_level(), RiskLevel::Degraded);
}

#[test]
fn malformed_signatures_are_invalid_keys() {
    let (signer, _) = ReceiptSigner::load_or_create(Some(KEY_HEX), false, KeyProviderKind::SoftwareOnly);
    let signer = signer.unwrap();
    let mut r = receipt();
    r.signature = Some("not base64!".to_string());
    assert!(matches!(signer.verify_receipt(&r, b"x"), Err(SigningError::InvalidKey(_))));
    r.signature = Some("AAAA".to_string());
    assert!(matches!(signer.verify_receipt(&r, b"x"), Err(SigningError::InvalidKey(_))));
}

#[test]
fn hardware_only_without_hardware_makes_no_software_key() {
    let (signer, created) = ReceiptSigner::load_or_create(None, false, KeyProviderKind::HardwareOnly);
    assert!(matches!(signer, Err(SigningError::HardwareUnavailable)));
    assert!(created.is_none());
}
