use provenclaw::model::{
    CapabilitySpec, EnforcementMode, HttpRule, InvocationContext, KeyProviderKind, ProvenanceRequirements,
    ReceiptEnvelope, RiskLevel, RuntimeLimits, SecurityPosture, Timestamp, ToolRegistration,
    ToolRegistry, VerificationReport, VerificationStatus,
};

fn registration(name: &str, digest: &str) -> ToolRegistration {
    ToolRegistration {
        name: name.to_string(),
        digest: digest.to_string(),
        publisher: "acme.sec".to_string(),
        policy: "policy.default.json".to_string(),
        bundle_path: None,
        signature_path: None,
        attestations_path: None,
        signing_identity: None,
        verification_profile: None,
    }
}

fn receipt() -> ReceiptEnvelope {
    ReceiptEnvelope {
        id: "6f1c1b7e-8f0e-4a8e-9a43-2f3c9d1e0b11".to_string(),
        timestamp: Timestamp { secs: 1_767_225_600, nanos: 0 },
        tool_digest: "sha256:abc".to_string(),
        policy_hash: "sha256:def".to_string(),
        decision: "allow".to_string(),
        reason: "policy-match".to_string(),
        output_hash: "out".to_string(),
        payload: "{\"ok\":true}".to_string(),
        receipt_hash: String::new(),
        signature: None,
        signing_key_id: None,
        verification_report: VerificationReport::default(),
        sequence_number: 0,
        prev_audit_hash: None,
        risk_level: RiskLevel::Medium,
    }
}

#[test]
fn upsert_replaces_existing_registration() {
    let mut registry = ToolRegistry::default();
    registry.upsert(registration("fetch_invoice", "sha256:first"));
    registry.upsert(registration("fetch_invoice", "sha256:second"));

    assert_eq!(registry.tools.len(), 1);
    assert_eq!(registry.find_by_name("fetch_invoice").unwrap().digest, "sha256:second");
}

#[test]
fn finalized_receipt_hash_verifies() {
    let unsigned = receipt();
    let unsigned_json = b"{\"id\":\"6f1c1b7e\",\"decision\":\"allow\",\"payload\":{\"ok\":true}}";
    let finalized = unsigned.finalize(unsigned_json);
    assert!(finalized.verify_hash(unsigned_json));
}

#[test]
fn receipt_hash_is_sha256_hex_of_unsigned_form() {
    let finalized = receipt().finalize(b"abc");
    assert_eq!(
        finalized.receipt_hash,
        "ba7816bf8f01cfea414140de5dae2223b00361a396177a9cb410ff61f20015ad"
    );
    assert!(!finalized.verify_hash(b"abd"));
}

#[test]
fn unsigned_form_clears_hash_and_signature() {
    let mut r = receipt().finalize(b"abc");
    r.signature = Some("sig".to_string());
    let u = r.unsigned();
    assert_eq!(u.receipt_hash, "");
    assert!(u.signature.is_none());
    assert_eq!(u.id, r.id);
    assert_eq!(u.payload, r.payload);
}

#[test]
fn upsert_adds_new_names_in_order() {
    let mut registry = ToolRegistry::default();
    registry.upsert(registration("zeta", "sha256:z"));
    registry.upsert(registration("alpha", "sha256:a"));
    registry.upsert(registration("mid", "sha256:m"));
    let names: Vec<&str> = registry.tools.iter().map(|t| t.name.as_str()).collect();
    assert_eq!(names, vec!["alpha", "mid", "zeta"]);
    assert_eq!(registry.find_by_digest("sha256:m").unwrap().name, "mid");
    assert!(registry.find_by_name("missing").is_none());
    assert!(registry.find_by_digest("sha256:none").is_none());
}

#[test]
fn summary_follows_worst_status() {
    let mut report = VerificationReport::default();
    assert_eq!(report.summary(), VerificationStatus::Skipped);
    report.push("a".to_string(), VerificationStatus::Pass, "ok".to_string());
    assert_eq!(report.summary(), VerificationStatus::Pass);
    report.push("b".to_string(), VerificationStatus::Warn, "meh".to_string());
    assert_eq!(report.summary(), VerificationStatus::Warn);
    report.push("c".to_string(), VerificationStatus::Pass, "ok".to_string());
    assert_eq!(report.summary(), VerificationStatus::Warn);
    report.push("d".to_string(), VerificationStatus::Fail, "bad".to_string());
    assert_eq!(report.summary(), VerificationStatus::Fail);
}

#[test]
fn defaults_of_settings() {
    let req = ProvenanceRequirements::default();
    assert!(req.require_digest && req.require_signature && req.require_attestation);
    assert_eq!(req.attestation_max_age_days, 30);
    let limits = RuntimeLimits::default();
    assert_eq!(limits.timeout_ms, 30_000);
    assert_eq!(limits.memory_limit_mb, 256);
    assert_eq!(limits.max_output_bytes, 1024 * 1024);
    assert_eq!(EnforcementMode::default(), EnforcementMode::Warn);
    assert_eq!(KeyProviderKind::default(), KeyProviderKind::Hybrid);
    assert_eq!(RiskLevel::default(), RiskLevel::Medium);
    assert!(provenclaw::model::default_true());
    assert_eq!(provenclaw::model::default_log_level(), "info");
    assert_eq!(provenclaw::model::default_coverage_slo_window_days(), 14);
    let caps = CapabilitySpec::default();
    assert!(caps.net_http.is_empty() && caps.fs_read.is_empty() && caps.fs_write.is_empty());
}

#[test]
fn posture_fails_closed_only_in_enforce_mode() {
    let posture = SecurityPosture::from_settings(
        EnforcementMode::Enforce,
        KeyProviderKind::Hybrid,
        true,
        true,
        ProvenanceRequirements::default(),
    );
    assert!(posture.is_fail_closed());
    assert_eq!(posture.risk_level, RiskLevel::Medium);
    let warn = SecurityPosture { enforcement_mode: EnforcementMode::Warn, ..posture };
    assert!(!warn.is_fail_closed());
}

#[test]
fn normalized_method_is_upper_case() {
    let rule = HttpRule {
        host: "api.example.com".to_string(),
        path: "/v1/".to_string(),
        method: "post".to_string(),
    };
    assert_eq!(rule.normalized_method(), "POST");
}

#[test]
fn tool_ref_keeps_identity() {
    let r = registration("fetch_invoice", "sha256:first").to_tool_ref();
    assert_eq!(r.name, "fetch_invoice");
    assert_eq!(r.digest, "sha256:first");
    assert_eq!(r.publisher, "acme.sec");
}

#[test]
fn invocation_context_draws_a_fresh_uuid() {
    let a = InvocationContext::new("cli".to_string(), true);
    let b = InvocationContext::new("cli".to_string(), false);
    assert_eq!(a.actor, "cli");
    assert!(a.tainted && !b.tainted);
    assert!(a.taint_sources.is_empty());
    assert_eq!(a.request_id.len(), 36);
    assert_eq!(uuid::Uuid::parse_str(&a.request_id).unwrap().to_string(), a.request_id);
    assert_ne!(a.request_id, b.request_id);
}
