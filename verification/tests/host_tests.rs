use provenclaw::audit::{AuditEntry, AuditRecord, AuditStore};
use provenclaw::decision::{apply_runtime_failure, join, latest_check_status, required_check_failures, verification_status_label};
use provenclaw::host::{
    default_tool_name_from_digest, join_path, phase0_capability_ceiling, Host, HostError,
    HostPaths,
};
use provenclaw::listing::{paginate, ReceiptFilters, ReceiptListItem};
use provenclaw::model::{
    CapabilitySpec, EnforcementMode, HttpRule, KeyProviderKind, ProvenanceRequirements,
    ReceiptEnvelope, RiskLevel, SecurityPosture, Timestamp, ToolRegistration, ToolRegistry,
    VerificationReport, VerificationStatus,
};
use provenclaw::policy::{
    Decision, FilesystemCapability, NetworkCapability, PolicyCapabilities, PolicyDecision,
    PolicyProfile, SecretPolicy,
};
use provenclaw::provenance::{VerifierCheckOutput, VerifierOutput, VerifierRun};
use provenclaw::runtime::RuntimeError;
use provenclaw::secrets::SecretProviderStatus;
use provenclaw::signing::ReceiptSigner;
use provenclaw::trust::{signed_default_policy, TrustStore};

fn host() -> Host {
    Host::with_paths(HostPaths::from_base_dir("/tmp/provenclaw-host".to_string()))
}

fn tool(name: &str) -> ToolRegistration {
    ToolRegistration {
        name: name.to_string(),
        digest: "sha256:1234abcd".to_string(),
        publisher: "acme.sec".to_string(),
        policy: "policy.default.json".to_string(),
        bundle_path: Some("/tmp/bundle.wasm".to_string()),
        signature_path: Some("/tmp/sig.json".to_string()),
        attestations_path: Some("/tmp/attest.json".to_string()),
        signing_identity: None,
        verification_profile: None,
    }
}

fn passing_answer() -> VerifierRun {
    VerifierRun::Answered(VerifierOutput {
        verdict: Some("pass".to_string()),
        status: None,
        checks: vec![VerifierCheckOutput {
            name: Some("signature".to_string()),
            check: None,
            status: Some("pass".to_string()),
            result: None,
            detail: Some("signature verified".to_string()),
            reason: None,
        }],
        encoded: Some(b"{}".to_vec()),
    })
}

fn allow() -> PolicyDecision {
    PolicyDecision {
        decision: Decision::Allow,
        reason: "policy-match".to_string(),
        policy_hash: "sha256:p".to_string(),
    }
}

fn default_policy() -> PolicyProfile {
    PolicyProfile {
        allowed_signers: vec!["acme.sec".to_string()],
        capabilities: PolicyCapabilities {
            net_http: NetworkCapability {
                allow: vec![HttpRule {
                    host: "api.example.com".to_string(),
                    path: "/v1/".to_string(),
                    method: "POST".to_string(),
                }],
            },
            fs_read: FilesystemCapability { allow: vec!["/data/".to_string()] },
            fs_write: FilesystemCapability { allow: Vec::new() },
        },
        secrets: SecretPolicy { materialize: false },
        signature: None,
    }
}

#[test]
fn paths_live_under_the_base_directory() {
    let paths = HostPaths::from_base_dir("/home/op/.provenclaw".to_string());
    assert_eq!(paths.config_path(), "/home/op/.provenclaw/config.toml");
    assert_eq!(paths.tools_path(), "/home/op/.provenclaw/tools.json");
    assert_eq!(paths.policies_dir(), "/home/op/.provenclaw/policies");
    assert_eq!(paths.audit_log_path(), "/home/op/.provenclaw/audit.ndjson");
    assert_eq!(paths.trust_path(), "/home/op/.provenclaw/trust.json");
    assert_eq!(paths.metrics_path(), "/home/op/.provenclaw/metrics.ndjson");
    assert_eq!(join_path("/base/", "x"), "/base/x");
    assert_eq!(join_path("", "x"), "x");
}

#[test]
fn discovery_prefers_the_environment() {
    let h = Host::discover(Some("/srv/pc".to_string()), Some("/home/op".to_string())).unwrap();
    assert_eq!(h.paths().base_dir, "/srv/pc");
    let h = Host::discover(None, Some("/home/op".to_string())).unwrap();
    assert_eq!(h.paths().base_dir, "/home/op/.provenclaw");
    let err = Host::discover(None, None).unwrap_err();
    assert_eq!(err.message(), "home directory is unavailable");
}

#[test]
fn default_tool_names() {
    assert_eq!(default_tool_name_from_digest("sha256:1234abcd"), "tool-1234abcd");
    assert_eq!(default_tool_name_from_digest("sha256:sha256:0123456789abcdef"), "tool-0123456789ab");
    assert_eq!(default_tool_name_from_digest("md5:xyz"), "tool-md5:xyz");
    assert_eq!(default_tool_name_from_digest(""), "tool-");
}

#[test]
fn add_tool_derives_names_and_upserts() {
    let mut registry = ToolRegistry::default();
    let reg = host().add_tool(
        &mut registry,
        "sha256:1234abcd".to_string(),
        None,
        "acme.sec".to_string(),
        "policy.default.json".to_string(),
    );
    assert_eq!(reg.name, "tool-1234abcd");
    let reg = host().add_tool_extended(
        &mut registry,
        "sha256:1234abcd".to_string(),
        Some("fetch_invoice".to_string()),
        "acme.sec".to_string(),
        "policy.default.json".to_string(),
        Some("/tmp/bundle.wasm".to_string()),
        None,
        None,
        Some("acme.sec".to_string()),
        Some("default".to_string()),
    );
    assert_eq!(reg.name, "fetch_invoice");
    assert_eq!(registry.tools.len(), 2);
    assert_eq!(host().find_tool(&registry, "fetch_invoice").unwrap().bundle_path.as_deref(), Some("/tmp/bundle.wasm"));
    let err = host().find_tool(&registry, "nope").unwrap_err();
    assert_eq!(err.message(), "unknown tool: nope");
    let page = host().list_tools_page(registry, None, 0);
    assert_eq!(page.items.len(), 1);
    assert_eq!(page.next_cursor, Some(1));
    assert_eq!(page.total, 2);
}

#[test]
fn pages_walk_forward() {
    let all: Vec<u32> = (0..7).collect();
    let p = paginate(all.clone(), None, 3);
    assert_eq!(p.items, vec![0, 1, 2]);
    assert_eq!(p.next_cursor, Some(3));
    let p = paginate(all.clone(), p.next_cursor, 3);
    assert_eq!(p.items, vec![3, 4, 5]);
    let p = paginate(all.clone(), p.next_cursor, 3);
    assert_eq!(p.items, vec![6]);
    assert_eq!(p.next_cursor, None);
    let p = paginate(all, Some(99), 3);
    assert!(p.items.is_empty());
    assert_eq!(p.total, 7);
}

#[test]
fn bundle_report_adds_trust_and_relaxes_optional_checks() {
    let mut trust = TrustStore::initial();
    let req = ProvenanceRequirements {
        require_signature: false,
        require_attestation: true,
        require_digest: true,
        attestation_max_age_days: 30,
    };
    let report = host().verify_bundle(&tool("t"), false, true, &passing_answer(), &trust, &req);
    let last = report.checks.last().unwrap();
    assert_eq!(last.check, "trust.signer");
    assert_eq!(last.status, VerificationStatus::Pass);
    assert_eq!(last.detail, "signer acme.sec is trusted");
    let sig = report.checks.iter().find(|c| c.check == "signature.artifact").unwrap();
    assert_eq!(sig.status, VerificationStatus::Skipped);
    assert_eq!(sig.detail, "signature requirement disabled by config");

    trust.revoke_signer("acme.sec");
    let report = host().verify_bundle(&tool("t"), true, true, &passing_answer(), &trust, &req);
    assert_eq!(report.checks.last().unwrap().detail, "signer acme.sec is revoked");
}

#[test]
fn enforce_mode_denies_required_provenance_failure() {
    let trust = TrustStore::initial();
    let req = ProvenanceRequirements::default();
    let report = host().verify_bundle(&tool("strict_tool"), true, true, &VerifierRun::PathEmpty, &trust, &req);
    let plan = host().resolve_execution_decision(EnforcementMode::Enforce, &req, &allow(), &report);
    assert_eq!(plan.decision, "deny");
    assert!(plan.reason.contains("provenance-required-check-failed"));
    assert!(!plan.should_execute);
    assert_eq!(
        plan.reason,
        "provenance-required-check-failed:provenact.cli=fail,policy.signature=missing"
    );
}

#[test]
fn warn_mode_allows_with_warnings() {
    let trust = TrustStore::initial();
    let req = ProvenanceRequirements::default();
    let report = host().verify_bundle(&tool("t"), true, true, &VerifierRun::PathEmpty, &trust, &req);
    let plan = host().resolve_execution_decision(EnforcementMode::Warn, &req, &allow(), &report);
    assert_eq!(plan.decision, "allow_with_warnings");
    assert_eq!(plan.reason, "policy-match-with-provenance-warning");
    assert!(plan.should_execute);
    assert_eq!(
        plan.warnings,
        vec!["required provenance checks failed but warn mode allowed execution: provenact.cli=fail,policy.signature=missing".to_string()]
    );
}

#[test]
fn warn_mode_runtime_failure_is_audited_as_deny() {
    let trust = TrustStore::initial();
    let req = ProvenanceRequirements::default();
    let report = host().verify_bundle(&tool("t"), true, true, &passing_answer(), &trust, &req);
    let mut plan = host().resolve_execution_decision(EnforcementMode::Warn, &req, &allow(), &report);
    apply_runtime_failure(&mut plan, &RuntimeError::Execution("bundle path does not exist: /x".to_string()));
    assert_eq!(plan.decision, "deny");
    assert!(plan.reason.starts_with("runtime-execution-failed:"));
    assert_eq!(plan.reason, "runtime-execution-failed:execution_error");
    assert_eq!(
        plan.warnings.last().unwrap(),
        "runtime execution failed: runtime execution error: bundle path does not exist: /x"
    );
}

#[test]
fn policy_denial_stands_in_every_mode() {
    let req = ProvenanceRequirements::default();
    let deny = PolicyDecision {
        decision: Decision::Deny,
        reason: "signer-not-allowed".to_string(),
        policy_hash: String::new(),
    };
    for mode in [EnforcementMode::Warn, EnforcementMode::Enforce] {
        let plan = host().resolve_execution_decision(mode, &req, &deny, &VerificationReport::default());
        assert_eq!(plan.decision, "deny");
        assert_eq!(plan.reason, "signer-not-allowed");
        assert!(!plan.should_execute);
        assert!(plan.warnings.is_empty());
    }
}

#[test]
fn required_failures_and_latest_status() {
    let mut report = VerificationReport::default();
    report.push("trust.signer".to_string(), VerificationStatus::Fail, "x".to_string());
    report.push("trust.signer".to_string(), VerificationStatus::Pass, "y".to_string());
    report.push("provenact.cli".to_string(), VerificationStatus::Warn, "z".to_string());
    assert_eq!(latest_check_status(&report, "trust.signer"), Some(VerificationStatus::Pass));
    assert_eq!(latest_check_status(&report, "nothing"), None);
    let req = ProvenanceRequirements {
        require_digest: false,
        require_signature: false,
        require_attestation: false,
        attestation_max_age_days: 30,
    };
    let failures = required_check_failures(&req, &report);
    assert_eq!(failures, vec!["provenact.cli=warn".to_string(), "publisher.identity=missing".to_string()]);
    assert_eq!(join(&failures, ","), "provenact.cli=warn,publisher.identity=missing");
    assert_eq!(verification_status_label(VerificationStatus::Skipped), "skipped");
}

#[test]
fn policy_outside_ceiling_fails_run() {
    let req = ProvenanceRequirements::default();
    let mut policy = default_policy();
    policy.capabilities.net_http.allow[0].host = "bad.example.com".to_string();
    let err = host()
        .decide_run(
            EnforcementMode::Warn,
            &req,
            true,
            &tool("bad_tool"),
            VerificationReport::default(),
            &Ok(()),
            &policy,
            "sha256:p".to_string(),
            &CapabilitySpec::default(),
            false,
        )
        .unwrap_err();
    assert!(err.message().contains("policy exceeds capability ceiling"));
}

#[test]
fn run_decision_records_the_policy_signature_check() {
    let policy = default_policy();
    let failed = Err(HostError::Verification("missing policy signature metadata".to_string()));
    let d = host()
        .decide_run(
            EnforcementMode::Enforce,
            &ProvenanceRequirements::default(),
            true,
            &tool("t"),
            VerificationReport::default(),
            &failed,
            &policy,
            "sha256:p".to_string(),
            &CapabilitySpec::default(),
            false,
        )
        .unwrap();
    let last = d.report.checks.last().unwrap();
    assert_eq!(last.check, "policy.signature");
    assert_eq!(last.status, VerificationStatus::Fail);
    assert_eq!(last.detail, "bundle verification failed: missing policy signature metadata");
    assert!(d.policy_decision.is_allowed());
    assert_eq!(d.plan.decision, "deny");
}

#[test]
fn default_policy_signature_verifies_against_trust() {
    let mut trust = TrustStore::initial();
    let secret = [9_u8; 32];
    let payload = b"canonical default policy";
    let signed = signed_default_policy(&mut trust, &secret, payload);
    let sig = signed.signature.as_ref().unwrap();
    assert!(sig.key_id.starts_with("policy-ed25519:"));
    assert_eq!(sig.algorithm, "ed25519");
    assert!(host().validate_policy_signature(true, &trust, &signed, payload).is_ok());
    let err = host().validate_policy_signature(true, &trust, &signed, b"tampered").unwrap_err();
    assert!(err.message().starts_with("policy error: policy signature validation failed: signature verification failed"));
    let empty = TrustStore::initial();
    let err = host().validate_policy_signature(true, &empty, &signed, payload).unwrap_err();
    assert_eq!(
        err.message(),
        format!("bundle verification failed: missing trusted policy key for key_id={}", sig.key_id)
    );
    assert!(host().validate_policy_signature(false, &empty, &default_policy(), payload).is_ok());
}

#[test]
fn explanation_joins_decision_ceiling_and_signature() {
    let trust = TrustStore::initial();
    let text = host().explain_policy(&tool("t"), &default_policy(), "sha256:p".to_string(), false, &trust, b"", false);
    assert_eq!(
        text,
        "decision=allow reason=policy-match allowed_signers=1 net_http_allow=1 fs_read_allow=1 fs_write_allow=0 secrets_materialize=false policy_signature=missing ceiling=ok policy_signature=ok"
    );
    let text = host().explain_policy(&tool("t"), &default_policy(), "sha256:p".to_string(), true, &trust, b"", false);
    assert!(text.ends_with("policy_signature=failed details=\"policy error: policy signature validation failed: missing policy signature metadata\""));
}

#[test]
fn diagnostics_report_exposes_local_control_plane_boundary() {
    let status = host().get_control_plane_status(EnforcementMode::Warn);
    assert_eq!(status.health, provenclaw::control_plane::ControlPlaneHealth::Ready);
    assert_eq!(status.profile.mode, provenclaw::control_plane::ControlPlaneMode::LocalOnly);
    assert_eq!(status.profile.endpoint.transport, provenclaw::control_plane::TransportKind::InProcess);
}

#[test]
fn control_plane_status_carries_the_local_profile() {
    let status = host().get_control_plane_status(EnforcementMode::Enforce);
    let p = status.profile;
    assert_eq!(p.endpoint.address, "in-process");
    assert!(p.endpoint.audience.is_none());
    assert_eq!(p.authn.mode, provenclaw::control_plane::HookMode::Local);
    assert_eq!(p.authn.accepted_schemes, vec![provenclaw::control_plane::AuthnScheme::LocalSharedToken]);
    assert!(p.authn.audience.is_none());
    assert_eq!(p.authz.mode, provenclaw::control_plane::HookMode::Local);
    assert_eq!(p.authz.policy_source, "embedded-rbac");
    assert_eq!(p.host_enforcement_mode, EnforcementMode::Enforce);
}

#[test]
fn degraded_secret_backend_degrades_posture() {
    let posture = SecurityPosture::from_settings(
        EnforcementMode::Warn,
        KeyProviderKind::Hybrid,
        true,
        true,
        ProvenanceRequirements::default(),
    );
    let degraded = SecretProviderStatus {
        backend: "software-fallback".to_string(),
        available: true,
        degraded: true,
        detail: "software fallback is active".to_string(),
    };
    assert_eq!(host().get_security_posture(posture, &degraded).risk_level, RiskLevel::Degraded);
    let fine = SecretProviderStatus { degraded: false, ..degraded };
    assert_eq!(host().get_security_posture(posture, &fine).risk_level, RiskLevel::Medium);
}

#[test]
fn trust_signers_are_kept_sorted_and_unique() {
    let mut trust = TrustStore::initial();
    host().add_trust_signer(&mut trust, "zeta.sec");
    host().add_trust_signer(&mut trust, "beta.sec");
    host().add_trust_signer(&mut trust, "beta.sec");
    assert_eq!(host().list_trust_signers(trust.clone()), vec!["acme.sec", "beta.sec", "zeta.sec"]);
    host().revoke_trust_signer(&mut trust, "zeta.sec");
    host().revoke_trust_signer(&mut trust, "zeta.sec");
    assert_eq!(trust.revoked, vec!["zeta.sec".to_string()]);
}

fn record(id: &str, secs: i64, decision: &str, status: VerificationStatus) -> AuditRecord {
    AuditRecord {
        id: id.to_string(),
        timestamp: Timestamp { secs, nanos: 0 },
        tool_digest: "sha256:t".to_string(),
        policy_hash: "sha256:p".to_string(),
        receipt_hash: "h".to_string(),
        decision: decision.to_string(),
        reason: "r".to_string(),
        duration_ms: 1,
        seq: 0,
        prev_hash: None,
        record_hash: String::new(),
        verification_status: status,
    }
}

fn receipt(id: &str) -> ReceiptEnvelope {
    ReceiptEnvelope {
        id: id.to_string(),
        timestamp: Timestamp { secs: 100, nanos: 0 },
        tool_digest: "sha256:t".to_string(),
        policy_hash: "sha256:p".to_string(),
        decision: "allow".to_string(),
        reason: "policy-match".to_string(),
        output_hash: "o".to_string(),
        payload: "{}".to_string(),
        receipt_hash: String::new(),
        signature: None,
        signing_key_id: None,
        verification_report: VerificationReport::default(),
        sequence_number: 1,
        prev_audit_hash: None,
        risk_level: RiskLevel::Medium,
    }
}

fn appended(store: &mut AuditStore, r: AuditRecord) {
    let prepared = store.prepare_append(r);
    let unhashed = format!("{}:{}", prepared.id, prepared.seq).into_bytes();
    store.append_record(prepared, unhashed);
}

#[test]
fn signed_receipt_verifies_against_its_audit_record() {
    let unsigned = b"unsigned receipt";
    let (signer, _) = ReceiptSigner::load_or_create(None, false, KeyProviderKind::Hybrid);
    let signer = signer.unwrap();
    let mut r = receipt("r-1").finalize(unsigned);
    r.signature = Some(signer.sign_receipt(&r, unsigned).unwrap().signature);
    let mut store = AuditStore::new(Vec::new());
    appended(&mut store, record("r-1", 100, "allow", VerificationStatus::Pass));
    assert!(host().verify_receipt(r.clone(), unsigned, Some(&signer), store.clone()).unwrap());
    let deep = host().get_receipt_deep(r.clone(), unsigned, Some(&signer), store.clone()).unwrap();
    assert!(deep.hash_valid && deep.signature_valid && deep.chain_valid);
    assert_eq!(deep.audit_record.unwrap().seq, 1);
    let missing = host().get_receipt_deep(receipt("r-2").finalize(unsigned), unsigned, None, store).unwrap();
    assert!(missing.audit_record.is_none());
    assert!(!missing.chain_valid);
}

#[test]
fn audit_chain_over_a_host_log() {
    let mut store = AuditStore::new(Vec::new());
    appended(&mut store, record("a", 1, "allow", VerificationStatus::Pass));
    appended(&mut store, record("b", 2, "deny", VerificationStatus::Fail));
    let report = host().verify_audit_chain(store.clone(), None);
    assert!(report.valid);
    assert_eq!(report.checked_records, 2);
    let mut broken = store.clone();
    broken.entries[1].record.prev_hash = Some("forged".to_string());
    let report = host().verify_audit_chain(broken, None);
    assert!(!report.valid);
    assert_eq!(report.first_invalid_seq, Some(2));
    assert_eq!(report.reason.as_deref(), Some("previous hash mismatch"));
    let entries: Vec<AuditEntry> = store.entries.clone();
    assert_eq!(entries.len(), 2);
}

#[test]
fn recent_runs_and_receipt_pages() {
    let records = vec![
        record("a", 1, "allow", VerificationStatus::Pass),
        record("b", 3, "deny", VerificationStatus::Fail),
        record("c", 2, "allow_with_warnings", VerificationStatus::Pass),
    ];
    let recent = host().get_provenance_report(records, 2);
    let ids: Vec<&str> = recent.iter().map(|r| r.id.as_str()).collect();
    assert_eq!(ids, vec!["b", "c"]);

    let items = vec![
        ReceiptListItem { id: "x".to_string(), timestamp: Timestamp { secs: 1, nanos: 0 }, decision: "allow".to_string(), tool_digest: "sha256:a".to_string() },
        ReceiptListItem { id: "y".to_string(), timestamp: Timestamp { secs: 5, nanos: 0 }, decision: "deny".to_string(), tool_digest: "sha256:a".to_string() },
        ReceiptListItem { id: "z".to_string(), timestamp: Timestamp { secs: 3, nanos: 0 }, decision: "allow".to_string(), tool_digest: "sha256:b".to_string() },
    ];
    let page = host().list_receipts_page(items.clone(), None, 10, &ReceiptFilters::default());
    let ids: Vec<&str> = page.items.iter().map(|r| r.id.as_str()).collect();
    assert_eq!(ids, vec!["y", "z", "x"]);
    let filters = ReceiptFilters { decision: Some("allow".to_string()), tool_digest: None };
    let page = host().list_receipts_page(items, None, 1, &filters);
    assert_eq!(page.items[0].id, "z");
    assert_eq!(page.total, 2);
    assert_eq!(page.next_cursor, Some(1));
}

#[test]
fn enforcement_objective_counts() {
    let records = vec![
        record("a", 10, "allow", VerificationStatus::Pass),
        record("b", 20, "allow_with_warnings", VerificationStatus::Warn),
        record("c", 30, "deny", VerificationStatus::Pass),
        record("d", 5, "allow", VerificationStatus::Pass),
        record("e", 40, "allow_with_warnings", VerificationStatus::Pass),
    ];
    let (total, compliant) = provenclaw::listing::slo_counts(&records, Timestamp { secs: 10, nanos: 0 });
    assert_eq!(total, 4);
    assert_eq!(compliant, 2);
}

#[test]
fn phase0_ceiling_contents() {
    let c = phase0_capability_ceiling();
    assert_eq!(c.net_http.len(), 1);
    assert_eq!(c.net_http[0].host, "api.example.com");
    assert_eq!(c.fs_read[0].path, "/data/");
    assert!(c.fs_write.is_empty() && !c.secrets_materialize && !c.randomness);
}

#[test]
fn receipts_and_records_of_a_run() {
    let (signer, _) = ReceiptSigner::load_or_create(None, false, KeyProviderKind::SoftwareOnly);
    let signer = signer.unwrap();
    let mut plan = host().resolve_execution_decision(
        EnforcementMode::Warn,
        &ProvenanceRequirements::default(),
        &allow(),
        &VerificationReport::default(),
    );
    plan.reason = "policy-match".to_string();
    let receipt = host().assemble_receipt(
        "r-9".to_string(),
        Timestamp { secs: 7, nanos: 1 },
        &tool("t"),
        "sha256:p".to_string(),
        &plan,
        "oh".to_string(),
        "{}".to_string(),
        Some(&signer),
        VerificationReport::default(),
        (41, Some("prev".to_string())),
    );
    assert_eq!(receipt.sequence_number, 42);
    assert_eq!(receipt.prev_audit_hash.as_deref(), Some("prev"));
    assert_eq!(receipt.signing_key_id.as_deref(), Some(signer.key_id()));
    assert_eq!(receipt.risk_level, RiskLevel::Medium);
    assert_eq!(receipt.tool_digest, "sha256:1234abcd");
    let unsigned_receipt = host().assemble_receipt(
        "r-10".to_string(),
        Timestamp { secs: 7, nanos: 1 },
        &tool("t"),
        "sha256:p".to_string(),
        &plan,
        "oh".to_string(),
        "{}".to_string(),
        None,
        VerificationReport::default(),
        (0, None),
    );
    assert_eq!(unsigned_receipt.sequence_number, 1);
    assert!(unsigned_receipt.signing_key_id.is_none());
    let record = host().assemble_audit_record(&receipt, provenclaw::host::duration_ms(-5));
    assert_eq!(record.duration_ms, 0);
    assert_eq!(record.seq, 42);
    assert_eq!(record.verification_status, VerificationStatus::Skipped);
    assert_eq!(provenclaw::host::duration_ms(1500), 1500);
    let tools = host().list_tools(ToolRegistry { tools: vec![tool("a")] });
    assert_eq!(tools.len(), 1);
}
