use provenclaw::model::{ToolRegistration, VerificationStatus};
use provenclaw::provenance::{
    ingest_machine_readable_report, map_status, stdout_carries_answer, ProvenactCliVerifier,
    VerifierCheckOutput, VerifierError, VerifierOutput, VerifierRun,
};
use provenclaw::model::VerificationReport;

fn tool() -> ToolRegistration {
    ToolRegistration {
        name: "fetch_invoice".to_string(),
        digest: "sha256:1234abcd".to_string(),
        publisher: "acme.sec".to_string(),
        policy: "policy.default.json".to_string(),
        bundle_path: Some("/tmp/bundle.wasm".to_string()),
        signature_path: Some("/tmp/sig.json".to_string()),
        attestations_path: None,
        signing_identity: None,
        verification_profile: None,
    }
}

fn views(report: &VerificationReport) -> Vec<(String, VerificationStatus, String)> {
    report
        .checks
        .iter()
        .map(|c| (c.check.clone(), c.status, c.detail.clone()))
        .collect()
}

#[test]
fn statuses_map_in_any_case() {
    assert_eq!(map_status("PASS"), VerificationStatus::Pass);
    assert_eq!(map_status("ok"), VerificationStatus::Pass);
    assert_eq!(map_status("Success"), VerificationStatus::Pass);
    assert_eq!(map_status("warning"), VerificationStatus::Warn);
    assert_eq!(map_status("skipped"), VerificationStatus::Skipped);
    assert_eq!(map_status("passed"), VerificationStatus::Fail);
    assert_eq!(map_status(""), VerificationStatus::Fail);
}

#[test]
fn answer_is_ingested_in_order() {
    let out = VerifierOutput {
        verdict: None,
        status: Some("pass".to_string()),
        checks: vec![
            VerifierCheckOutput {
                name: Some("signature".to_string()),
                check: None,
                status: Some("pass".to_string()),
                result: None,
                detail: Some("signature verified".to_string()),
                reason: None,
            },
            VerifierCheckOutput {
                name: None,
                check: None,
                status: None,
                result: Some("WARN".to_string()),
                detail: None,
                reason: None,
            },
        ],
        encoded: Some(b"abc".to_vec()),
    };
    let mut report = VerificationReport::default();
    ingest_machine_readable_report(&out, &mut report);
    assert_eq!(
        views(&report),
        vec![
            ("provenact.cli".to_string(), VerificationStatus::Pass, "verdict=pass".to_string()),
            ("provenact.signature".to_string(), VerificationStatus::Pass, "signature verified".to_string()),
            ("provenact.unknown".to_string(), VerificationStatus::Warn, "no details from verifier".to_string()),
            (
                "provenact.evidence".to_string(),
                VerificationStatus::Pass,
                "sha256=ba7816bf8f01cfea414140de5dae2223b00361a396177a9cb410ff61f20015ad".to_string()
            ),
        ]
    );
}

#[test]
fn answer_without_verdict_passes_the_cli_check_last() {
    let out = VerifierOutput { verdict: None, status: None, checks: Vec::new(), encoded: None };
    let mut report = VerificationReport::default();
    ingest_machine_readable_report(&out, &mut report);
    assert_eq!(
        views(&report),
        vec![("provenact.cli".to_string(), VerificationStatus::Pass, "verifier command succeeded".to_string())]
    );
}

#[test]
fn registration_and_artifact_checks() {
    let verifier = ProvenactCliVerifier;
    let report = verifier.verify(&tool(), false, true, &VerifierRun::PathEmpty);
    assert_eq!(
        views(&report),
        vec![
            ("digest.format".to_string(), VerificationStatus::Pass, "tool digest uses sha256 format".to_string()),
            ("publisher.identity".to_string(), VerificationStatus::Pass, "publisher identity present".to_string()),
            ("signature.artifact".to_string(), VerificationStatus::Fail, "signature artifact missing: /tmp/sig.json".to_string()),
            ("attestation.artifact".to_string(), VerificationStatus::Fail, "attestation artifact not configured".to_string()),
            ("provenact.cli".to_string(), VerificationStatus::Fail, "provenact path is empty".to_string()),
        ]
    );
}

#[test]
fn bad_digest_and_blank_publisher_fail() {
    let mut t = tool();
    t.digest = "sha256:".to_string();
    t.publisher = "  ".to_string();
    let report = ProvenactCliVerifier.verify(&t, true, true, &VerifierRun::Failed(" boom \n".to_string()));
    let v = views(&report);
    assert_eq!(v[0].1, VerificationStatus::Fail);
    assert_eq!(v[0].2, "tool digest must use sha256:<hex> format");
    assert_eq!(v[1].2, "publisher must be present");
    assert_eq!(v[2].2, "signature artifact found");
    assert_eq!(v[4], ("provenact.cli".to_string(), VerificationStatus::Fail, "command failed: boom".to_string()));
    let report = ProvenactCliVerifier.verify(&t, true, true, &VerifierRun::LaunchFailed("not found".to_string()));
    assert_eq!(views(&report)[4].2, "could not execute verifier command: not found");
    let report = ProvenactCliVerifier.verify(&t, true, true, &VerifierRun::Silent);
    assert_eq!(views(&report)[4].1, VerificationStatus::Pass);
}

#[test]
fn blank_output_carries_no_answer() {
    assert!(!stdout_carries_answer(" \n\t"));
    assert!(stdout_carries_answer("{}"));
    assert_eq!(
        VerifierError::Parse("eof".to_string()).message(),
        "failed to parse verifier output: eof"
    );
}
