use base64::engine::general_purpose::STANDARD as BASE64;
use base64::Engine;
use ed25519_dalek::{Signer, SigningKey};
use provenclaw::model::{CapabilitySpec, FsRule, HttpRule};
use provenclaw::policy::{
    Decision, FilesystemCapability, NetworkCapability, PolicyCapabilities, PolicyEngine,
    PolicyError, PolicyProfile, PolicySignature, SecretPolicy,
};

fn sample_policy() -> PolicyProfile {
    PolicyProfile {
        allowed_signers: vec!["acme.sec".to_string()],
        capabilities: PolicyCapabilities {
            net_http: NetworkCapability {
                allow: vec![HttpRule {
                    host: "api.example.com".to_string(),
                    path: "/v1/".to_string(),
                    method: "POST".to_string(),
                }],
            },
            fs_read: FilesystemCapability { allow: vec!["/data/".to_string()] },
            fs_write: FilesystemCapability { allow: Vec::new() },
        },
        secrets: SecretPolicy { materialize: false },
        signature: Some(PolicySignature {
            key_id: "policy-key".to_string(),
            algorithm: "ed25519".to_string(),
            signature: "placeholder".to_string(),
        }),
    }
}

/// The serialization of the sample policy without its signature, as the
/// host computes it before signing.
fn sample_signing_payload() -> Vec<u8> {
    br#"{"allowed_signers":["acme.sec"],"capabilities":{"net.http":{"allow":[{"host":"api.example.com","path":"/v1/","method":"POST"}]},"fs.read":{"allow":["/data/"]},"fs.write":{"allow":[]}},"secrets":{"materialize":false},"signature":null}"#.to_vec()
}

fn invoice_request() -> CapabilitySpec {
    CapabilitySpec {
        net_http: vec![HttpRule {
            host: "api.example.com".to_string(),
            path: "/v1/invoices".to_string(),
            method: "POST".to_string(),
        }],
        ..CapabilitySpec::default()
    }
}

#[test]
fn allows_matching_rules() {
    let policy = sample_policy();
    let requested = CapabilitySpec {
        fs_read: vec![FsRule { path: "/data/invoices/2026.json".to_string() }],
        ..invoice_request()
    };

    let decision =
        PolicyEngine::evaluate(&policy, "sha256:p".to_string(), "acme.sec", &requested, false, true);
    assert!(decision.is_allowed());
    assert_eq!(decision.reason, "policy-match");
    assert_eq!(decision.policy_hash, "sha256:p");
}

#[test]
fn denies_tainted_network_use() {
    let policy = sample_policy();
    let requested = invoice_request();

    let decision =
        PolicyEngine::evaluate(&policy, "sha256:p".to_string(), "acme.sec", &requested, true, true);
    assert_eq!(decision.decision, Decision::Deny);
    assert_eq!(decision.reason, "tainted-input-network-downgrade");
}

#[test]
fn verifies_cryptographic_signature() {
    let mut policy = sample_policy();
    let signing_key = SigningKey::from_bytes(&[7_u8; 32]);
    let payload = sample_signing_payload();
    let signature = signing_key.sign(&payload);
    policy.signature = Some(PolicySignature {
        key_id: "policy-key".to_string(),
        algorithm: "ed25519".to_string(),
        signature: BASE64.encode(signature.to_bytes()),
    });

    let pubkey = BASE64.encode(signing_key.verifying_key().as_bytes());
    PolicyEngine::verify_signature(&policy, &payload, &pubkey, true).unwrap();
}

#[test]
fn tampered_payload_fails_signature() {
    let mut policy = sample_policy();
    let signing_key = SigningKey::from_bytes(&[7_u8; 32]);
    let payload = sample_signing_payload();
    let signature = signing_key.sign(&payload);
    policy.signature = Some(PolicySignature {
        key_id: "policy-key".to_string(),
        algorithm: "ED25519".to_string(),
        signature: BASE64.encode(signature.to_bytes()),
    });
    let pubkey = BASE64.encode(signing_key.verifying_key().as_bytes());
    let mut tampered = payload.clone();
    tampered.push(b' ');
    match PolicyEngine::verify_signature(&policy, &tampered, &pubkey, true) {
        Err(PolicyError::Signature(m)) => {
            assert!(m.starts_with("signature verification failed: "))
        }
        other => panic!("expected a signature failure, got {other:?}"),
    }
}

#[test]
fn signature_errors_name_their_cause() {
    let mut policy = sample_policy();
    let err = PolicyEngine::verify_signature(&policy, b"x", "AAAA", true).unwrap_err();
    assert_eq!(err.message(), "policy signature validation failed: public key must be 32 bytes");
    policy.signature.as_mut().unwrap().algorithm = "rsa".to_string();
    let err = PolicyEngine::verify_signature(&policy, b"x", "AAAA", true).unwrap_err();
    assert_eq!(err.message(), "policy signature validation failed: unsupported policy signature algorithm: rsa");
    policy.signature = None;
    let err = PolicyEngine::verify_signature(&policy, b"x", "AAAA", true).unwrap_err();
    assert_eq!(err.message(), "policy signature validation failed: missing policy signature metadata");
    assert!(PolicyEngine::verify_signature(&policy, b"x", "AAAA", false).is_ok());
    policy.signature = Some(PolicySignature {
        key_id: "  ".to_string(),
        algorithm: "ed25519".to_string(),
        signature: "s".to_string(),
    });
    let err = PolicyEngine::validate_signature_metadata(&policy, true).unwrap_err();
    assert_eq!(err.message(), "policy signature validation failed: invalid policy signature fields");
    let err = PolicyEngine::verify_signature(&policy, b"x", "not base64!", true).unwrap_err();
    assert_eq!(err.message(), "policy signature validation failed: invalid policy signature fields");
}

#[test]
fn ceiling_violations_are_reported() {
    let policy = sample_policy();
    let ceiling = CapabilitySpec {
        net_http: vec![HttpRule {
            host: "api.example.com".to_string(),
            path: "/v1/".to_string(),
            method: "POST".to_string(),
        }],
        fs_read: vec![FsRule { path: "/data/".to_string() }],
        ..CapabilitySpec::default()
    };
    assert!(PolicyEngine::validate_capability_ceilings(&policy, &ceiling).is_ok());

    let mut wide = sample_policy();
    wide.capabilities.net_http.allow[0].host = "bad.example.com".to_string();
    let err = PolicyEngine::validate_capability_ceilings(&wide, &ceiling).unwrap_err();
    assert!(err.message().starts_with("policy exceeds capability ceiling: network rule outside ceiling"));

    let mut secrets = sample_policy();
    secrets.secrets.materialize = true;
    let err = PolicyEngine::validate_capability_ceilings(&secrets, &ceiling).unwrap_err();
    assert_eq!(err.message(), "policy exceeds capability ceiling: secrets.materialize outside ceiling");
}

#[test]
fn evaluation_denials_in_order() {
    let policy = sample_policy();
    let d = PolicyEngine::evaluate(&policy, String::new(), "evil.corp", &CapabilitySpec::default(), false, true);
    assert_eq!(d.reason, "signer-not-allowed");
    let random = CapabilitySpec { randomness: true, ..CapabilitySpec::default() };
    let d = PolicyEngine::evaluate(&policy, String::new(), "acme.sec", &random, false, true);
    assert_eq!(d.reason, "randomness-denied-phase0");
    let secrets = CapabilitySpec { secrets_materialize: true, ..CapabilitySpec::default() };
    let d = PolicyEngine::evaluate(&policy, String::new(), "acme.sec", &secrets, false, true);
    assert_eq!(d.reason, "secret-materialization-denied");
    let d = PolicyEngine::evaluate(&policy, String::new(), "acme.sec", &invoice_request(), false, false);
    assert_eq!(d.reason, "network-disabled-in-config");
    let write = CapabilitySpec {
        fs_write: vec![FsRule { path: "/data/out.json".to_string() }],
        ..CapabilitySpec::default()
    };
    let d = PolicyEngine::evaluate(&policy, String::new(), "acme.sec", &write, false, true);
    assert_eq!(d.decision, Decision::Deny);
    assert_eq!(d.reason, "fs.write rule rejected: /data/out.json");
}

#[test]
fn policy_hash_and_explanation() {
    let policy = sample_policy();
    assert_eq!(
        PolicyEngine::to_hash(b"abc"),
        "sha256:ba7816bf8f01cfea414140de5dae2223b00361a396177a9cb410ff61f20015ad"
    );
    let d = PolicyEngine::evaluate(&policy, String::new(), "acme.sec", &CapabilitySpec::default(), false, true);
    assert_eq!(
        PolicyEngine::explain(&policy, &d),
        "decision=allow reason=policy-match allowed_signers=1 net_http_allow=1 fs_read_allow=1 fs_write_allow=0 secrets_materialize=false policy_signature=present"
    );
}

#[test]
fn fs_paths_are_checked_on_segment_boundaries() {
    let policy = sample_policy();
    let escape = CapabilitySpec {
        fs_read: vec![FsRule { path: "/data/../etc/passwd".to_string() }],
        ..CapabilitySpec::default()
    };
    let d = PolicyEngine::evaluate(&policy, String::new(), "acme.sec", &escape, false, true);
    assert_eq!(d.decision, Decision::Deny);
    assert_eq!(d.reason, "fs.read rule rejected: /data/../etc/passwd");

    let mut bare = sample_policy();
    bare.capabilities.fs_read.allow = vec!["/data".to_string()];
    let sibling = CapabilitySpec {
        fs_read: vec![FsRule { path: "/database/dump.sql".to_string() }],
        ..CapabilitySpec::default()
    };
    let d = PolicyEngine::evaluate(&bare, String::new(), "acme.sec", &sibling, false, true);
    assert_eq!(d.reason, "fs.read rule rejected: /database/dump.sql");
    let inside = CapabilitySpec {
        fs_read: vec![FsRule { path: "/data/a.json".to_string() }, FsRule { path: "/data".to_string() }],
        ..CapabilitySpec::default()
    };
    let d = PolicyEngine::evaluate(&bare, String::new(), "acme.sec", &inside, false, true);
    assert_eq!(d.reason, "policy-match");
}

#[test]
fn ceiling_paths_are_checked_on_segment_boundaries() {
    let ceiling = CapabilitySpec {
        net_http: vec![HttpRule {
            host: "api.example.com".to_string(),
            path: "/v1/".to_string(),
            method: "POST".to_string(),
        }],
        fs_read: vec![FsRule { path: "/data".to_string() }],
        ..CapabilitySpec::default()
    };
    let mut p = sample_policy();
    p.capabilities.fs_read.allow = vec!["/data/../etc".to_string()];
    let err = PolicyEngine::validate_capability_ceilings(&p, &ceiling).unwrap_err();
    assert_eq!(err.message(), "policy exceeds capability ceiling: fs.read path outside ceiling: /data/../etc");
    p.capabilities.fs_read.allow = vec!["/database".to_string()];
    assert!(PolicyEngine::validate_capability_ceilings(&p, &ceiling).is_err());
    p.capabilities.fs_read.allow = vec!["/data/reports/".to_string()];
    assert!(PolicyEngine::validate_capability_ceilings(&p, &ceiling).is_ok());
}

#[test]
fn wildcard_rule_under_wildcard_ceiling_stays_within() {
    let mut policy = sample_policy();
    policy.capabilities.net_http.allow[0].method = "*".to_string();
    let ceiling = CapabilitySpec {
        net_http: vec![HttpRule {
            host: "api.example.com".to_string(),
            path: "/v1/".to_string(),
            method: "*".to_string(),
        }],
        fs_read: vec![FsRule { path: "/data/".to_string() }],
        ..CapabilitySpec::default()
    };
    assert!(PolicyEngine::validate_capability_ceilings(&policy, &ceiling).is_ok());
    let get = CapabilitySpec {
        net_http: vec![HttpRule {
            host: "api.example.com".to_string(),
            path: "/v1/invoices".to_string(),
            method: "GET".to_string(),
        }],
        ..CapabilitySpec::default()
    };
    let d = PolicyEngine::evaluate(&policy, String::new(), "acme.sec", &get, false, true);
    assert_eq!(d.reason, "policy-match");
}

#[test]
fn wildcard_rule_needs_wildcard_ceiling() {
    let mut policy = sample_policy();
    policy.capabilities.net_http.allow[0].method = "*".to_string();
    let ceiling = CapabilitySpec {
        net_http: vec![HttpRule {
            host: "api.example.com".to_string(),
            path: "/v1/".to_string(),
            method: "POST".to_string(),
        }],
        fs_read: vec![FsRule { path: "/data/".to_string() }],
        ..CapabilitySpec::default()
    };
    let err = PolicyEngine::validate_capability_ceilings(&policy, &ceiling).unwrap_err();
    assert_eq!(
        err.message(),
        "policy exceeds capability ceiling: network rule outside ceiling: * api.example.com/v1/"
    );
    let mut lower = sample_policy();
    lower.capabilities.net_http.allow[0].method = "post".to_string();
    assert!(PolicyEngine::validate_capability_ceilings(&lower, &ceiling).is_ok());
}
