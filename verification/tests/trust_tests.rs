use provenclaw::host::HostError;
use provenclaw::trust::{
    default_policy_profile, ensure_policy_key_in_trust, load_or_create_policy_signing_key,
    sign_policy, TrustStore,
};

#[test]
fn policy_keys_replace_by_id() {
    let mut trust = TrustStore::initial();
    assert!(trust.policy_key("k1").is_none());
    trust.insert_policy_key("k1".to_string(), "AAAA".to_string());
    trust.insert_policy_key("k2".to_string(), "BBBB".to_string());
    trust.insert_policy_key("k1".to_string(), "CCCC".to_string());
    assert_eq!(trust.policy_keys.len(), 2);
    assert_eq!(trust.policy_key("k1").unwrap(), "CCCC");
    assert_eq!(trust.policy_key("k2").unwrap(), "BBBB");
    assert_eq!(trust.roots, vec!["local-root".to_string()]);
}

#[test]
fn policy_signing_key_is_created_then_reloaded() {
    let (created, hex) = load_or_create_policy_signing_key(None);
    let created = created.unwrap();
    let hex = hex.unwrap();
    assert_eq!(created.len(), 32);
    assert_eq!(hex.len(), 64);
    let (reloaded, again) = load_or_create_policy_signing_key(Some(&format!("{hex}\n")));
    assert!(again.is_none());
    assert_eq!(reloaded.unwrap(), created);
    let (second, _) = load_or_create_policy_signing_key(None);
    assert_ne!(second.unwrap(), created);
}

#[test]
fn policy_signing_key_errors() {
    match load_or_create_policy_signing_key(Some("abcd")).0 {
        Err(HostError::Verification(m)) => assert_eq!(m, "policy signing key must be 32 bytes"),
        _ => panic!("a short key must be refused"),
    }
    match load_or_create_policy_signing_key(Some("xyz")).0 {
        Err(HostError::Verification(m)) => {
            assert!(m.starts_with("invalid policy signing key encoding: "))
        }
        _ => panic!("a key that is no hex must be refused"),
    }
}

#[test]
fn policy_key_entry_names_the_public_key() {
    let mut trust = TrustStore::initial();
    let key_id = ensure_policy_key_in_trust(&mut trust, &[9_u8; 32]);
    assert!(key_id.starts_with("policy-ed25519:"));
    assert_eq!(key_id.len(), "policy-ed25519:".len() + 16);
    let public = trust.policy_key(&key_id).unwrap();
    assert_eq!(public.len(), 44);
    let again = ensure_policy_key_in_trust(&mut trust, &[9_u8; 32]);
    assert_eq!(again, key_id);
    assert_eq!(trust.policy_keys.len(), 1);
}

#[test]
fn default_policy_and_its_signature() {
    let policy = default_policy_profile();
    assert_eq!(policy.allowed_signers, vec!["acme.sec".to_string()]);
    assert_eq!(policy.capabilities.net_http.allow[0].method, "POST");
    assert!(policy.signature.is_none());
    let signed = sign_policy(policy, "policy-ed25519:abc", &[9_u8; 32], b"payload");
    let sig = signed.signature.unwrap();
    assert_eq!(sig.key_id, "policy-ed25519:abc");
    assert_eq!(sig.algorithm, "ed25519");
    assert_eq!(sig.signature.len(), 88);
}
