use provenclaw::api::{is_local_bind_address, LocalAuthConfig};

#[test]
fn localhost_guard_accepts_loopback() {
    assert!(is_local_bind_address("127.0.0.1:7447"));
    assert!(is_local_bind_address("localhost:7447"));
    assert!(!is_local_bind_address("0.0.0.0:7447"));
}

#[test]
fn local_auth_config_defaults_to_loopback() {
    let config = LocalAuthConfig::default();
    assert_eq!(config.bind_addr, "127.0.0.1:7447");
    assert_eq!(config.shared_token, "change-me");
    assert!(is_local_bind_address(&config.bind_addr));
}

#[test]
fn localhost_guard_is_a_prefix_test() {
    assert!(is_local_bind_address("127.0.0.1"));
    assert!(is_local_bind_address("localhost"));
    assert!(!is_local_bind_address(""));
    assert!(!is_local_bind_address("127.0.0.2:7447"));
    assert!(!is_local_bind_address(" localhost:7447"));
}
