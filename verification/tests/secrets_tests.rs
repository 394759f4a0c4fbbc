use provenclaw::secrets::{
    default_provider_status, LinuxSecretServiceProvider, MacOsKeychainProvider, SecretError,
    SecretProvider, SoftwareFallbackProvider,
};

#[test]
fn fallback_is_used_when_no_backend_answers() {
    let status = default_provider_status(
        &MacOsKeychainProvider::new(false),
        &LinuxSecretServiceProvider::new(false),
    );
    assert_eq!(status.backend, "software-fallback");
    assert!(status.available);
    assert!(status.degraded);
    assert_eq!(status.detail, "software fallback is active");
}

#[test]
fn keychain_wins_over_secret_service() {
    let status = default_provider_status(
        &MacOsKeychainProvider::new(true),
        &LinuxSecretServiceProvider::new(true),
    );
    assert_eq!(status.backend, "macos-keychain");
    assert!(!status.degraded);
    let status = default_provider_status(
        &MacOsKeychainProvider::new(false),
        &LinuxSecretServiceProvider::new(true),
    );
    assert_eq!(status.backend, "linux-secret-service");
    assert_eq!(status.detail, "secret-tool available");
}

#[test]
fn handles_only_from_available_backends() {
    assert_eq!(
        SoftwareFallbackProvider.get_handle("db").unwrap(),
        "secret://software-fallback/db"
    );
    assert_eq!(
        MacOsKeychainProvider::new(true).get_handle("db").unwrap(),
        "secret://macos-keychain/db"
    );
    match LinuxSecretServiceProvider::new(false).get_handle("db") {
        Err(SecretError::Unavailable(m)) => {
            assert_eq!(m, "Linux secret service backend unavailable")
        }
        Ok(_) => panic!("an unavailable backend must refuse"),
    }
    let err = MacOsKeychainProvider::new(false).get_handle("db").unwrap_err();
    assert_eq!(err.message(), "secret backend unavailable: macOS keychain backend unavailable");
}
