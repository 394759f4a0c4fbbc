use provenclaw::model::{CapabilitySpec, FsRule, HttpRule};
use provenclaw::runtime::{
    classify_run_failure, output_over_limit, path_has_parent_traversal, path_is_sandbox_safe,
    bundle_present, required_bundle_path, runtime_error_code, RuntimeError, WasiLikeExecutor,
};

/// A new host's configuration keeps the network off.
const NETWORK_ENABLED: bool = false;

#[test]
fn denies_read_only_fs_write() {
    let executor = WasiLikeExecutor;
    let requested = CapabilitySpec {
        fs_write: vec![FsRule { path: "/data/out.json".to_string() }],
        ..CapabilitySpec::default()
    };

    let err = executor.preflight(&requested, true, NETWORK_ENABLED).unwrap_err();
    assert!(err.message().contains("read-only"));
}

#[test]
fn denies_network_when_disabled() {
    let executor = WasiLikeExecutor;
    let requested = CapabilitySpec {
        net_http: vec![HttpRule {
            host: "api.example.com".to_string(),
            path: "/v1".to_string(),
            method: "POST".to_string(),
        }],
        ..CapabilitySpec::default()
    };

    let err = executor.preflight(&requested, false, NETWORK_ENABLED).unwrap_err();
    assert!(err.message().contains("network is disabled"));
}

#[test]
fn denies_unsafe_filesystem_path() {
    let executor = WasiLikeExecutor;
    let requested = CapabilitySpec {
        fs_read: vec![FsRule { path: "../etc/passwd".to_string() }],
        ..CapabilitySpec::default()
    };

    let err = executor.preflight(&requested, false, NETWORK_ENABLED).unwrap_err();
    assert!(err.message().contains("outside sandbox constraints"));
}

#[test]
fn preflight_refusals_in_order() {
    let executor = WasiLikeExecutor;
    let random = CapabilitySpec { randomness: true, ..CapabilitySpec::default() };
    assert_eq!(
        executor.preflight(&random, false, true).unwrap_err().message(),
        "capability denied at runtime boundary: randomness denied in runtime boundary"
    );
    let secrets = CapabilitySpec { secrets_materialize: true, ..CapabilitySpec::default() };
    assert_eq!(
        executor.preflight(&secrets, false, true).unwrap_err().message(),
        "capability denied at runtime boundary: secret materialization denied in runtime boundary"
    );
    let write = CapabilitySpec {
        fs_write: vec![FsRule { path: "/data/../etc".to_string() }],
        ..CapabilitySpec::default()
    };
    assert_eq!(
        executor.preflight(&write, false, true).unwrap_err().message(),
        "capability denied at runtime boundary: fs.write path is outside sandbox constraints: /data/../etc"
    );
    let fine = CapabilitySpec {
        fs_read: vec![FsRule { path: "/data/in.json".to_string() }],
        net_http: vec![HttpRule {
            host: "api.example.com".to_string(),
            path: "/v1".to_string(),
            method: "POST".to_string(),
        }],
        ..CapabilitySpec::default()
    };
    assert!(executor.preflight(&fine, false, true).is_ok());
}

#[test]
fn sandbox_paths() {
    assert!(path_is_sandbox_safe("/data/a.json"));
    assert!(path_is_sandbox_safe("/data/..hidden"));
    assert!(!path_is_sandbox_safe("data/a.json"));
    assert!(!path_is_sandbox_safe("/data/../etc"));
    assert!(!path_is_sandbox_safe("/data\\..\\etc"));
    assert!(path_has_parent_traversal(".."));
    assert!(path_has_parent_traversal("a/.."));
    assert!(!path_has_parent_traversal("a/..b/c"));
    assert!(!path_has_parent_traversal(""));
}

#[test]
fn run_failures_are_classified() {
    assert!(matches!(classify_run_failure("Execution TIMEOUT after 5s"), RuntimeError::Timeout));
    match classify_run_failure("  trap: unreachable \n") {
        RuntimeError::Execution(m) => assert_eq!(m, "provenact run failed: trap: unreachable"),
        _ => panic!("expected an execution error"),
    }
    assert_eq!(runtime_error_code(&RuntimeError::Timeout), "timeout");
    assert_eq!(runtime_error_code(&RuntimeError::OutputLimit), "output_limit");
    assert_eq!(runtime_error_code(&RuntimeError::CapabilityDenied(String::new())), "capability_denied");
    assert_eq!(runtime_error_code(&RuntimeError::Execution(String::new())), "execution_error");
    assert_eq!(RuntimeError::OutputLimit.message(), "runtime output exceeded configured limit");
    assert_eq!(RuntimeError::Timeout.message(), "runtime timeout exceeded");
    assert!(output_over_limit(11, 10));
    assert!(!output_over_limit(10, 10));
}

#[test]
fn secure_execution_needs_a_bundle() {
    assert_eq!(required_bundle_path(&Some("/b.wasm".to_string())).unwrap(), "/b.wasm");
    let err = required_bundle_path(&None).unwrap_err();
    assert_eq!(err.message(), "runtime execution error: bundle path is required for secure execution");
}

#[test]
fn missing_bundle_file_is_an_execution_error() {
    assert!(bundle_present("/b.wasm", true).is_ok());
    let err = bundle_present("/b.wasm", false).unwrap_err();
    assert_eq!(err.message(), "runtime execution error: bundle path does not exist: /b.wasm");
}
