use provenclaw::control_plane::{
    required_roles, AuthnHook, AuthnScheme, AuthorizationAction, AuthorizationDecision,
    AuthorizationRequest, AuthzHook, ControlPlane, ControlPlaneEndpoint, ControlPlaneError,
    ControlPlaneHealth, ControlPlaneMode, ControlPlaneProfile, LocalControlPlane, SubjectContext,
    TransportKind,
};
use provenclaw::model::EnforcementMode;

fn subject_with_roles(roles: &[&str]) -> SubjectContext {
    SubjectContext::new(
        "alice".to_string(),
        roles.iter().map(|role| role.to_string()).collect(),
        AuthnScheme::LocalSharedToken,
        Vec::new(),
    )
}

fn profile_with(transport: TransportKind, address: &str) -> ControlPlaneProfile {
    ControlPlaneProfile {
        mode: ControlPlaneMode::RemoteOnly,
        endpoint: ControlPlaneEndpoint {
            transport,
            address: address.to_string(),
            audience: Some("provenclaw-host".to_string()),
        },
        authn: AuthnHook::default(),
        authz: AuthzHook::default(),
        host_enforcement_mode: EnforcementMode::Warn,
    }
}

#[test]
fn local_profile_defaults_to_in_process_transport() {
    let plane = LocalControlPlane::for_local_host(EnforcementMode::Warn);
    let profile = plane.profile();
    assert_eq!(profile.mode, ControlPlaneMode::LocalOnly);
    assert_eq!(profile.endpoint.transport, TransportKind::InProcess);
    assert_eq!(profile.endpoint.address, "in-process");
}

#[test]
fn authorize_denies_when_subject_lacks_role() {
    let plane = LocalControlPlane::for_local_host(EnforcementMode::Warn);
    let request = AuthorizationRequest {
        subject: subject_with_roles(&["operator"]),
        action: AuthorizationAction::ManageTrust,
        resource: None,
        reason: None,
    };

    let response = plane.authorize(&request).unwrap();
    assert_eq!(response.decision, AuthorizationDecision::Deny);
    assert_eq!(response.reason_code, "authz.role-mismatch");
}

#[test]
fn authorize_allows_when_subject_has_required_role() {
    let plane = LocalControlPlane::for_local_host(EnforcementMode::Warn);
    let request = AuthorizationRequest {
        subject: subject_with_roles(&["security-admin"]),
        action: AuthorizationAction::SetEnforcementMode,
        resource: None,
        reason: None,
    };

    let response = plane.authorize(&request).unwrap();
    assert_eq!(response.decision, AuthorizationDecision::Allow);
}

#[test]
fn endpoint_validation_rejects_non_loopback_http() {
    let profile = profile_with(TransportKind::LoopbackHttp, "10.0.0.4:7447");
    let err = LocalControlPlane::with_profile(profile).unwrap_err();
    assert!(err.message().contains("loopback HTTP"));
}

#[test]
fn authorize_requires_a_subject_id() {
    let plane = LocalControlPlane::for_local_host(EnforcementMode::Enforce);
    let mut subject = subject_with_roles(&["security-admin"]);
    subject.subject_id = "   ".to_string();
    let request = AuthorizationRequest {
        subject,
        action: AuthorizationAction::RunTool,
        resource: None,
        reason: None,
    };
    match plane.authorize(&request) {
        Err(ControlPlaneError::InvalidRequest(m)) => assert_eq!(m, "subject_id is required"),
        _ => panic!("a blank subject must be refused"),
    }
}

#[test]
fn operators_and_auditors_may_read_but_not_govern() {
    let plane = LocalControlPlane::for_local_host(EnforcementMode::Warn);
    for role in ["operator", "auditor"] {
        let read = AuthorizationRequest {
            subject: subject_with_roles(&[role]),
            action: AuthorizationAction::ReadReceipts,
            resource: None,
            reason: None,
        };
        let response = plane.authorize(&read).unwrap();
        assert_eq!(response.decision, AuthorizationDecision::Allow);
        assert_eq!(response.reason_code, "authz.role-match");
        let govern = AuthorizationRequest {
            subject: subject_with_roles(&[role]),
            action: AuthorizationAction::ManagePolicy,
            resource: None,
            reason: None,
        };
        let response = plane.authorize(&govern).unwrap();
        assert_eq!(response.decision, AuthorizationDecision::Deny);
        assert_eq!(response.remediation_hint, "grant one of required roles: security-admin");
    }
}

#[test]
fn required_roles_by_action() {
    assert_eq!(required_roles(AuthorizationAction::ManageTrust), vec!["security-admin"]);
    assert_eq!(
        required_roles(AuthorizationAction::TailAudit),
        vec!["operator", "auditor", "security-admin"]
    );
}

#[test]
fn endpoint_rules_per_transport() {
    assert!(profile_with(TransportKind::LoopbackHttp, "127.0.0.1:7447").endpoint.validate().is_ok());
    assert!(profile_with(TransportKind::LoopbackHttp, "localhost:7447").endpoint.validate().is_ok());
    assert!(profile_with(TransportKind::InProcess, "IN-PROCESS").endpoint.validate().is_ok());
    let err = profile_with(TransportKind::InProcess, "elsewhere").endpoint.validate().unwrap_err();
    assert_eq!(
        err.message(),
        "unsupported transport endpoint: in-process transport requires address=in-process"
    );
    assert!(profile_with(TransportKind::UnixSocket, "/run/provenclaw.sock").endpoint.validate().is_ok());
    assert!(profile_with(TransportKind::UnixSocket, "run/provenclaw.sock").endpoint.validate().is_err());
    assert!(profile_with(TransportKind::MtlsHttps, "https://cp.example.com").endpoint.validate().is_ok());
    assert!(profile_with(TransportKind::MtlsHttps, "http://cp.example.com").endpoint.validate().is_err());
}

#[test]
fn local_plane_reports_ready() {
    let plane = LocalControlPlane::for_local_host(EnforcementMode::Enforce);
    assert_eq!(plane.health(), ControlPlaneHealth::Ready);
    assert_eq!(plane.profile().host_enforcement_mode, EnforcementMode::Enforce);
}

#[test]
fn subject_roles_and_scopes_are_sets() {
    let s = SubjectContext::new(
        "bob".to_string(),
        vec!["operator".to_string(), "auditor".to_string(), "operator".to_string()],
        AuthnScheme::LocalSharedToken,
        vec!["b".to_string(), "a".to_string(), "b".to_string(), "c".to_string()],
    );
    assert_eq!(s.subject_id, "bob");
    assert_eq!(s.roles, vec!["auditor".to_string(), "operator".to_string()]);
    assert_eq!(s.scopes, vec!["a".to_string(), "b".to_string(), "c".to_string()]);
}

