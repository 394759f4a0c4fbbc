//! The contract between the host and a control plane: transports and their
//! endpoint rules, authentication and authorization hooks, and role-based
//! authorization of governance actions.
use vstd::prelude::*;
use crate::model::{EnforcementMode, copy_opt_string};
use crate::text::{
    eq_ignore_ascii_case, eq_ignore_case, is_blank, is_blank_str, lemma_seq_lt_irreflexive,
    lemma_seq_lt_total, lemma_seq_lt_transitive, push_str, seq_lt, starts_with, starts_with_char,
    str_eq, str_lt, string_of,
};

verus! {

/// Why a control-plane operation failed.
#[derive(Debug, Clone)]
pub enum ControlPlaneError {
    InvalidRequest(String),
    UnsupportedTransport(String),
    Unauthorized(String),
}

/// The message of an error, as it is displayed.
pub open spec fn control_plane_error_text(e: ControlPlaneError) -> Seq<char> {
    match e {
        ControlPlaneError::InvalidRequest(m) => "invalid request: "@ + m@,
        ControlPlaneError::UnsupportedTransport(m) => "unsupported transport endpoint: "@ + m@,
        ControlPlaneError::Unauthorized(m) => "authorization denied: "@ + m@,
    }
}

impl ControlPlaneError {
    /// The message of the error, as it is displayed.
    pub fn message(&self) -> (res: String)
        ensures
            res@ == control_plane_error_text(*self),
    {
        match self {
            ControlPlaneError::InvalidRequest(m) => {
                let mut s = string_of("invalid request: ");
                push_str(&mut s, m.as_str());
                s
            },
            ControlPlaneError::UnsupportedTransport(m) => {
                let mut s = string_of("unsupported transport endpoint: ");
                push_str(&mut s, m.as_str());
                s
            },
            ControlPlaneError::Unauthorized(m) => {
                let mut s = string_of("authorization denied: ");
                push_str(&mut s, m.as_str());
                s
            },
        }
    }
}

/// Where the control plane runs.
#[derive(Debug, Clone, Copy, PartialEq, Eq, Structural)]
pub enum ControlPlaneMode {
    LocalOnly,
    Hybrid,
    RemoteOnly,
}

impl Default for ControlPlaneMode {
    fn default() -> (res: Self)
        ensures
            res == ControlPlaneMode::LocalOnly,
    {
        ControlPlaneMode::LocalOnly
    }
}

/// How the host reaches the control plane, from the softest boundary to
/// the hardest.
#[derive(Debug, Clone, Copy, PartialEq, Eq, Structural)]
pub enum TransportKind {
    InProcess,
    UnixSocket,
    LoopbackHttp,
    MtlsHttps,
}

/// How callers authenticate.
#[derive(Debug, Clone, Copy, PartialEq, Eq, Structural)]
pub enum AuthnScheme {
    LocalSharedToken,
    OidcBearer,
    MutualTls,
    WorkloadIdentity,
}

/// Whether a hook runs, and where.
#[derive(Debug, Clone, Copy, PartialEq, Eq, Structural)]
pub enum HookMode {
    Disabled,
    Local,
    External,
}

/// The authentication hook.
#[derive(Debug, Clone)]
pub struct AuthnHook {
    pub mode: HookMode,
    pub accepted_schemes: Vec<AuthnScheme>,
    pub audience: Option<String>,
}

impl Default for AuthnHook {
    fn default() -> (res: Self)
        ensures
            res.mode == HookMode::Local,
            res.accepted_schemes@ == seq![AuthnScheme::LocalSharedToken],
            res.audience is None,
    {
        let mut schemes: Vec<AuthnScheme> = Vec::new();
        schemes.push(AuthnScheme::LocalSharedToken);
        AuthnHook { mode: HookMode::Local, accepted_schemes: schemes, audience: None }
    }
}

impl AuthnHook {
    /// A copy of the hook.
    pub fn copy(&self) -> (res: AuthnHook)
        ensures
            res.mode == self.mode,
            res.accepted_schemes@ == self.accepted_schemes@,
            res.audience == self.audience,
    {
        let mut schemes: Vec<AuthnScheme> = Vec::new();
        let n = self.accepted_schemes.len();
        let mut i: usize = 0;
        while i < n
            invariant
                n == self.accepted_schemes@.len(),
                i <= n,
                schemes@ == self.accepted_schemes@.subrange(0, i as int),
            decreases n - i,
        {
            schemes.push(self.accepted_schemes[i]);
            assert(schemes@ =~= self.accepted_schemes@.subrange(0, i + 1));
            i = i + 1;
        }
        assert(schemes@ =~= self.accepted_schemes@);
        AuthnHook {
            mode: self.mode,
            accepted_schemes: schemes,
            audience: copy_opt_string(&self.audience),
        }
    }
}

/// The authorization hook.
#[derive(Debug, Clone)]
pub struct AuthzHook {
    pub mode: HookMode,
    pub policy_source: String,
}

impl Default for AuthzHook {
    fn default() -> (res: Self)
        ensures
            res.mode == HookMode::Local,
            res.policy_source@ == "embedded-rbac"@,
    {
        AuthzHook { mode: HookMode::Local, policy_source: string_of("embedded-rbac") }
    }
}

/// Where the control plane is reached.
#[derive(Debug, Clone)]
pub struct ControlPlaneEndpoint {
    pub transport: TransportKind,
    pub address: String,
    pub audience: Option<String>,
}

/// What is wrong with an endpoint, if anything: in-process needs the address
/// `in-process` (any ASCII case), loopback HTTP a `127.0.0.1:` or
/// `localhost:` address, a unix socket an absolute path, mTLS an
/// `https://` address.
pub open spec fn spec_endpoint_error(e: ControlPlaneEndpoint) -> Option<Seq<char>> {
    match e.transport {
        TransportKind::InProcess => if eq_ignore_case(e.address@, "in-process"@) {
            None
        } else {
            Some("in-process transport requires address=in-process"@)
        },
        TransportKind::LoopbackHttp => if "127.0.0.1:"@.is_prefix_of(e.address@)
            || "localhost:"@.is_prefix_of(e.address@) {
            None
        } else {
            Some("loopback HTTP transport requires localhost/127.0.0.1"@)
        },
        TransportKind::UnixSocket => if e.address@.len() > 0 && e.address@[0] == '/' {
            None
        } else {
            Some("unix socket transport requires absolute path"@)
        },
        TransportKind::MtlsHttps => if "https://"@.is_prefix_of(e.address@) {
            None
        } else {
            Some("mTLS HTTPS transport requires https:// endpoint"@)
        },
    }
}

impl ControlPlaneEndpoint {
    /// Checks the address against the transport.
    pub fn validate(&self) -> (res: Result<(), ControlPlaneError>)
        ensures
            match spec_endpoint_error(*self) {
                None => res is Ok,
                Some(msg) => res matches Err(ControlPlaneError::UnsupportedTransport(m)) && m@
                    == msg,
            },
    {
        match self.transport {
            TransportKind::InProcess => {
                if !eq_ignore_ascii_case(self.address.as_str(), "in-process") {
                    return Err(
                        ControlPlaneError::UnsupportedTransport(
                            string_of("in-process transport requires address=in-process"),
                        ),
                    );
                }
            },
            TransportKind::LoopbackHttp => {
                if !(starts_with(self.address.as_str(), "127.0.0.1:") || starts_with(
                    self.address.as_str(),
                    "localhost:",
                )) {
                    return Err(
                        ControlPlaneError::UnsupportedTransport(
                            string_of("loopback HTTP transport requires localhost/127.0.0.1"),
                        ),
                    );
                }
            },
            TransportKind::UnixSocket => {
                if !starts_with_char(self.address.as_str(), '/') {
                    return Err(
                        ControlPlaneError::UnsupportedTransport(
                            string_of("unix socket transport requires absolute path"),
                        ),
                    );
                }
            },
            TransportKind::MtlsHttps => {
                if !starts_with(self.address.as_str(), "https://") {
                    return Err(
                        ControlPlaneError::UnsupportedTransport(
                            string_of("mTLS HTTPS transport requires https:// endpoint"),
                        ),
                    );
                }
            },
        }
        Ok(())
    }

    /// A copy of the endpoint.
    pub fn copy(&self) -> (res: ControlPlaneEndpoint)
        ensures
            res == *self,
    {
        ControlPlaneEndpoint {
            transport: self.transport,
            address: self.address.clone(),
            audience: copy_opt_string(&self.audience),
        }
    }
}

/// The control plane's profile.
#[derive(Debug, Clone)]
pub struct ControlPlaneProfile {
    pub mode: ControlPlaneMode,
    pub endpoint: ControlPlaneEndpoint,
    pub authn: AuthnHook,
    pub authz: AuthzHook,
    pub host_enforcement_mode: EnforcementMode,
}

impl ControlPlaneProfile {
    /// The two profiles hold the same settings.
    pub open spec fn same_as(self, other: ControlPlaneProfile) -> bool {
        &&& self.mode == other.mode
        &&& self.endpoint == other.endpoint
        &&& self.authn.mode == other.authn.mode
        &&& self.authn.accepted_schemes@ == other.authn.accepted_schemes@
        &&& self.authn.audience == other.authn.audience
        &&& self.authz == other.authz
        &&& self.host_enforcement_mode == other.host_enforcement_mode
    }

    /// A copy of the profile.
    pub fn copy(&self) -> (res: ControlPlaneProfile)
        ensures
            res.same_as(*self),
    {
        ControlPlaneProfile {
            mode: self.mode,
            endpoint: self.endpoint.copy(),
            authn: self.authn.copy(),
            authz: AuthzHook { mode: self.authz.mode, policy_source: self.authz.policy_source.clone() },
            host_enforcement_mode: self.host_enforcement_mode,
        }
    }
}

/// How the control plane is doing.
#[derive(Debug, Clone, Copy, PartialEq, Eq, Structural)]
pub enum ControlPlaneHealth {
    Ready,
    Degraded,
    Unavailable,
}

/// Who asks: an id, a set of roles, how they authenticated and their
/// scopes. Roles and scopes are sets: order and repetition carry no meaning.
#[derive(Debug, Clone)]
pub struct SubjectContext {
    pub subject_id: String,
    pub roles: Vec<String>,
    pub authn_scheme: AuthnScheme,
    pub scopes: Vec<String>,
}

/// A list that holds a set of texts: in `String` order, no text twice.
pub open spec fn is_text_set(list: Seq<String>) -> bool {
    forall|i: int, j: int| 0 <= i < j < list.len() ==> seq_lt((#[trigger] list[i])@, (#[trigger] list[j])@)
}

/// The list holds the text.
pub open spec fn holds_text(list: Seq<String>, text: Seq<char>) -> bool {
    exists|i: int| 0 <= i < list.len() && (#[trigger] list[i])@ == text
}

/// Adds a text to a set of texts, at its place in `String` order, unless
/// the set holds it already.
fn insert_text(set: &mut Vec<String>, text: &str)
    requires
        is_text_set(old(set)@),
    ensures
        is_text_set(final(set)@),
        forall|t: Seq<char>| holds_text(final(set)@, t) <==> (holds_text(old(set)@, t) || t == text@),
{
    let n = set.len();
    let mut i: usize = 0;
    while i < n && str_lt(set[i].as_str(), text)
        invariant
            n == set@.len(),
            i <= n,
            forall|j: int| 0 <= j < i ==> seq_lt((#[trigger] set@[j])@, text@),
        decreases n - i,
    {
        i = i + 1;
    }
    if i < n && str_eq(set[i].as_str(), text) {
        assert(holds_text(set@, text@));
        return;
    }
    let ghost before = set@;
    let s = string_of(text);
    set.insert(i, s);
    proof {
        if i < n {
            lemma_seq_lt_total(before[i as int]@, text@);
        }
        assert forall|a: int, b: int| 0 <= a < b < set@.len() implies seq_lt(
            (#[trigger] set@[a])@,
            (#[trigger] set@[b])@,
        ) by {
            if b == i {
                assert(set@[a] == before[a]);
            } else if a == i {
                assert(set@[b] == before[b - 1]);
                if b - 1 > i {
                    lemma_seq_lt_transitive(text@, before[i as int]@, before[b - 1]@);
                }
            } else if a < i && b > i {
                assert(set@[a] == before[a]);
                assert(set@[b] == before[b - 1]);
                if i < n {
                    assert(seq_lt(text@, before[i as int]@));
                    lemma_seq_lt_transitive(before[a]@, text@, before[i as int]@);
                    if b - 1 > i {
                        lemma_seq_lt_transitive(before[a]@, before[i as int]@, before[b - 1]@);
                    }
                }
            } else if b < i {
                assert(set@[a] == before[a]);
                assert(set@[b] == before[b]);
            } else {
                assert(set@[a] == before[a - 1]);
                assert(set@[b] == before[b - 1]);
            }
        }
        assert forall|t: Seq<char>| holds_text(set@, t) <==> (holds_text(before, t) || t == text@) by {
            if holds_text(set@, t) {
                let k = choose|k: int| 0 <= k < set@.len() && (#[trigger] set@[k])@ == t;
                if k < i {
                    assert(set@[k] == before[k]);
                } else if k > i {
                    assert(set@[k] == before[k - 1]);
                }
            }
            if holds_text(before, t) {
                let k = choose|k: int| 0 <= k < before.len() && (#[trigger] before[k])@ == t;
                if k < i {
                    assert(set@[k] == before[k]);
                } else {
                    assert(set@[k + 1] == before[k]);
                }
            }
            if t == text@ {
                assert(set@[i as int]@ == t);
            }
        }
        assert(forall|t: Seq<char>| holds_text(set@, t) <==> (holds_text(old(set)@, t) || t == text@));
    }
}

/// The set of the texts in a list.
fn text_set_of(list: Vec<String>) -> (res: Vec<String>)
    ensures
        is_text_set(res@),
        forall|t: Seq<char>| holds_text(res@, t) <==> holds_text(list@, t),
{
    let mut res: Vec<String> = Vec::new();
    let n = list.len();
    let mut i: usize = 0;
    while i < n
        invariant
            n == list@.len(),
            i <= n,
            is_text_set(res@),
            forall|t: Seq<char>| holds_text(res@, t) <==> holds_text(list@.take(i as int), t),
        decreases n - i,
    {
        insert_text(&mut res, list[i].as_str());
        proof {
            assert forall|t: Seq<char>| holds_text(res@, t) <==> holds_text(list@.take(i + 1), t) by {
                let next = list@.take(i + 1);
                let prev = list@.take(i as int);
                if holds_text(next, t) {
                    let k = choose|k: int| 0 <= k < next.len() && (#[trigger] next[k])@ == t;
                    if k < i {
                        assert(prev[k] == next[k]);
                    }
                }
                if holds_text(prev, t) {
                    let k = choose|k: int| 0 <= k < prev.len() && (#[trigger] prev[k])@ == t;
                    assert(next[k] == prev[k]);
                }
                if t == list@[i as int]@ {
                    assert(next[i as int] == list@[i as int]);
                }
            }
        }
        i = i + 1;
    }
    assert(list@.take(n as int) =~= list@);
    res
}

impl SubjectContext {
    /// Roles and scopes are each held as a set of texts.
    pub open spec fn well_formed(&self) -> bool {
        is_text_set(self.roles@) && is_text_set(self.scopes@)
    }

    /// A subject whose roles and scopes are the sets of the texts given.
    pub fn new(
        subject_id: String,
        roles: Vec<String>,
        authn_scheme: AuthnScheme,
        scopes: Vec<String>,
    ) -> (res: Self)
        ensures
            res.well_formed(),
            res.subject_id@ == subject_id@,
            res.authn_scheme == authn_scheme,
            forall|t: Seq<char>| holds_text(res.roles@, t) <==> holds_text(roles@, t),
            forall|t: Seq<char>| holds_text(res.scopes@, t) <==> holds_text(scopes@, t),
    {
        SubjectContext {
            subject_id,
            roles: text_set_of(roles),
            authn_scheme,
            scopes: text_set_of(scopes),
        }
    }
}

/// A governance action.
#[derive(Debug, Clone, Copy, PartialEq, Eq, Structural)]
pub enum AuthorizationAction {
    RunTool,
    ReadReceipts,
    VerifyReceipts,
    TailAudit,
    ExportDiagnostics,
    ManagePolicy,
    ManageTrust,
    SetEnforcementMode,
}

/// What the action is about.
#[derive(Debug, Clone)]
pub struct ResourceContext {
    pub resource_kind: String,
    pub resource_id: String,
}

/// A request to authorize an action.
#[derive(Debug, Clone)]
pub struct AuthorizationRequest {
    pub subject: SubjectContext,
    pub action: AuthorizationAction,
    pub resource: Option<ResourceContext>,
    pub reason: Option<String>,
}

/// Allow or deny.
#[derive(Debug, Clone, Copy, PartialEq, Eq, Structural)]
pub enum AuthorizationDecision {
    Allow,
    Deny,
}

/// The answer to an authorization request.
#[derive(Debug, Clone)]
pub struct AuthorizationResponse {
    pub decision: AuthorizationDecision,
    pub reason_code: String,
    pub remediation_hint: String,
}

/// A request to the control plane.
#[derive(Debug, Clone)]
pub enum ControlPlaneRequest {
    Health,
    Profile,
    Authorize(AuthorizationRequest),
}

/// The answer of the control plane.
#[derive(Debug, Clone)]
pub enum ControlPlaneResponse {
    Health(ControlPlaneHealth),
    Profile(ControlPlaneProfile),
    Authorize(AuthorizationResponse),
}

/// The roles of which one is needed for an action: any of operator,
/// auditor or security-admin for running and reading; security-admin
/// alone for managing policy, trust and the enforcement mode.
pub open spec fn spec_required_roles(action: AuthorizationAction) -> Seq<Seq<char>> {
    match action {
        AuthorizationAction::ManagePolicy | AuthorizationAction::ManageTrust
        | AuthorizationAction::SetEnforcementMode => seq!["security-admin"@],
        _ => seq!["operator"@, "auditor"@, "security-admin"@],
    }
}

/// The roles of which one is needed for an action.
pub fn required_roles(action: AuthorizationAction) -> (res: Vec<&'static str>)
    ensures
        res@.len() == spec_required_roles(action).len(),
        forall|i: int| 0 <= i < res@.len() ==> (#[trigger] res@[i])@ == spec_required_roles(action)[i],
{
    let mut roles: Vec<&'static str> = Vec::new();
    match action {
        AuthorizationAction::ManagePolicy | AuthorizationAction::ManageTrust
        | AuthorizationAction::SetEnforcementMode => {
            roles.push("security-admin");
        },
        _ => {
            roles.push("operator");
            roles.push("auditor");
            roles.push("security-admin");
        },
    }
    roles
}

/// The subject holds the role.
pub open spec fn has_role(subject: SubjectContext, role: Seq<char>) -> bool {
    exists|i: int| 0 <= i < subject.roles@.len() && subject.roles@[i]@ == role
}

/// The subject holds one of the roles the action needs.
pub open spec fn has_required_role(subject: SubjectContext, action: AuthorizationAction) -> bool {
    exists|r: int| 0 <= r < spec_required_roles(action).len() && has_role(subject, spec_required_roles(action)[r])
}

/// The outcome of an authorization: a decision with its reason code and
/// remediation hint, or an invalid request with its message.
pub enum AuthorizationOutcome {
    Decided(AuthorizationDecision, Seq<char>, Seq<char>),
    Invalid(Seq<char>),
}

/// How the local control plane answers: a blank subject id is an invalid
/// request; a subject with a required role is allowed; any other is denied
/// with a hint that lists the required roles.
pub open spec fn spec_local_authorize(request: AuthorizationRequest) -> AuthorizationOutcome {
    if is_blank(request.subject.subject_id@) {
        AuthorizationOutcome::Invalid("subject_id is required"@)
    } else if has_required_role(request.subject, request.action) {
        AuthorizationOutcome::Decided(AuthorizationDecision::Allow, "authz.role-match"@, "none"@)
    } else {
        AuthorizationOutcome::Decided(
            AuthorizationDecision::Deny,
            "authz.role-mismatch"@,
            "grant one of required roles: "@ + match request.action {
                AuthorizationAction::ManagePolicy | AuthorizationAction::ManageTrust
                | AuthorizationAction::SetEnforcementMode => "security-admin"@,
                _ => "operator,auditor,security-admin"@,
            },
        )
    }
}

/// The result of an authorization agrees with an outcome.
pub open spec fn authorization_matches(
    res: Result<AuthorizationResponse, ControlPlaneError>,
    outcome: AuthorizationOutcome,
) -> bool {
    match outcome {
        AuthorizationOutcome::Decided(d, code, hint) => res matches Ok(r) && r.decision == d
            && r.reason_code@ == code && r.remediation_hint@ == hint,
        AuthorizationOutcome::Invalid(msg) => res matches Err(ControlPlaneError::InvalidRequest(m))
            && m@ == msg,
    }
}

/// A control plane: its profile, its health, and authorization.
pub trait ControlPlane {
    /// The profile this control plane reports.
    spec fn spec_profile(&self) -> ControlPlaneProfile;

    /// The health this control plane reports.
    spec fn spec_health(&self) -> ControlPlaneHealth;

    /// How this control plane answers an authorization request.
    spec fn spec_authorize(&self, request: AuthorizationRequest) -> AuthorizationOutcome;

    fn profile(&self) -> (res: ControlPlaneProfile)
        ensures
            res.same_as(self.spec_profile()),
    ;

    fn health(&self) -> (res: ControlPlaneHealth)
        ensures
            res == self.spec_health(),
    ;

    fn authorize(&self, request: &AuthorizationRequest) -> (res: Result<
        AuthorizationResponse,
        ControlPlaneError,
    >)
        ensures
            authorization_matches(res, self.spec_authorize(*request)),
    ;

    /// Answers a request by the method it names.
    fn execute(&self, request: ControlPlaneRequest) -> (res: Result<
        ControlPlaneResponse,
        ControlPlaneError,
    >)
        ensures
            request is Health ==> (res matches Ok(ControlPlaneResponse::Health(h)) && h
                == self.spec_health()),
            request is Profile ==> (res matches Ok(ControlPlaneResponse::Profile(p)) && p.same_as(
                self.spec_profile(),
            )),
            request matches ControlPlaneRequest::Authorize(a) ==> match self.spec_authorize(a) {
                AuthorizationOutcome::Decided(d, code, hint) => res matches Ok(
                    ControlPlaneResponse::Authorize(r),
                ) && r.decision == d && r.reason_code@ == code && r.remediation_hint@ == hint,
                AuthorizationOutcome::Invalid(msg) => res matches Err(
                    ControlPlaneError::InvalidRequest(m),
                ) && m@ == msg,
            },
    {
        match request {
            ControlPlaneRequest::Health => Ok(ControlPlaneResponse::Health(self.health())),
            ControlPlaneRequest::Profile => Ok(ControlPlaneResponse::Profile(self.profile())),
            ControlPlaneRequest::Authorize(request) => {
                let r = self.authorize(&request)?;
                Ok(ControlPlaneResponse::Authorize(r))
            },
        }
    }
}

/// The profile of a local host's control plane: local only, in process at
/// the address `in-process` with no audience, local authentication by shared
/// token with no audience, local authorization by the embedded role rules,
/// and the host's enforcement mode.
pub open spec fn is_local_profile(p: ControlPlaneProfile, enforcement_mode: EnforcementMode) -> bool {
    &&& p.mode == ControlPlaneMode::LocalOnly
    &&& p.endpoint.transport == TransportKind::InProcess
    &&& p.endpoint.address@ == "in-process"@
    &&& p.endpoint.audience is None
    &&& p.authn.mode == HookMode::Local
    &&& p.authn.accepted_schemes@ == seq![AuthnScheme::LocalSharedToken]
    &&& p.authn.audience is None
    &&& p.authz.mode == HookMode::Local
    &&& p.authz.policy_source@ == "embedded-rbac"@
    &&& p.host_enforcement_mode == enforcement_mode
}

/// The control plane of a local host.
#[derive(Debug, Clone)]
pub struct LocalControlPlane {
    profile: ControlPlaneProfile,
}

impl LocalControlPlane {
    /// The profile held.
    pub closed spec fn held_profile(&self) -> ControlPlaneProfile {
        self.profile
    }

    /// The in-process, local-only control plane with default hooks and the
    /// host's enforcement mode.
    pub fn for_local_host(enforcement_mode: EnforcementMode) -> (res: Self)
        ensures
            is_local_profile(res.held_profile(), enforcement_mode),
            spec_endpoint_error(res.held_profile().endpoint) is None,
    {
        let res = LocalControlPlane {
            profile: ControlPlaneProfile {
                mode: ControlPlaneMode::LocalOnly,
                endpoint: ControlPlaneEndpoint {
                    transport: TransportKind::InProcess,
                    address: string_of("in-process"),
                    audience: None,
                },
                authn: AuthnHook::default(),
                authz: AuthzHook::default(),
                host_enforcement_mode: enforcement_mode,
            },
        };
        assert(eq_ignore_case(res.profile.endpoint.address@, "in-process"@));
        res
    }

    /// The control plane with the given profile, where its endpoint is valid.
    pub fn with_profile(profile: ControlPlaneProfile) -> (res: Result<Self, ControlPlaneError>)
        ensures
            match spec_endpoint_error(profile.endpoint) {
                None => res matches Ok(c) && c.held_profile() == profile,
                Some(msg) => res matches Err(ControlPlaneError::UnsupportedTransport(m)) && m@
                    == msg,
            },
    {
        profile.endpoint.validate()?;
        Ok(LocalControlPlane { profile })
    }
}

fn subject_has_role(subject: &SubjectContext, role: &str) -> (res: bool)
    ensures
        res == has_role(*subject, role@),
{
    let n = subject.roles.len();
    let mut i: usize = 0;
    while i < n
        invariant
            n == subject.roles@.len(),
            i <= n,
            forall|j: int| 0 <= j < i ==> subject.roles@[j]@ != role@,
        decreases n - i,
    {
        if str_eq(subject.roles[i].as_str(), role) {
            return true;
        }
        i = i + 1;
    }
    false
}

impl ControlPlane for LocalControlPlane {
    open spec fn spec_profile(&self) -> ControlPlaneProfile {
        self.held_profile()
    }

    open spec fn spec_health(&self) -> ControlPlaneHealth {
        ControlPlaneHealth::Ready
    }

    open spec fn spec_authorize(&self, request: AuthorizationRequest) -> AuthorizationOutcome {
        spec_local_authorize(request)
    }

    fn profile(&self) -> (res: ControlPlaneProfile) {
        self.profile.copy()
    }

    fn health(&self) -> (res: ControlPlaneHealth) {
        ControlPlaneHealth::Ready
    }

    fn authorize(&self, request: &AuthorizationRequest) -> (res: Result<
        AuthorizationResponse,
        ControlPlaneError,
    >) {
        if is_blank_str(request.subject.subject_id.as_str()) {
            return Err(ControlPlaneError::InvalidRequest(string_of("subject_id is required")));
        }
        let admin_only = match request.action {
            AuthorizationAction::ManagePolicy | AuthorizationAction::ManageTrust
            | AuthorizationAction::SetEnforcementMode => true,
            _ => false,
        };
        let holds_role = if admin_only {
            subject_has_role(&request.subject, "security-admin")
        } else {
            subject_has_role(&request.subject, "operator") || subject_has_role(
                &request.subject,
                "auditor",
            ) || subject_has_role(&request.subject, "security-admin")
        };
        proof {
            let roles = spec_required_roles(request.action);
            if holds_role {
                if admin_only {
                    assert(roles[0] == "security-admin"@);
                } else if has_role(request.subject, "operator"@) {
                    assert(roles[0] == "operator"@);
                } else if has_role(request.subject, "auditor"@) {
                    assert(roles[1] == "auditor"@);
                } else {
                    assert(roles[2] == "security-admin"@);
                }
            } else {
                assert forall|r: int| 0 <= r < roles.len() implies !has_role(
                    request.subject,
                    #[trigger] roles[r],
                ) by {
                    if admin_only {
                        assert(roles[r] == "security-admin"@);
                    } else {
                        assert(r == 0 || r == 1 || r == 2);
                    }
                }
            }
        }
        if !holds_role {
            let mut hint = string_of("grant one of required roles: ");
            if admin_only {
                push_str(&mut hint, "security-admin");
            } else {
                push_str(&mut hint, "operator,auditor,security-admin");
            }
            return Ok(
                AuthorizationResponse {
                    decision: AuthorizationDecision::Deny,
                    reason_code: string_of("authz.role-mismatch"),
                    remediation_hint: hint,
                },
            );
        }
        Ok(
            AuthorizationResponse {
                decision: AuthorizationDecision::Allow,
                reason_code: string_of("authz.role-match"),
                remediation_hint: string_of("none"),
            },
        )
    }
}

/// The security-admin role may take every action; operators and auditors
/// may run tools, read and verify receipts, tail the audit log and export
/// diagnostics, but not manage policy, trust or the enforcement mode.
pub proof fn law_role_separation(request: AuthorizationRequest)
    requires
        !is_blank(request.subject.subject_id@),
    ensures
        has_role(request.subject, "security-admin"@) ==> (spec_local_authorize(request) matches AuthorizationOutcome::Decided(d, _, _) && d == AuthorizationDecision::Allow),
        !has_role(request.subject, "security-admin"@) && (request.action
            == AuthorizationAction::ManagePolicy || request.action
            == AuthorizationAction::ManageTrust || request.action
            == AuthorizationAction::SetEnforcementMode) ==> (spec_local_authorize(request) matches AuthorizationOutcome::Decided(d, _, _) && d == AuthorizationDecision::Deny),
        (has_role(request.subject, "operator"@) || has_role(request.subject, "auditor"@)) && !(
        request.action == AuthorizationAction::ManagePolicy || request.action
            == AuthorizationAction::ManageTrust || request.action
            == AuthorizationAction::SetEnforcementMode) ==> (spec_local_authorize(request) matches AuthorizationOutcome::Decided(d, _, _) && d == AuthorizationDecision::Allow),
{
    let roles = spec_required_roles(request.action);
    let admin_only = request.action == AuthorizationAction::ManagePolicy || request.action
        == AuthorizationAction::ManageTrust || request.action
        == AuthorizationAction::SetEnforcementMode;
    if has_role(request.subject, "security-admin"@) {
        if admin_only {
            assert(roles[0] == "security-admin"@);
        } else {
            assert(roles[2] == "security-admin"@);
        }
    }
    if !has_role(request.subject, "security-admin"@) && admin_only {
        assert forall|r: int| 0 <= r < roles.len() implies !has_role(request.subject, #[trigger] roles[r]) by {
            assert(roles[r] == "security-admin"@);
        }
    }
    if !admin_only {
        if has_role(request.subject, "operator"@) {
            assert(roles[0] == "operator"@);
        }
        if has_role(request.subject, "auditor"@) {
            assert(roles[1] == "auditor"@);
        }
    }
}

/// Role-based authorization in full: a request with a subject id is allowed
/// exactly when the subject holds a role the action needs (`security-admin`
/// for managing policy or trust and setting the enforcement mode; any of
/// `operator`, `auditor` and `security-admin` for every other action), and
/// otherwise denied with the role-mismatch code and a hint naming those
/// roles; a request with a blank subject id is invalid.
pub proof fn law_authorize_by_required_role(request: AuthorizationRequest)
    ensures
        ({
            let s = request.subject;
            let admin_only = request.action == AuthorizationAction::ManagePolicy || request.action
                == AuthorizationAction::ManageTrust || request.action
                == AuthorizationAction::SetEnforcementMode;
            let holds = has_role(s, "security-admin"@) || (!admin_only && (has_role(s, "operator"@)
                || has_role(s, "auditor"@)));
            let hint = if admin_only {
                "grant one of required roles: security-admin"@
            } else {
                "grant one of required roles: operator,auditor,security-admin"@
            };
            &&& is_blank(s.subject_id@) ==> spec_local_authorize(request)
                == AuthorizationOutcome::Invalid("subject_id is required"@)
            &&& !is_blank(s.subject_id@) && holds ==> spec_local_authorize(request)
                == AuthorizationOutcome::Decided(
                AuthorizationDecision::Allow,
                "authz.role-match"@,
                "none"@,
            )
            &&& !is_blank(s.subject_id@) && !holds ==> spec_local_authorize(request)
                == AuthorizationOutcome::Decided(AuthorizationDecision::Deny, "authz.role-mismatch"@, hint)
        }),
{
    reveal_strlit("grant one of required roles: ");
    reveal_strlit("security-admin");
    reveal_strlit("operator,auditor,security-admin");
    reveal_strlit("grant one of required roles: security-admin");
    reveal_strlit("grant one of required roles: operator,auditor,security-admin");
    let s = request.subject;
    let roles = spec_required_roles(request.action);
    let admin_only = request.action == AuthorizationAction::ManagePolicy || request.action
        == AuthorizationAction::ManageTrust || request.action
        == AuthorizationAction::SetEnforcementMode;
    if admin_only {
        assert(roles.len() == 1 && roles[0] == "security-admin"@);
    } else {
        assert(roles.len() == 3 && roles[0] == "operator"@ && roles[1] == "auditor"@ && roles[2]
            == "security-admin"@);
    }
    assert("grant one of required roles: "@ + "security-admin"@
        =~= "grant one of required roles: security-admin"@);
    assert("grant one of required roles: "@ + "operator,auditor,security-admin"@
        =~= "grant one of required roles: operator,auditor,security-admin"@);
}

} // verus!
