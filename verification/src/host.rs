//! The host: where its files live, and the decisions it makes around a
//! tool run, a receipt check and the operator's requests.
use vstd::prelude::*;
use crate::audit::{
    AuditChainReport, AuditEntry, AuditRecord, AuditStore, SeqRange, chain_intact,
    is_newest_with_id, records_of, report_describes, select_range,
};
use crate::control_plane::{
    is_local_profile, ControlPlane, ControlPlaneHealth, ControlPlaneProfile, LocalControlPlane,
};
use crate::crypto::spec_sha256_hex;
use crate::decision::{ExecutionPlan, execution_plan, plan_view, spec_execution_plan};
use crate::listing::{
    Page, ProvenanceRunSummary, ReceiptFilters, ReceiptListItem, page_end, page_start, paginate,
    filtered_receipts, receipt_matches, recent_runs, select_receipts, summary_of,
};
use crate::model::{
    CapabilitySpec, CheckView, EnforcementMode, FsRule, HttpRule, ProvenanceRequirements,
    ReceiptEnvelope, RiskLevel, SecurityPosture, Timestamp, ToolRegistration, ToolRegistry,
    VerificationCheck, VerificationReport, VerificationStatus, opt_view, spec_find_by_name,
    spec_upserted,
};
use crate::policy::{
    PolicyDecision, PolicyEngine, PolicyError, PolicyProfile, SignatureOutcome,
    policy_error_text, spec_ceiling_violation, spec_evaluate, spec_explain, spec_metadata_error,
    spec_signature_outcome,
};
use crate::provenance::{
    ProvenactCliVerifier, VerifierRun, spec_artifact_checks, spec_run_checks,
};
use crate::runtime::{RuntimeError, runtime_error_text};
use crate::secrets::SecretProviderStatus;
use crate::signing::{ReceiptSigner, SigningError, signing_error_text, spec_verify_receipt};
use crate::sort::{is_stable_sort_of, lemma_stable_sort_unique};
use crate::text::{push_str, starts_with, str_eq, string_of, char_len};
use crate::trust::{TrustStore, lists};

verus! {

/// Why a host operation failed. The variants that carry text hold the
/// message of an error met while reading or writing the host's files.
#[derive(Debug, Clone)]
pub enum HostError {
    HomeUnavailable,
    Io(String),
    Core(String),
    Json(String),
    Policy(PolicyError),
    Audit(String),
    Runtime(RuntimeError),
    Signing(SigningError),
    UnknownTool(String),
    Verification(String),
}

/// The message of a host error, as it is displayed.
pub open spec fn host_error_text(e: HostError) -> Seq<char> {
    match e {
        HostError::HomeUnavailable => "home directory is unavailable"@,
        HostError::Io(m) => "io error: "@ + m@,
        HostError::Core(m) => "core error: "@ + m@,
        HostError::Json(m) => "json error: "@ + m@,
        HostError::Policy(p) => "policy error: "@ + policy_error_text(p),
        HostError::Audit(m) => "audit error: "@ + m@,
        HostError::Runtime(r) => "runtime error: "@ + runtime_error_text(r),
        HostError::Signing(s) => "signing error: "@ + signing_error_text(s),
        HostError::UnknownTool(m) => "unknown tool: "@ + m@,
        HostError::Verification(m) => "bundle verification failed: "@ + m@,
    }
}

fn prefixed(prefix: &str, m: &str) -> (res: String)
    ensures
        res@ == prefix@ + m@,
{
    let mut s = string_of(prefix);
    push_str(&mut s, m);
    s
}

impl HostError {
    /// The message of the error, as it is displayed.
    pub fn message(&self) -> (res: String)
        ensures
            res@ == host_error_text(*self),
    {
        match self {
            HostError::HomeUnavailable => string_of("home directory is unavailable"),
            HostError::Io(m) => prefixed("io error: ", m.as_str()),
            HostError::Core(m) => prefixed("core error: ", m.as_str()),
            HostError::Json(m) => prefixed("json error: ", m.as_str()),
            HostError::Policy(p) => {
                let t = p.message();
                prefixed("policy error: ", t.as_str())
            },
            HostError::Audit(m) => prefixed("audit error: ", m.as_str()),
            HostError::Runtime(r) => {
                let t = r.message();
                prefixed("runtime error: ", t.as_str())
            },
            HostError::Signing(s) => {
                let t = s.message();
                prefixed("signing error: ", t.as_str())
            },
            HostError::UnknownTool(m) => prefixed("unknown tool: ", m.as_str()),
            HostError::Verification(m) => prefixed("bundle verification failed: ", m.as_str()),
        }
    }
}


/// `name` under the directory `base`, as `Path::join` puts a relative name
/// under a directory: with a `/` between them unless `base` is empty or
/// already ends in one.
pub open spec fn spec_join_path(base: Seq<char>, name: Seq<char>) -> Seq<char> {
    if base.len() == 0 {
        name
    } else if base.last() == '/' {
        base + name
    } else {
        base + "/"@ + name
    }
}

/// `name` under the directory `base`.
pub fn join_path(base: &str, name: &str) -> (res: String)
    ensures
        res@ == spec_join_path(base@, name@),
{
    let n = char_len(base);
    let mut s = string_of(base);
    if n > 0 && base.get_char(n - 1) != '/' {
        push_str(&mut s, "/");
    }
    push_str(&mut s, name);
    s
}

/// Where the host keeps its files.
#[derive(Debug, Clone)]
pub struct HostPaths {
    pub base_dir: String,
}

impl HostPaths {
    /// The layout under a base directory.
    pub fn from_base_dir(base_dir: String) -> (res: Self)
        ensures
            res.base_dir@ == base_dir@,
    {
        HostPaths { base_dir }
    }

    /// The configuration file.
    pub fn config_path(&self) -> (res: String)
        ensures
            res@ == spec_join_path(self.base_dir@, "config.toml"@),
    {
        join_path(self.base_dir.as_str(), "config.toml")
    }

    /// The tool registry.
    pub fn tools_path(&self) -> (res: String)
        ensures
            res@ == spec_join_path(self.base_dir@, "tools.json"@),
    {
        join_path(self.base_dir.as_str(), "tools.json")
    }

    /// The directory of policy files.
    pub fn policies_dir(&self) -> (res: String)
        ensures
            res@ == spec_join_path(self.base_dir@, "policies"@),
    {
        join_path(self.base_dir.as_str(), "policies")
    }

    /// The audit log.
    pub fn audit_log_path(&self) -> (res: String)
        ensures
            res@ == spec_join_path(self.base_dir@, "audit.ndjson"@),
    {
        join_path(self.base_dir.as_str(), "audit.ndjson")
    }

    /// The trust store.
    pub fn trust_path(&self) -> (res: String)
        ensures
            res@ == spec_join_path(self.base_dir@, "trust.json"@),
    {
        join_path(self.base_dir.as_str(), "trust.json")
    }

    /// The metrics log.
    pub fn metrics_path(&self) -> (res: String)
        ensures
            res@ == spec_join_path(self.base_dir@, "metrics.ndjson"@),
    {
        join_path(self.base_dir.as_str(), "metrics.ndjson")
    }
}

/// The name a tool gets where none is given: `tool-` and the first twelve
/// characters of its digest, with every leading `sha256:` taken off.
pub open spec fn spec_default_tool_name(digest: Seq<char>) -> Seq<char> {
    let compact = strip_leading(digest, "sha256:"@);
    "tool-"@ + (if compact.len() <= 12 {
        compact
    } else {
        compact.take(12)
    })
}

/// `s` with every leading repetition of `prefix` taken off, as
/// `str::trim_start_matches` does.
pub open spec fn strip_leading(s: Seq<char>, prefix: Seq<char>) -> Seq<char>
    decreases s.len(),
{
    if prefix.len() > 0 && prefix.is_prefix_of(s) {
        strip_leading(s.skip(prefix.len() as int), prefix)
    } else {
        s
    }
}

/// The name a tool gets where none is given.
pub fn default_tool_name_from_digest(digest: &str) -> (res: String)
    ensures
        res@ == spec_default_tool_name(digest@),
{
    proof {
        reveal_strlit("sha256:");
    }
    let mut compact: &str = digest;
    while starts_with(compact, "sha256:")
        invariant
            "sha256:"@.len() == 7,
            strip_leading(compact@, "sha256:"@) == strip_leading(digest@, "sha256:"@),
        decreases compact@.len(),
    {
        let n = char_len(compact);
        compact = compact.substring_char(7, n);
    }
    let n = char_len(compact);
    let k: usize = if n <= 12 {
        n
    } else {
        12
    };
    let mut res = string_of("tool-");
    push_str(&mut res, compact.substring_char(0, k));
    proof {
        if n <= 12 {
            assert(compact@.subrange(0, k as int) =~= compact@);
        }
    }
    res
}

/// The capability ceiling of the first phase: POST under
/// `api.example.com/v1/`, reads under `/data/`, no writes, no secrets, no
/// randomness.
pub fn phase0_capability_ceiling() -> (res: CapabilitySpec)
    ensures
        is_phase0_ceiling(res),
{
    let mut net_http: Vec<HttpRule> = Vec::new();
    net_http.push(
        HttpRule {
            host: string_of("api.example.com"),
            path: string_of("/v1/"),
            method: string_of("POST"),
        },
    );
    let mut fs_read: Vec<FsRule> = Vec::new();
    fs_read.push(FsRule { path: string_of("/data/") });
    CapabilitySpec {
        net_http,
        fs_read,
        fs_write: Vec::new(),
        secrets_materialize: false,
        randomness: false,
    }
}

/// The control plane's profile and health, as the host reports them.
#[derive(Debug, Clone)]
pub struct ControlPlaneStatus {
    pub profile: ControlPlaneProfile,
    pub health: ControlPlaneHealth,
}

/// A stored receipt with everything known about it: its audit record, and
/// whether its hash, its signature and the audit chain check out.
#[derive(Debug, Clone)]
pub struct DeepReceipt {
    pub receipt: ReceiptEnvelope,
    pub audit_record: Option<AuditRecord>,
    pub hash_valid: bool,
    pub signature_valid: bool,
    pub chain_valid: bool,
}

/// The audit log's chain, taken in sequence order, is intact.
pub open spec fn log_chain_intact(entries: Seq<AuditEntry>) -> bool {
    forall|sorted: Seq<AuditEntry>|
        is_stable_sort_of(sorted, entries) ==> chain_intact(select_range(sorted, None))
}

/// The trust check of a publisher: failed where it is revoked, passed
/// where it is trusted, else failed.
pub open spec fn spec_trust_check(trust: TrustStore, publisher: Seq<char>) -> CheckView {
    if lists(trust.revoked@, publisher) {
        ("trust.signer"@, VerificationStatus::Fail, "signer "@ + publisher + " is revoked"@)
    } else if lists(trust.signers@, publisher) {
        ("trust.signer"@, VerificationStatus::Pass, "signer "@ + publisher + " is trusted"@)
    } else {
        ("trust.signer"@, VerificationStatus::Fail, "signer "@ + publisher + " is not trusted"@)
    }
}

/// A failed check whose requirement the configuration turns off: a missing
/// signature or attestation is skipped, a bad digest format only warns.
pub open spec fn relaxed_check(c: CheckView, req: ProvenanceRequirements) -> CheckView {
    if c.0 == "signature.artifact"@ && !req.require_signature && c.1 == VerificationStatus::Fail {
        (c.0, VerificationStatus::Skipped, "signature requirement disabled by config"@)
    } else if c.0 == "attestation.artifact"@ && !req.require_attestation && c.1
        == VerificationStatus::Fail {
        (c.0, VerificationStatus::Skipped, "attestation requirement disabled by config"@)
    } else if c.0 == "digest.format"@ && !req.require_digest && c.1 == VerificationStatus::Fail {
        (c.0, VerificationStatus::Warn, "digest format warning in non-strict mode"@)
    } else {
        c
    }
}

fn relax_check(c: &VerificationCheck, req: &ProvenanceRequirements) -> (res: VerificationCheck)
    ensures
        res@ == relaxed_check(c@, *req),
{
    let failed = match c.status {
        VerificationStatus::Fail => true,
        _ => false,
    };
    let name = string_of(c.check.as_str());
    if failed && !req.require_signature && str_eq(c.check.as_str(), "signature.artifact") {
        VerificationCheck {
            check: name,
            status: VerificationStatus::Skipped,
            detail: string_of("signature requirement disabled by config"),
        }
    } else if failed && !req.require_attestation && str_eq(
        c.check.as_str(),
        "attestation.artifact",
    ) {
        VerificationCheck {
            check: name,
            status: VerificationStatus::Skipped,
            detail: string_of("attestation requirement disabled by config"),
        }
    } else if failed && !req.require_digest && str_eq(c.check.as_str(), "digest.format") {
        VerificationCheck {
            check: name,
            status: VerificationStatus::Warn,
            detail: string_of("digest format warning in non-strict mode"),
        }
    } else {
        VerificationCheck { check: name, status: c.status, detail: string_of(c.detail.as_str()) }
    }
}

/// The checks of a run before the policy: the bundle report, the trust
/// check of the publisher, with failures that the configuration does not
/// require relaxed.
pub open spec fn spec_bundle_checks(
    tool: ToolRegistration,
    signature_exists: bool,
    attestation_exists: bool,
    run: VerifierRun,
    trust: TrustStore,
    req: ProvenanceRequirements,
) -> Seq<CheckView> {
    (spec_artifact_checks(tool, signature_exists, attestation_exists) + spec_run_checks(
        run,
    )).push(spec_trust_check(trust, tool.publisher@)).map_values(
        |c: CheckView| relaxed_check(c, req),
    )
}

/// What checking a policy's signature gives, lifted into host errors: a
/// rejection is a policy error.
pub open spec fn lifted_signature_result(res: Result<(), HostError>, outcome: SignatureOutcome) -> bool {
    match outcome {
        SignatureOutcome::Accepted => res is Ok,
        SignatureOutcome::Rejected(msg) => res matches Err(
            HostError::Policy(PolicyError::Signature(m)),
        ) && m@ == msg,
        SignatureOutcome::RejectedWith(prefix) => res matches Err(
            HostError::Policy(PolicyError::Signature(m)),
        ) && prefix.is_prefix_of(m@),
    }
}

/// What the policy signature check of the host decides: the metadata must
/// be complete where signatures are required; then the key id must be in
/// the trust store, and the signature must verify against its key.
pub open spec fn policy_signature_checked(
    res: Result<(), HostError>,
    require_signature: bool,
    trust: TrustStore,
    policy: PolicyProfile,
    signing_payload: Seq<u8>,
) -> bool {
    match spec_metadata_error(policy, require_signature) {
        Some(msg) => res matches Err(HostError::Policy(PolicyError::Signature(m))) && m@ == msg,
        None => if !require_signature {
            res is Ok
        } else {
            let key_id = policy.signature.unwrap().key_id@;
            if !trust.policy_key_map().contains_key(key_id) {
                res matches Err(HostError::Verification(m)) && m@
                    == "missing trusted policy key for key_id="@ + key_id
            } else {
                lifted_signature_result(
                    res,
                    spec_signature_outcome(
                        policy,
                        signing_payload,
                        trust.policy_key_map()[key_id],
                        true,
                    ),
                )
            }
        },
    }
}

fn ceiling_part(result: &Result<(), PolicyError>, violation: Ghost<Option<Seq<char>>>) -> (res:
    String)
    requires
        match violation@ {
            None => result is Ok,
            Some(msg) => result matches Err(PolicyError::CeilingViolation(m)) && m@ == msg,
        },
    ensures
        res@ == ceiling_text(violation@),
{
    match result {
        Ok(()) => string_of("ceiling=ok"),
        Err(e) => {
            let mut s = string_of("ceiling=violation details=\"");
            let m = e.message();
            push_str(&mut s, m.as_str());
            push_str(&mut s, "\"");
            proof {
                let msg = violation@.unwrap();
                assert(s@ =~= "ceiling=violation details=\""@ + "policy exceeds capability ceiling: "@
                    + msg + "\""@);
            }
            s
        },
    }
}

fn signature_part(check: &Result<(), HostError>) -> (res: String)
    ensures
        res@ == signature_text(*check),
{
    match check {
        Ok(()) => string_of("policy_signature=ok"),
        Err(e) => {
            let mut s = string_of("policy_signature=failed details=\"");
            let m = e.message();
            push_str(&mut s, m.as_str());
            push_str(&mut s, "\"");
            s
        },
    }
}

/// The policy check that a run records, and what evaluating the request
/// under the policy decided.
#[derive(Debug, Clone)]
pub struct RunDecision {
    pub report: VerificationReport,
    pub policy_decision: PolicyDecision,
    pub plan: ExecutionPlan,
}

/// A run's duration in milliseconds, where the clock ran backwards none.
pub fn duration_ms(elapsed_ms: i64) -> (res: u64)
    ensures
        res as int == (if elapsed_ms < 0 {
            0
        } else {
            elapsed_ms as int
        }),
{
    if elapsed_ms < 0 {
        0
    } else {
        elapsed_ms as u64
    }
}

/// The host, which runs tools under policy and provenance checks.
#[derive(Debug, Clone)]
pub struct Host {
    paths: HostPaths,
}

impl Host {
    /// The paths the host uses.
    pub closed spec fn spec_paths(&self) -> HostPaths {
        self.paths
    }

    /// The host whose files live under `$PROVENCLAW_HOME` where that is
    /// set, else under `.provenclaw` in the home directory.
    pub fn discover(provenclaw_home: Option<String>, home_dir: Option<String>) -> (res: Result<
        Host,
        HostError,
    >)
        ensures
            match provenclaw_home {
                Some(h) => res matches Ok(host) && host.spec_paths().base_dir@ == h@,
                None => match home_dir {
                    Some(d) => res matches Ok(host) && host.spec_paths().base_dir@
                        == spec_join_path(d@, ".provenclaw"@),
                    None => res matches Err(HostError::HomeUnavailable),
                },
            },
    {
        match provenclaw_home {
            Some(h) => Ok(Host { paths: HostPaths::from_base_dir(h) }),
            None => match home_dir {
                Some(d) => {
                    let base = join_path(d.as_str(), ".provenclaw");
                    Ok(Host { paths: HostPaths::from_base_dir(base) })
                },
                None => Err(HostError::HomeUnavailable),
            },
        }
    }

    /// The host over the given paths.
    pub fn with_paths(paths: HostPaths) -> (res: Self)
        ensures
            res.spec_paths() == paths,
    {
        Host { paths }
    }

    /// The paths the host uses.
    pub fn paths(&self) -> (res: &HostPaths)
        ensures
            *res == self.spec_paths(),
    {
        &self.paths
    }

    /// The security posture: the configured one, at degraded risk where the
    /// secret backend in use is degraded.
    pub fn get_security_posture(&self, posture: SecurityPosture, provider: &SecretProviderStatus) -> (res:
        SecurityPosture)
        ensures
            res == (if provider.degraded {
                SecurityPosture { risk_level: RiskLevel::Degraded, ..posture }
            } else {
                posture
            }),
    {
        let mut p = posture;
        if provider.degraded {
            p.risk_level = RiskLevel::Degraded;
        }
        p
    }

    /// The registered tools.
    pub fn list_tools(&self, registry: ToolRegistry) -> (res: Vec<ToolRegistration>)
        ensures
            res@ == registry.tools@,
    {
        registry.tools
    }

    /// A page of the registered tools, of at least one item.
    pub fn list_tools_page(&self, registry: ToolRegistry, cursor: Option<usize>, limit: usize) -> (res:
        Page<ToolRegistration>)
        requires
            page_start(registry.tools@.len() as int, cursor) + (if limit > 1 {
                limit as int
            } else {
                1
            }) <= usize::MAX,
        ensures
            ({
                let l: usize = if limit > 1 {
                    limit
                } else {
                    1
                };
                let total = registry.tools@.len() as int;
                &&& res.total == total
                &&& res.items@ == registry.tools@.subrange(
                    page_start(total, cursor),
                    page_end(total, cursor, l),
                )
                &&& res.next_cursor == (if page_end(total, cursor, l) < total {
                    Some(page_end(total, cursor, l) as usize)
                } else {
                    None
                })
            }),
    {
        let l: usize = if limit > 1 {
            limit
        } else {
            1
        };
        paginate(registry.tools, cursor, l)
    }

    /// The registration of a tool: its name where one is given, else the
    /// one derived from its digest; then recorded in the registry.
    pub fn add_tool(
        &self,
        registry: &mut ToolRegistry,
        digest: String,
        name: Option<String>,
        publisher: String,
        policy: String,
    ) -> (res: ToolRegistration)
        ensures
            res.name@ == (match name {
                Some(n) => n@,
                None => spec_default_tool_name(digest@),
            }),
            res.digest == digest,
            res.publisher == publisher,
            res.policy == policy,
            res.bundle_path is None,
            res.signature_path is None,
            res.attestations_path is None,
            res.signing_identity is None,
            res.verification_profile is None,
            spec_upserted(old(registry).tools@, res, final(registry).tools@),
    {
        self.add_tool_extended(registry, digest, name, publisher, policy, None, None, None, None, None)
    }

    /// The registration of a tool with its artifacts: its name where one is
    /// given, else the one derived from its digest; then recorded in the
    /// registry.
    pub fn add_tool_extended(
        &self,
        registry: &mut ToolRegistry,
        digest: String,
        name: Option<String>,
        publisher: String,
        policy: String,
        bundle_path: Option<String>,
        signature_path: Option<String>,
        attestations_path: Option<String>,
        signing_identity: Option<String>,
        verification_profile: Option<String>,
    ) -> (res: ToolRegistration)
        ensures
            res.name@ == (match name {
                Some(n) => n@,
                None => spec_default_tool_name(digest@),
            }),
            res.digest == digest,
            res.publisher == publisher,
            res.policy == policy,
            res.bundle_path == bundle_path,
            res.signature_path == signature_path,
            res.attestations_path == attestations_path,
            res.signing_identity == signing_identity,
            res.verification_profile == verification_profile,
            spec_upserted(old(registry).tools@, res, final(registry).tools@),
    {
        let resolved_name = match name {
            Some(n) => n,
            None => default_tool_name_from_digest(digest.as_str()),
        };
        let registration = ToolRegistration {
            name: resolved_name,
            digest,
            publisher,
            policy,
            bundle_path,
            signature_path,
            attestations_path,
            signing_identity,
            verification_profile,
        };
        registry.upsert(registration.copy());
        registration
    }

    /// The registered tool with the given name.
    pub fn find_tool(&self, registry: &ToolRegistry, name: &str) -> (res: Result<
        ToolRegistration,
        HostError,
    >)
        ensures
            match spec_find_by_name(registry.tools@, name@) {
                Some(t) => res matches Ok(r) && r == t,
                None => res matches Err(HostError::UnknownTool(m)) && m@ == name@,
            },
    {
        match registry.find_by_name(name) {
            Some(t) => Ok(t.copy()),
            None => Err(HostError::UnknownTool(string_of(name))),
        }
    }

    /// The provenance report of a tool: the verifier's checks, the trust
    /// check of its publisher, and the failures that the requirements turn
    /// off relaxed.
    pub fn verify_bundle(
        &self,
        tool: &ToolRegistration,
        signature_exists: bool,
        attestation_exists: bool,
        run: &VerifierRun,
        trust: &TrustStore,
        requirements: &ProvenanceRequirements,
    ) -> (res: VerificationReport)
        ensures
            res@ == spec_bundle_checks(
                *tool,
                signature_exists,
                attestation_exists,
                *run,
                *trust,
                *requirements,
            ),
    {
        let verifier = ProvenactCliVerifier;
        let mut report = verifier.verify(tool, signature_exists, attestation_exists, run);
        let publisher = tool.publisher.as_str();
        if trust.is_revoked(publisher) {
            let mut d = string_of("signer ");
            push_str(&mut d, publisher);
            push_str(&mut d, " is revoked");
            report.push(string_of("trust.signer"), VerificationStatus::Fail, d);
        } else if trust.is_trusted_signer(publisher) {
            let mut d = string_of("signer ");
            push_str(&mut d, publisher);
            push_str(&mut d, " is trusted");
            report.push(string_of("trust.signer"), VerificationStatus::Pass, d);
        } else {
            let mut d = string_of("signer ");
            push_str(&mut d, publisher);
            push_str(&mut d, " is not trusted");
            report.push(string_of("trust.signer"), VerificationStatus::Fail, d);
        }
        let ghost base = report@;
        let n = report.checks.len();
        let mut i: usize = 0;
        while i < n
            invariant
                n == report.checks@.len(),
                n == base.len(),
                i <= n,
                forall|j: int| 0 <= j < i ==> (#[trigger] report.checks@[j])@ == relaxed_check(base[j], *requirements),
                forall|j: int| i <= j < n ==> (#[trigger] report.checks@[j])@ == base[j],
            decreases n - i,
        {
            let c = relax_check(&report.checks[i], requirements);
            report.checks.set(i, c);
            i = i + 1;
        }
        assert(report@ =~= base.map_values(|c: CheckView| relaxed_check(c, *requirements)));
        report
    }

    /// Checks a policy's signature: its metadata, where signatures are
    /// required, then its key in the trust store and the signature over
    /// `signing_payload`, the serialization of the policy without it.
    pub fn validate_policy_signature(
        &self,
        require_signature: bool,
        trust: &TrustStore,
        policy: &PolicyProfile,
        signing_payload: &[u8],
    ) -> (res: Result<(), HostError>)
        requires
            trust.well_formed(),
        ensures
            policy_signature_checked(res, require_signature, *trust, *policy, signing_payload@),
    {
        match PolicyEngine::validate_signature_metadata(policy, require_signature) {
            Ok(()) => {},
            Err(e) => {
                return Err(HostError::Policy(e));
            },
        }
        if !require_signature {
            return Ok(());
        }
        let signature = match &policy.signature {
            Some(s) => s,
            None => {
                return Err(
                    HostError::Verification(string_of("missing policy signature metadata")),
                );
            },
        };
        let public_key = match trust.policy_key(signature.key_id.as_str()) {
            Some(k) => k,
            None => {
                let mut m = string_of("missing trusted policy key for key_id=");
                push_str(&mut m, signature.key_id.as_str());
                return Err(HostError::Verification(m));
            },
        };
        match PolicyEngine::verify_signature(policy, signing_payload, public_key.as_str(), true) {
            Ok(()) => Ok(()),
            Err(e) => Err(HostError::Policy(e)),
        }
    }

    /// Decides how a run proceeds, from the policy decision and the
    /// verification report, under the configured mode and requirements.
    pub fn resolve_execution_decision(
        &self,
        mode: EnforcementMode,
        requirements: &ProvenanceRequirements,
        policy_decision: &PolicyDecision,
        report: &VerificationReport,
    ) -> (res: ExecutionPlan)
        ensures
            plan_view(res) == spec_execution_plan(mode, *requirements, *policy_decision, *report),
    {
        execution_plan(mode, requirements, policy_decision, report)
    }

    /// The decisions of a run before the tool is executed: the policy
    /// signature check is added to the report, the policy must lie within
    /// the phase-one ceiling, the request is evaluated under the policy, and
    /// the enforcement mode decides whether the tool runs.
    pub fn decide_run(
        &self,
        mode: EnforcementMode,
        requirements: &ProvenanceRequirements,
        network_enabled: bool,
        tool: &ToolRegistration,
        report: VerificationReport,
        signature_check: &Result<(), HostError>,
        policy: &PolicyProfile,
        policy_hash: String,
        requested: &CapabilitySpec,
        tainted: bool,
    ) -> (res: Result<RunDecision, HostError>)
        ensures
            exists|ceiling: CapabilitySpec| is_phase0_ceiling(ceiling) && match spec_ceiling_violation(*policy, ceiling) {
                Some(msg) => res matches Err(HostError::Policy(PolicyError::CeilingViolation(m)))
                    && m@ == msg,
                None => res matches Ok(d) && d.report@ == report@.push(
                    match *signature_check {
                        Ok(()) => (
                            "policy.signature"@,
                            VerificationStatus::Pass,
                            "policy signature validated"@,
                        ),
                        Err(e) => ("policy.signature"@, VerificationStatus::Fail, host_error_text(e)),
                    },
                ) && (d.policy_decision.decision, d.policy_decision.reason@) == spec_evaluate(
                    *policy,
                    tool.publisher@,
                    *requested,
                    tainted,
                    network_enabled,
                ) && d.policy_decision.policy_hash@ == policy_hash@ && plan_view(d.plan)
                    == spec_execution_plan(mode, *requirements, d.policy_decision, d.report),
            },
    {
        let mut report = report;
        match signature_check {
            Ok(()) => report.push(
                string_of("policy.signature"),
                VerificationStatus::Pass,
                string_of("policy signature validated"),
            ),
            Err(e) => report.push(string_of("policy.signature"), VerificationStatus::Fail, e.message()),
        }
        let ceiling = phase0_capability_ceiling();
        match PolicyEngine::validate_capability_ceilings(policy, &ceiling) {
            Ok(()) => {},
            Err(e) => {
                return Err(HostError::Policy(e));
            },
        }
        let policy_decision = PolicyEngine::evaluate(
            policy,
            policy_hash,
            tool.publisher.as_str(),
            requested,
            tainted,
            network_enabled,
        );
        let plan = execution_plan(mode, requirements, &policy_decision, &report);
        Ok(RunDecision { report, policy_decision, plan })
    }

    /// A stored receipt with its audit record and its checks: the hash
    /// against `unsigned_json`, the serialization of its unsigned form; the
    /// signature where a signer is given (signing is required), else taken
    /// as valid; and the audit chain where the receipt has a record.
    pub fn get_receipt_deep(
        &self,
        receipt: ReceiptEnvelope,
        unsigned_json: &[u8],
        signer: Option<&ReceiptSigner>,
        store: AuditStore,
    ) -> (res: Result<DeepReceipt, HostError>)
        ensures
            match signer {
                Some(s) => match spec_verify_receipt(
                    s.secret_key(),
                    opt_view(receipt.signature),
                    unsigned_json@,
                ) {
                    None => res matches Err(HostError::Signing(SigningError::InvalidKey(_))),
                    Some(b) => res matches Ok(d) && d.signature_valid == b,
                },
                None => res matches Ok(d) && d.signature_valid,
            },
            res matches Ok(d) ==> {
                &&& d.receipt == receipt
                &&& d.hash_valid == (receipt.receipt_hash@ == spec_sha256_hex(unsigned_json@))
                &&& match d.audit_record {
                    Some(r) => exists|k: int|
                        is_newest_with_id(records_of(store.entries@), receipt.id@, k) && r
                            == store.entries@[k].record,
                    None => forall|j: int|
                        0 <= j < store.entries@.len() ==> store.entries@[j].record.id@
                            != receipt.id@,
                }
                &&& d.chain_valid == (d.audit_record is Some && log_chain_intact(store.entries@))
            },
    {
        let hash_valid = receipt.verify_hash(unsigned_json);
        let signature_valid = match signer {
            Some(s) => match s.verify_receipt(&receipt, unsigned_json) {
                Ok(b) => b,
                Err(e) => {
                    return Err(HostError::Signing(e));
                },
            },
            None => true,
        };
        let audit_record = store.find_audit_record(receipt.id.as_str());
        let ghost entries = store.entries@;
        let chain_valid = if audit_record.is_some() {
            let report = store.verify_chain(None);
            proof {
                let sorted = choose|sorted: Seq<AuditEntry>|
                    is_stable_sort_of(sorted, entries) && report_describes(
                        report,
                        select_range(sorted, None),
                    );
                assert forall|other: Seq<AuditEntry>| is_stable_sort_of(other, entries) implies other
                    == sorted by {
                    lemma_stable_sort_unique(other, sorted, entries);
                }
            }
            report.valid
        } else {
            false
        };
        Ok(DeepReceipt { receipt, audit_record, hash_valid, signature_valid, chain_valid })
    }

    /// Whether a stored receipt checks out in full: its hash, its signature
    /// and the audit chain.
    pub fn verify_receipt(
        &self,
        receipt: ReceiptEnvelope,
        unsigned_json: &[u8],
        signer: Option<&ReceiptSigner>,
        store: AuditStore,
    ) -> (res: Result<bool, HostError>)
        ensures
            match signer {
                Some(s) => match spec_verify_receipt(
                    s.secret_key(),
                    opt_view(receipt.signature),
                    unsigned_json@,
                ) {
                    None => res matches Err(HostError::Signing(SigningError::InvalidKey(_))),
                    Some(b) => res matches Ok(v) && v == (b && receipt.receipt_hash@
                        == spec_sha256_hex(unsigned_json@) && (exists|j: int|
                        0 <= j < store.entries@.len() && store.entries@[j].record.id@
                            == receipt.id@) && log_chain_intact(store.entries@)),
                },
                None => res matches Ok(v) && v == (receipt.receipt_hash@ == spec_sha256_hex(
                    unsigned_json@,
                ) && (exists|j: int|
                    0 <= j < store.entries@.len() && store.entries@[j].record.id@ == receipt.id@)
                    && log_chain_intact(store.entries@)),
            },
    {
        let ghost entries = store.entries@;
        let ghost id = receipt.id@;
        let deep = self.get_receipt_deep(receipt, unsigned_json, signer, store)?;
        proof {
            match deep.audit_record {
                Some(r) => {
                    let k = choose|k: int|
                        is_newest_with_id(records_of(entries), id, k) && r == entries[k].record;
                    assert(entries[k].record.id@ == id);
                },
                None => {},
            }
        }
        Ok(deep.hash_valid && deep.signature_valid && deep.chain_valid)
    }

    /// The chain check of the audit log over a range of sequence numbers.
    pub fn verify_audit_chain(&self, store: AuditStore, seq_range: Option<SeqRange>) -> (res:
        AuditChainReport)
        ensures
            exists|sorted: Seq<AuditEntry>|
                is_stable_sort_of(sorted, store.entries@) && report_describes(
                    res,
                    select_range(sorted, seq_range),
                ),
    {
        store.verify_chain(seq_range)
    }

    /// A one-line explanation of a tool's policy: the decision for an empty
    /// request, the ceiling check and the signature check.
    pub fn explain_policy(
        &self,
        tool: &ToolRegistration,
        policy: &PolicyProfile,
        policy_hash: String,
        require_signature: bool,
        trust: &TrustStore,
        signing_payload: &[u8],
        network_enabled: bool,
    ) -> (res: String)
        requires
            trust.well_formed(),
        ensures
            exists|
                check: Result<(), HostError>,
                decision: PolicyDecision,
                ceiling: CapabilitySpec,
                requested: CapabilitySpec,
            |
                is_phase0_ceiling(ceiling) && is_empty_request(requested) && policy_signature_checked(
                    check,
                    require_signature,
                    *trust,
                    *policy,
                    signing_payload@,
                ) && (decision.decision, decision.reason@) == spec_evaluate(
                    *policy,
                    tool.publisher@,
                    requested,
                    false,
                    network_enabled,
                ) && decision.policy_hash@ == policy_hash@ && res@ == spec_explain(
                    *policy,
                    decision,
                ) + " "@ + ceiling_text(spec_ceiling_violation(*policy, ceiling))
                    + " "@ + signature_text(check),
    {
        let check = self.validate_policy_signature(require_signature, trust, policy, signing_payload);
        let ceiling = phase0_capability_ceiling();
        let ceiling_result = PolicyEngine::validate_capability_ceilings(policy, &ceiling);
        let requested = CapabilitySpec::default();
        let decision = PolicyEngine::evaluate(
            policy,
            policy_hash,
            tool.publisher.as_str(),
            &requested,
            false,
            network_enabled,
        );
        let base = PolicyEngine::explain(policy, &decision);
        let ceiling_part = ceiling_part(
            &ceiling_result,
            Ghost(spec_ceiling_violation(*policy, ceiling)),
        );
        let signature_part = signature_part(&check);
        let mut s = base;
        push_str(&mut s, " ");
        push_str(&mut s, ceiling_part.as_str());
        push_str(&mut s, " ");
        push_str(&mut s, signature_part.as_str());
        proof {
            assert(is_phase0_ceiling(ceiling));
            assert(is_empty_request(requested));
        }
        s
    }

    /// The local control plane's profile and health for the host's mode.
    pub fn get_control_plane_status(&self, enforcement_mode: EnforcementMode) -> (res:
        ControlPlaneStatus)
        ensures
            is_local_profile(res.profile, enforcement_mode),
            res.health == ControlPlaneHealth::Ready,
    {
        let control_plane = LocalControlPlane::for_local_host(enforcement_mode);
        ControlPlaneStatus { profile: control_plane.profile(), health: control_plane.health() }
    }

    /// The trusted signers.
    pub fn list_trust_signers(&self, trust: TrustStore) -> (res: Vec<String>)
        ensures
            res@ == trust.signers@,
    {
        trust.signers
    }

    /// Trusts a signer.
    pub fn add_trust_signer(&self, trust: &mut TrustStore, signer: &str)
        ensures
            lists(old(trust).signers@, signer@) ==> final(trust).signers@ == old(trust).signers@,
            !lists(old(trust).signers@, signer@) ==> exists|s: String|
                s@ == signer@ && is_stable_sort_of(final(trust).signers@, old(trust).signers@.push(s)),
            lists(final(trust).signers@, signer@),
            final(trust).revoked@ == old(trust).revoked@,
            final(trust).roots@ == old(trust).roots@,
            final(trust).policy_keys@ == old(trust).policy_keys@,
    {
        trust.add_signer(signer);
    }

    /// Revokes a signer.
    pub fn revoke_trust_signer(&self, trust: &mut TrustStore, signer: &str)
        ensures
            lists(old(trust).revoked@, signer@) ==> final(trust).revoked@ == old(trust).revoked@,
            !lists(old(trust).revoked@, signer@) ==> exists|s: String|
                s@ == signer@ && is_stable_sort_of(final(trust).revoked@, old(trust).revoked@.push(s)),
            lists(final(trust).revoked@, signer@),
            final(trust).signers@ == old(trust).signers@,
            final(trust).roots@ == old(trust).roots@,
            final(trust).policy_keys@ == old(trust).policy_keys@,
    {
        trust.revoke_signer(signer);
    }

    /// The page of stored receipts that pass the filters, newest first, of
    /// at least one item.
    pub fn list_receipts_page(
        &self,
        items: Vec<ReceiptListItem>,
        cursor: Option<usize>,
        limit: usize,
        filters: &ReceiptFilters,
    ) -> (res: Page<ReceiptListItem>)
        requires
            page_start(items@.len() as int, cursor) + (if limit > 1 {
                limit as int
            } else {
                1
            }) <= usize::MAX,
        ensures
            exists|sorted: Seq<ReceiptListItem>|
                #[trigger] is_stable_sort_of(sorted, filtered_receipts(items@, *filters)) && ({
                    let l: usize = if limit > 1 {
                        limit
                    } else {
                        1
                    };
                    let total = sorted.len() as int;
                    &&& res.total == total
                    &&& res.items@ == sorted.subrange(
                        page_start(total, cursor),
                        page_end(total, cursor, l),
                    )
                    &&& res.next_cursor == (if page_end(total, cursor, l) < total {
                        Some(page_end(total, cursor, l) as usize)
                    } else {
                        None
                    })
                }),
    {
        let selected = select_receipts(items, filters);
        let l: usize = if limit > 1 {
            limit
        } else {
            1
        };
        proof {
            let pred = |i: ReceiptListItem| receipt_matches(*filters, i);
            let sorted = selected@;
            let filtered = filtered_receipts(items@, *filters);
            assert(filtered == items@.filter(pred));
            crate::sort::lemma_stable_sort_items(sorted, filtered);
            assert(sorted.len() == filtered.len());
            assert(filtered.len() <= items@.len()) by {
                items@.lemma_filter_len(pred);
            }
        }
        paginate(selected, cursor, l)
    }

    /// The receipt of a run, before it is hashed: the run's decision, the
    /// tool's digest, the policy's hash, the output and its hash, the
    /// report, the next link of the audit chain after `chain_tail` (the
    /// last sequence number and record hash), and the signer's key id and
    /// risk where receipts are signed (medium risk where they are not).
    pub fn assemble_receipt(
        &self,
        id: String,
        timestamp: Timestamp,
        tool: &ToolRegistration,
        policy_hash: String,
        plan: &ExecutionPlan,
        output_hash: String,
        payload: String,
        signer: Option<&ReceiptSigner>,
        report: VerificationReport,
        chain_tail: (u64, Option<String>),
    ) -> (res: ReceiptEnvelope)
        requires
            chain_tail.0 < u64::MAX,
        ensures
            res.id == id,
            res.timestamp == timestamp,
            res.tool_digest@ == tool.digest@,
            res.policy_hash == policy_hash,
            res.decision@ == plan.decision@,
            res.reason@ == plan.reason@,
            res.output_hash == output_hash,
            res.payload == payload,
            res.receipt_hash@.len() == 0,
            res.signature is None,
            opt_view(res.signing_key_id) == (match signer {
                Some(s) => Some(s.spec_key_id()),
                None => None,
            }),
            res.verification_report@ == report@,
            res.sequence_number == chain_tail.0 + 1,
            res.prev_audit_hash == chain_tail.1,
            res.risk_level == (match signer {
                Some(s) => s.spec_risk(),
                None => RiskLevel::Medium,
            }),
    {
        let (last_seq, prev_hash) = chain_tail;
        let (signing_key_id, risk_level) = match signer {
            Some(s) => (Some(string_of(s.key_id())), *s.risk_level()),
            None => (None, RiskLevel::Medium),
        };
        ReceiptEnvelope {
            id,
            timestamp,
            tool_digest: string_of(tool.digest.as_str()),
            policy_hash,
            decision: string_of(plan.decision.as_str()),
            reason: string_of(plan.reason.as_str()),
            output_hash,
            payload,
            receipt_hash: String::new(),
            signature: None,
            signing_key_id,
            verification_report: report,
            sequence_number: last_seq + 1,
            prev_audit_hash: prev_hash,
            risk_level,
        }
    }

    /// The audit record of a run, from its receipt: the same id, time,
    /// digests, decision, sequence number and chain link, the run's
    /// duration and the summary of its report, with no record hash yet.
    pub fn assemble_audit_record(&self, receipt: &ReceiptEnvelope, duration_ms: u64) -> (res:
        AuditRecord)
        ensures
            res.id@ == receipt.id@,
            res.timestamp == receipt.timestamp,
            res.tool_digest@ == receipt.tool_digest@,
            res.policy_hash@ == receipt.policy_hash@,
            res.receipt_hash@ == receipt.receipt_hash@,
            res.decision@ == receipt.decision@,
            res.reason@ == receipt.reason@,
            res.duration_ms == duration_ms,
            res.seq == receipt.sequence_number,
            opt_view(res.prev_hash) == opt_view(receipt.prev_audit_hash),
            res.record_hash@.len() == 0,
            res.verification_status == crate::model::spec_summary(
                receipt.verification_report.checks@,
            ),
    {
        AuditRecord {
            id: string_of(receipt.id.as_str()),
            timestamp: receipt.timestamp,
            tool_digest: string_of(receipt.tool_digest.as_str()),
            policy_hash: string_of(receipt.policy_hash.as_str()),
            receipt_hash: string_of(receipt.receipt_hash.as_str()),
            decision: string_of(receipt.decision.as_str()),
            reason: string_of(receipt.reason.as_str()),
            duration_ms,
            seq: receipt.sequence_number,
            prev_hash: crate::model::copy_opt_string(&receipt.prev_audit_hash),
            record_hash: String::new(),
            verification_status: receipt.verification_report.summary(),
        }
    }

    /// The `last_n_runs` newest runs of the audit log, newest first.
    pub fn get_provenance_report(&self, records: Vec<AuditRecord>, last_n_runs: usize) -> (res: Vec<
        ProvenanceRunSummary,
    >)
        ensures
            exists|sorted: Seq<ProvenanceRunSummary>|
                is_stable_sort_of(sorted, records@.map_values(|r: AuditRecord| summary_of(r)))
                    && res@ == sorted.take(
                    if last_n_runs < sorted.len() {
                        last_n_runs as int
                    } else {
                        sorted.len() as int
                    },
                ),
    {
        recent_runs(records, last_n_runs)
    }
}

/// The phase-one ceiling: POST under `api.example.com/v1/`, reads under
/// `/data/`, no writes, no secrets, no randomness.
pub open spec fn is_phase0_ceiling(c: CapabilitySpec) -> bool {
    &&& c.net_http@.len() == 1
    &&& c.net_http@[0].host@ == "api.example.com"@
    &&& c.net_http@[0].path@ == "/v1/"@
    &&& c.net_http@[0].method@ == "POST"@
    &&& c.fs_read@.len() == 1
    &&& c.fs_read@[0].path@ == "/data/"@
    &&& c.fs_write@.len() == 0
    &&& !c.secrets_materialize
    &&& !c.randomness
}

/// A request for nothing at all.
pub open spec fn is_empty_request(c: CapabilitySpec) -> bool {
    &&& c.net_http@.len() == 0
    &&& c.fs_read@.len() == 0
    &&& c.fs_write@.len() == 0
    &&& !c.secrets_materialize
    &&& !c.randomness
}

/// The ceiling part of a policy explanation.
pub open spec fn ceiling_text(violation: Option<Seq<char>>) -> Seq<char> {
    match violation {
        None => "ceiling=ok"@,
        Some(m) => "ceiling=violation details=\""@ + "policy exceeds capability ceiling: "@ + m
            + "\""@,
    }
}

/// The signature part of a policy explanation.
pub open spec fn signature_text(check: Result<(), HostError>) -> Seq<char> {
    match check {
        Ok(()) => "policy_signature=ok"@,
        Err(e) => "policy_signature=failed details=\""@ + host_error_text(e) + "\""@,
    }
}

} // verus!
