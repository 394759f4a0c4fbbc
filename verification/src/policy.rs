//! Policy profiles, their signatures, capability ceilings and the
//! allow/deny decision for a requested set of capabilities.
use vstd::prelude::*;
use crate::crypto::{
    base64_decode, ed25519_check_public_key, ed25519_check_signature_len, ed25519_verify,
    sha256_hex, spec_base64_decode, spec_ed25519_point_valid, spec_ed25519_verify,
    spec_sha256_hex,
};
use crate::model::{CapabilitySpec, FsRule, HttpRule};
use crate::runtime::{has_parent_traversal, is_separator, path_has_parent_traversal};
use crate::text::{
    ascii_lower, bool_text, decimal, eq_ignore_ascii_case, eq_ignore_case, is_blank, is_blank_str, lower_seq,
    push_bool, push_decimal, push_str, starts_with, str_eq, string_of,
};

verus! {

/// Why a policy operation failed. `Json` carries a serialization or parse
/// error met while reading or writing a policy.
#[derive(Debug, Clone)]
pub enum PolicyError {
    Json(String),
    CeilingViolation(String),
    Signature(String),
}

/// The message of a policy error, as it is displayed.
pub open spec fn policy_error_text(e: PolicyError) -> Seq<char> {
    match e {
        PolicyError::Json(m) => "policy serialization/parsing failed: "@ + m@,
        PolicyError::CeilingViolation(m) => "policy exceeds capability ceiling: "@ + m@,
        PolicyError::Signature(m) => "policy signature validation failed: "@ + m@,
    }
}

impl PolicyError {
    /// The message of the error, as it is displayed.
    pub fn message(&self) -> (res: String)
        ensures
            res@ == policy_error_text(*self),
    {
        let (prefix, m) = match self {
            PolicyError::Json(m) => ("policy serialization/parsing failed: ", m),
            PolicyError::CeilingViolation(m) => ("policy exceeds capability ceiling: ", m),
            PolicyError::Signature(m) => ("policy signature validation failed: ", m),
        };
        let mut s = string_of(prefix);
        push_str(&mut s, m.as_str());
        s
    }
}

/// How a policy was signed.
#[derive(Debug, Clone)]
pub struct PolicySignature {
    pub key_id: String,
    pub algorithm: String,
    pub signature: String,
}

/// The HTTP requests a policy allows.
#[derive(Debug, Clone)]
pub struct NetworkCapability {
    pub allow: Vec<HttpRule>,
}

/// The path prefixes a policy allows.
#[derive(Debug, Clone)]
pub struct FilesystemCapability {
    pub allow: Vec<String>,
}

/// The capabilities a policy grants.
#[derive(Debug, Clone)]
pub struct PolicyCapabilities {
    pub net_http: NetworkCapability,
    pub fs_read: FilesystemCapability,
    pub fs_write: FilesystemCapability,
}

/// Whether secrets may be materialized.
#[derive(Debug, Clone, Copy)]
pub struct SecretPolicy {
    pub materialize: bool,
}

/// A policy profile: who may publish tools and what they may do.
#[derive(Debug, Clone)]
pub struct PolicyProfile {
    pub allowed_signers: Vec<String>,
    pub capabilities: PolicyCapabilities,
    pub secrets: SecretPolicy,
    pub signature: Option<PolicySignature>,
}

/// Allow or deny.
#[derive(Debug, Clone, Copy, PartialEq, Eq, Structural)]
pub enum Decision {
    Allow,
    Deny,
}

/// A decision with its reason and the hash of the policy that made it.
#[derive(Debug, Clone)]
pub struct PolicyDecision {
    pub decision: Decision,
    pub reason: String,
    pub policy_hash: String,
}

impl PolicyDecision {
    /// Whether the decision allows.
    pub fn is_allowed(&self) -> (res: bool)
        ensures
            res == (self.decision == Decision::Allow),
    {
        self.decision == Decision::Allow
    }
}

// ---------------------------------------------------------------------
// Matching rules
// ---------------------------------------------------------------------

/// An allowed method matches a requested one: `*`, or equal up to ASCII case.
pub open spec fn method_matches(allow: Seq<char>, request: Seq<char>) -> bool {
    allow == "*"@ || eq_ignore_case(allow, request)
}

/// The request rule is covered by the allow rule: same host, matching
/// method, and the allowed path is a prefix of the requested one.
pub open spec fn http_rule_covers(allow: HttpRule, request: HttpRule) -> bool {
    &&& allow.host@ == request.host@
    &&& method_matches(allow.method@, request.method@)
    &&& allow.path@.is_prefix_of(request.path@)
}

/// Some allow rule covers the request rule.
pub open spec fn http_allowed(allows: Seq<HttpRule>, request: HttpRule) -> bool {
    exists|i: int| 0 <= i < allows.len() && http_rule_covers(allows[i], request)
}

/// The prefix ends where a segment of the path ends: it is empty, ends
/// with a separator, is the whole path, or a separator follows it.
pub open spec fn on_segment_boundary(prefix: Seq<char>, path: Seq<char>) -> bool {
    ||| prefix.len() == 0
    ||| is_separator(prefix.last())
    ||| path.len() == prefix.len()
    ||| (prefix.len() < path.len() && is_separator(path[prefix.len() as int]))
}

/// The path lies under the prefix: it has no `..` segment, and the prefix
/// begins it and ends on one of its segment boundaries.
pub open spec fn path_under(prefix: Seq<char>, path: Seq<char>) -> bool {
    &&& !has_parent_traversal(path)
    &&& prefix.is_prefix_of(path)
    &&& on_segment_boundary(prefix, path)
}

/// The path lies under some allowed prefix.
pub open spec fn path_allowed(prefixes: Seq<String>, path: Seq<char>) -> bool {
    exists|i: int| 0 <= i < prefixes.len() && path_under(prefixes[i]@, path)
}

/// The path lies under some rule's path.
pub open spec fn path_allowed_by_rules(rules: Seq<FsRule>, path: Seq<char>) -> bool {
    exists|i: int| 0 <= i < rules.len() && path_under(rules[i].path@, path)
}

/// Lying under a prefix is transitive.
pub proof fn lemma_path_under_trans(outer: Seq<char>, middle: Seq<char>, path: Seq<char>)
    requires
        path_under(outer, middle),
        path_under(middle, path),
    ensures
        path_under(outer, path),
{
    if outer.len() > 0 && !is_separator(outer.last()) && middle.len() == outer.len() {
        assert(outer =~= middle);
    }
    if outer.len() < middle.len() {
        assert(middle[outer.len() as int] == path[outer.len() as int]);
    }
}

/// The policy rule lies within the ceiling rule: same host, the ceiling
/// method admits the policy method (the ceiling's is `*`, or both are equal
/// up to ASCII case, so that a policy `*` needs a ceiling `*`), and the
/// ceiling path begins the policy path.
pub open spec fn http_rule_within(ceiling: HttpRule, rule: HttpRule) -> bool {
    &&& rule.host@ == ceiling.host@
    &&& method_matches(ceiling.method@, rule.method@)
    &&& ceiling.path@.is_prefix_of(rule.path@)
}

/// Only `*` itself equals `*` up to ASCII case.
proof fn lemma_star_ignore_case(m: Seq<char>)
    requires
        eq_ignore_case(m, "*"@),
    ensures
        m == "*"@,
{
    reveal_strlit("*");
    assert(lower_seq(m).len() == 1);
    assert(lower_seq(m)[0] == ascii_lower(m[0]));
    assert(m =~= "*"@);
}

/// Some ceiling rule holds the policy rule.
pub open spec fn http_within_ceiling(ceiling: Seq<HttpRule>, rule: HttpRule) -> bool {
    exists|i: int| 0 <= i < ceiling.len() && http_rule_within(ceiling[i], rule)
}

fn method_matches_exec(allow: &str, request: &str) -> (res: bool)
    ensures
        res == method_matches(allow@, request@),
{
    str_eq(allow, "*") || eq_ignore_ascii_case(allow, request)
}

fn http_allowed_exec(allows: &Vec<HttpRule>, request: &HttpRule) -> (res: bool)
    ensures
        res == http_allowed(allows@, *request),
{
    let n = allows.len();
    let mut i: usize = 0;
    while i < n
        invariant
            n == allows@.len(),
            i <= n,
            forall|j: int| 0 <= j < i ==> !http_rule_covers(#[trigger] allows@[j], *request),
        decreases n - i,
    {
        let a = &allows[i];
        if str_eq(a.host.as_str(), request.host.as_str()) && method_matches_exec(
            a.method.as_str(),
            request.method.as_str(),
        ) && starts_with(request.path.as_str(), a.path.as_str()) {
            assert(http_rule_covers(allows@[i as int], *request));
            return true;
        }
        i = i + 1;
    }
    false
}

fn http_within_ceiling_exec(ceiling: &Vec<HttpRule>, rule: &HttpRule) -> (res: bool)
    ensures
        res == http_within_ceiling(ceiling@, *rule),
{
    let n = ceiling.len();
    let mut i: usize = 0;
    while i < n
        invariant
            n == ceiling@.len(),
            i <= n,
            forall|j: int| 0 <= j < i ==> !http_rule_within(#[trigger] ceiling@[j], *rule),
        decreases n - i,
    {
        let c = &ceiling[i];
        if str_eq(rule.host.as_str(), c.host.as_str()) && method_matches_exec(
            c.method.as_str(),
            rule.method.as_str(),
        ) && starts_with(rule.path.as_str(), c.path.as_str()) {
            assert(http_rule_within(ceiling@[i as int], *rule));
            return true;
        }
        i = i + 1;
    }
    false
}

/// Whether the path lies under the prefix, given whether it has a `..`
/// segment.
fn path_under_exec(prefix: &str, path: &str, traversal: bool) -> (res: bool)
    requires
        traversal == has_parent_traversal(path@),
    ensures
        res == path_under(prefix@, path@),
{
    if traversal || !starts_with(path, prefix) {
        return false;
    }
    let n = prefix.unicode_len();
    let m = path.unicode_len();
    if n == 0 || n == m {
        return true;
    }
    let last = prefix.get_char(n - 1);
    if last == '/' || last == '\\' {
        return true;
    }
    let next = path.get_char(n);
    next == '/' || next == '\\'
}

fn path_allowed_exec(path: &str, prefixes: &Vec<String>) -> (res: bool)
    ensures
        res == path_allowed(prefixes@, path@),
{
    let traversal = path_has_parent_traversal(path);
    let n = prefixes.len();
    let mut i: usize = 0;
    while i < n
        invariant
            n == prefixes@.len(),
            i <= n,
            traversal == has_parent_traversal(path@),
            forall|j: int| 0 <= j < i ==> !path_under((#[trigger] prefixes@[j])@, path@),
        decreases n - i,
    {
        if path_under_exec(prefixes[i].as_str(), path, traversal) {
            return true;
        }
        i = i + 1;
    }
    false
}

fn path_allowed_by_rules_exec(path: &str, rules: &Vec<FsRule>) -> (res: bool)
    ensures
        res == path_allowed_by_rules(rules@, path@),
{
    let traversal = path_has_parent_traversal(path);
    let n = rules.len();
    let mut i: usize = 0;
    while i < n
        invariant
            n == rules@.len(),
            i <= n,
            traversal == has_parent_traversal(path@),
            forall|j: int| 0 <= j < i ==> !path_under((#[trigger] rules@[j]).path@, path@),
        decreases n - i,
    {
        if path_under_exec(rules[i].path.as_str(), path, traversal) {
            return true;
        }
        i = i + 1;
    }
    false
}

// ---------------------------------------------------------------------
// First offending rules
// ---------------------------------------------------------------------

/// Position `i` holds the first request rule that no allow rule covers.
pub open spec fn first_http_rejected(allows: Seq<HttpRule>, rules: Seq<HttpRule>, i: int) -> bool {
    &&& 0 <= i < rules.len()
    &&& !http_allowed(allows, rules[i])
    &&& forall|j: int| 0 <= j < i ==> http_allowed(allows, rules[j])
}

/// Position `i` holds the first path that no prefix allows.
pub open spec fn first_path_rejected(prefixes: Seq<String>, rules: Seq<FsRule>, i: int) -> bool {
    &&& 0 <= i < rules.len()
    &&& !path_allowed(prefixes, rules[i].path@)
    &&& forall|j: int| 0 <= j < i ==> path_allowed(prefixes, rules[j].path@)
}

/// Position `i` holds the first policy rule outside the ceiling.
pub open spec fn first_http_outside(ceiling: Seq<HttpRule>, rules: Seq<HttpRule>, i: int) -> bool {
    &&& 0 <= i < rules.len()
    &&& !http_within_ceiling(ceiling, rules[i])
    &&& forall|j: int| 0 <= j < i ==> http_within_ceiling(ceiling, rules[j])
}

/// Position `i` holds the first policy path outside the ceiling rules.
pub open spec fn first_path_outside(ceiling: Seq<FsRule>, paths: Seq<String>, i: int) -> bool {
    &&& 0 <= i < paths.len()
    &&& !path_allowed_by_rules(ceiling, paths[i]@)
    &&& forall|j: int| 0 <= j < i ==> path_allowed_by_rules(ceiling, paths[j]@)
}

/// The text of a rejected HTTP rule: method, a space, host and path.
pub open spec fn http_rule_text(rule: HttpRule) -> Seq<char> {
    rule.method@ + " "@ + rule.host@ + rule.path@
}

/// Appends the text of an HTTP rule.
fn push_http_rule(s: &mut String, rule: &HttpRule)
    ensures
        final(s)@ == old(s)@ + http_rule_text(*rule),
{
    push_str(s, rule.method.as_str());
    push_str(s, " ");
    push_str(s, rule.host.as_str());
    push_str(s, rule.path.as_str());
    assert(final(s)@ =~= old(s)@ + http_rule_text(*rule));
}

/// The first request rule that no allow rule covers.
fn first_http_rejected_exec(allows: &Vec<HttpRule>, rules: &Vec<HttpRule>) -> (res: Option<usize>)
    ensures
        match res {
            Some(i) => first_http_rejected(allows@, rules@, i as int),
            None => forall|j: int| 0 <= j < rules@.len() ==> http_allowed(allows@, #[trigger] rules@[j]),
        },
{
    let n = rules.len();
    let mut i: usize = 0;
    while i < n
        invariant
            n == rules@.len(),
            i <= n,
            forall|j: int| 0 <= j < i ==> http_allowed(allows@, #[trigger] rules@[j]),
        decreases n - i,
    {
        if !http_allowed_exec(allows, &rules[i]) {
            return Some(i);
        }
        i = i + 1;
    }
    None
}

/// The first path that no prefix allows.
fn first_path_rejected_exec(prefixes: &Vec<String>, rules: &Vec<FsRule>) -> (res: Option<usize>)
    ensures
        match res {
            Some(i) => first_path_rejected(prefixes@, rules@, i as int),
            None => forall|j: int|
                0 <= j < rules@.len() ==> path_allowed(prefixes@, (#[trigger] rules@[j]).path@),
        },
{
    let n = rules.len();
    let mut i: usize = 0;
    while i < n
        invariant
            n == rules@.len(),
            i <= n,
            forall|j: int| 0 <= j < i ==> path_allowed(prefixes@, (#[trigger] rules@[j]).path@),
        decreases n - i,
    {
        if !path_allowed_exec(rules[i].path.as_str(), prefixes) {
            return Some(i);
        }
        i = i + 1;
    }
    None
}

/// The first policy rule outside the ceiling.
fn first_http_outside_exec(ceiling: &Vec<HttpRule>, rules: &Vec<HttpRule>) -> (res: Option<usize>)
    ensures
        match res {
            Some(i) => first_http_outside(ceiling@, rules@, i as int),
            None => forall|j: int|
                0 <= j < rules@.len() ==> http_within_ceiling(ceiling@, #[trigger] rules@[j]),
        },
{
    let n = rules.len();
    let mut i: usize = 0;
    while i < n
        invariant
            n == rules@.len(),
            i <= n,
            forall|j: int| 0 <= j < i ==> http_within_ceiling(ceiling@, #[trigger] rules@[j]),
        decreases n - i,
    {
        if !http_within_ceiling_exec(ceiling, &rules[i]) {
            return Some(i);
        }
        i = i + 1;
    }
    None
}

/// The first policy path outside the ceiling rules.
fn first_path_outside_exec(ceiling: &Vec<FsRule>, paths: &Vec<String>) -> (res: Option<usize>)
    ensures
        match res {
            Some(i) => first_path_outside(ceiling@, paths@, i as int),
            None => forall|j: int|
                0 <= j < paths@.len() ==> path_allowed_by_rules(ceiling@, (#[trigger] paths@[j])@),
        },
{
    let n = paths.len();
    let mut i: usize = 0;
    while i < n
        invariant
            n == paths@.len(),
            i <= n,
            forall|j: int| 0 <= j < i ==> path_allowed_by_rules(ceiling@, (#[trigger] paths@[j])@),
        decreases n - i,
    {
        if !path_allowed_by_rules_exec(paths[i].as_str(), ceiling) {
            return Some(i);
        }
        i = i + 1;
    }
    None
}

// ---------------------------------------------------------------------
// Specifications of the engine
// ---------------------------------------------------------------------

/// The allowed signers list is empty (anyone may sign) or names the signer.
pub open spec fn signer_allowed(signers: Seq<String>, signer: Seq<char>) -> bool {
    signers.len() == 0 || exists|i: int| 0 <= i < signers.len() && signers[i]@ == signer
}

/// The decision and reason that `evaluate` gives, in the order its checks run.
pub open spec fn spec_evaluate(
    policy: PolicyProfile,
    signer: Seq<char>,
    requested: CapabilitySpec,
    tainted: bool,
    network_enabled: bool,
) -> (Decision, Seq<char>) {
    let allows = policy.capabilities.net_http.allow@;
    let reads = policy.capabilities.fs_read.allow@;
    let writes = policy.capabilities.fs_write.allow@;
    if !signer_allowed(policy.allowed_signers@, signer) {
        (Decision::Deny, "signer-not-allowed"@)
    } else if requested.randomness {
        (Decision::Deny, "randomness-denied-phase0"@)
    } else if requested.secrets_materialize && !policy.secrets.materialize {
        (Decision::Deny, "secret-materialization-denied"@)
    } else if tainted && requested.net_http@.len() > 0 {
        (Decision::Deny, "tainted-input-network-downgrade"@)
    } else if !network_enabled && requested.net_http@.len() > 0 {
        (Decision::Deny, "network-disabled-in-config"@)
    } else if exists|i: int| first_http_rejected(allows, requested.net_http@, i) {
        let i = choose|i: int| first_http_rejected(allows, requested.net_http@, i);
        (Decision::Deny, "net.http rule rejected: "@ + http_rule_text(requested.net_http@[i]))
    } else if exists|i: int| first_path_rejected(reads, requested.fs_read@, i) {
        let i = choose|i: int| first_path_rejected(reads, requested.fs_read@, i);
        (Decision::Deny, "fs.read rule rejected: "@ + requested.fs_read@[i].path@)
    } else if exists|i: int| first_path_rejected(writes, requested.fs_write@, i) {
        let i = choose|i: int| first_path_rejected(writes, requested.fs_write@, i);
        (Decision::Deny, "fs.write rule rejected: "@ + requested.fs_write@[i].path@)
    } else {
        (Decision::Allow, "policy-match"@)
    }
}

/// The ceiling violation that `validate_capability_ceilings` reports, if any.
pub open spec fn spec_ceiling_violation(policy: PolicyProfile, ceiling: CapabilitySpec) -> Option<
    Seq<char>,
> {
    let rules = policy.capabilities.net_http.allow@;
    let reads = policy.capabilities.fs_read.allow@;
    let writes = policy.capabilities.fs_write.allow@;
    if exists|i: int| first_http_outside(ceiling.net_http@, rules, i) {
        let i = choose|i: int| first_http_outside(ceiling.net_http@, rules, i);
        Some("network rule outside ceiling: "@ + http_rule_text(rules[i]))
    } else if exists|i: int| first_path_outside(ceiling.fs_read@, reads, i) {
        let i = choose|i: int| first_path_outside(ceiling.fs_read@, reads, i);
        Some("fs.read path outside ceiling: "@ + reads[i]@)
    } else if exists|i: int| first_path_outside(ceiling.fs_write@, writes, i) {
        let i = choose|i: int| first_path_outside(ceiling.fs_write@, writes, i);
        Some("fs.write path outside ceiling: "@ + writes[i]@)
    } else if policy.secrets.materialize && !ceiling.secrets_materialize {
        Some("secrets.materialize outside ceiling"@)
    } else {
        None
    }
}

/// What `validate_signature_metadata` rejects, if anything.
pub open spec fn spec_metadata_error(policy: PolicyProfile, require_signature: bool) -> Option<
    Seq<char>,
> {
    if !require_signature {
        None
    } else {
        match policy.signature {
            None => Some("missing policy signature metadata"@),
            Some(sig) => if is_blank(sig.key_id@) || is_blank(sig.signature@) {
                Some("invalid policy signature fields"@)
            } else {
                None
            },
        }
    }
}

/// How `verify_signature` ends: accepted, rejected with exactly the given
/// message, or rejected with a message that begins with the given text and
/// goes on with the underlying decoder's or verifier's own words.
pub enum SignatureOutcome {
    Accepted,
    Rejected(Seq<char>),
    RejectedWith(Seq<char>),
}

/// The outcome of verifying a policy's signature over `payload`, the
/// serialization of the policy without its signature, against a base64
/// public key.
pub open spec fn spec_signature_outcome(
    policy: PolicyProfile,
    payload: Seq<u8>,
    public_key_b64: Seq<char>,
    require_signature: bool,
) -> SignatureOutcome {
    match spec_metadata_error(policy, require_signature) {
        Some(msg) => SignatureOutcome::Rejected(msg),
        None => if !require_signature {
            SignatureOutcome::Accepted
        } else {
            let sig = policy.signature.unwrap();
            if !eq_ignore_case(sig.algorithm@, "ed25519"@) {
                SignatureOutcome::Rejected(
                    "unsupported policy signature algorithm: "@ + sig.algorithm@,
                )
            } else {
                match spec_base64_decode(public_key_b64) {
                    None => SignatureOutcome::RejectedWith("invalid public key encoding: "@),
                    Some(pk) => if pk.len() != 32 {
                        SignatureOutcome::Rejected("public key must be 32 bytes"@)
                    } else if !spec_ed25519_point_valid(pk) {
                        SignatureOutcome::RejectedWith("invalid public key: "@)
                    } else {
                        match spec_base64_decode(sig.signature@) {
                            None => SignatureOutcome::RejectedWith(
                                "invalid signature encoding: "@,
                            ),
                            Some(sb) => if sb.len() != 64 {
                                SignatureOutcome::RejectedWith("invalid signature bytes: "@)
                            } else if !spec_ed25519_verify(pk, payload, sb) {
                                SignatureOutcome::RejectedWith(
                                    "signature verification failed: "@,
                                )
                            } else {
                                SignatureOutcome::Accepted
                            },
                        }
                    },
                }
            }
        },
    }
}

/// The result of a signature check agrees with an outcome.
pub open spec fn signature_result_matches(
    res: Result<(), PolicyError>,
    outcome: SignatureOutcome,
) -> bool {
    match outcome {
        SignatureOutcome::Accepted => res is Ok,
        SignatureOutcome::Rejected(msg) => res matches Err(PolicyError::Signature(m)) && m@ == msg,
        SignatureOutcome::RejectedWith(prefix) => res matches Err(PolicyError::Signature(m))
            && prefix.is_prefix_of(m@),
    }
}

/// The text of a decision.
pub open spec fn decision_text(d: Decision) -> Seq<char> {
    match d {
        Decision::Allow => "allow"@,
        Decision::Deny => "deny"@,
    }
}

/// The one-line explanation of a policy and a decision.
pub open spec fn spec_explain(policy: PolicyProfile, decision: PolicyDecision) -> Seq<char> {
    "decision="@ + decision_text(decision.decision) + " reason="@ + decision.reason@
        + " allowed_signers="@ + decimal(policy.allowed_signers@.len()) + " net_http_allow="@
        + decimal(policy.capabilities.net_http.allow@.len()) + " fs_read_allow="@ + decimal(
        policy.capabilities.fs_read.allow@.len(),
    ) + " fs_write_allow="@ + decimal(policy.capabilities.fs_write.allow@.len())
        + " secrets_materialize="@ + bool_text(policy.secrets.materialize)
        + " policy_signature="@ + (if policy.signature is Some {
        "present"@
    } else {
        "missing"@
    })
}

/// An allow with the given reason.
fn allow(reason: &str, policy_hash: String) -> (res: PolicyDecision)
    ensures
        res.decision == Decision::Allow,
        res.reason@ == reason@,
        res.policy_hash@ == policy_hash@,
{
    PolicyDecision { decision: Decision::Allow, reason: string_of(reason), policy_hash }
}

/// A denial with the given reason.
fn deny(reason: &str, policy_hash: String) -> (res: PolicyDecision)
    ensures
        res.decision == Decision::Deny,
        res.reason@ == reason@,
        res.policy_hash@ == policy_hash@,
{
    PolicyDecision { decision: Decision::Deny, reason: string_of(reason), policy_hash }
}

/// The label of a decision.
fn decision_label(decision: &Decision) -> (res: &'static str)
    ensures
        res@ == decision_text(*decision),
{
    match decision {
        Decision::Allow => "allow",
        Decision::Deny => "deny",
    }
}

fn signature_error(prefix: &str, detail: &str) -> (res: PolicyError)
    ensures
        res matches PolicyError::Signature(m) && m@ == prefix@ + detail@,
{
    let mut m = string_of(prefix);
    push_str(&mut m, detail);
    PolicyError::Signature(m)
}

/// The policy engine.
#[derive(Debug, Default)]
pub struct PolicyEngine;

impl PolicyEngine {
    /// The policy hash: `sha256:` and the lower-case hex SHA-256 of
    /// `policy_json`, the serialization of the policy.
    pub fn to_hash(policy_json: &[u8]) -> (res: String)
        ensures
            res@ == "sha256:"@ + spec_sha256_hex(policy_json@),
    {
        let mut res = string_of("sha256:");
        let hex = sha256_hex(policy_json);
        push_str(&mut res, hex.as_str());
        res
    }

    /// Checks that signature metadata is present and filled in, where a
    /// signature is required.
    pub fn validate_signature_metadata(policy: &PolicyProfile, require_signature: bool) -> (res:
        Result<(), PolicyError>)
        ensures
            match spec_metadata_error(*policy, require_signature) {
                None => res is Ok,
                Some(msg) => res matches Err(PolicyError::Signature(m)) && m@ == msg,
            },
    {
        if !require_signature {
            return Ok(());
        }
        match &policy.signature {
            None => Err(PolicyError::Signature(string_of("missing policy signature metadata"))),
            Some(sig) => {
                if is_blank_str(sig.key_id.as_str()) || is_blank_str(sig.signature.as_str()) {
                    Err(PolicyError::Signature(string_of("invalid policy signature fields")))
                } else {
                    Ok(())
                }
            },
        }
    }

    /// Verifies the policy's Ed25519 signature over `signing_payload` (the
    /// serialization of the policy without its signature) against the
    /// base64 public key, where a signature is required.
    pub fn verify_signature(
        policy: &PolicyProfile,
        signing_payload: &[u8],
        public_key_b64: &str,
        require_signature: bool,
    ) -> (res: Result<(), PolicyError>)
        ensures
            signature_result_matches(
                res,
                spec_signature_outcome(*policy, signing_payload@, public_key_b64@, require_signature),
            ),
    {
        Self::validate_signature_metadata(policy, require_signature)?;
        if !require_signature {
            return Ok(());
        }
        let signature = match &policy.signature {
            Some(s) => s,
            None => {
                return Err(PolicyError::Signature(string_of("missing policy signature metadata")));
            },
        };
        if !eq_ignore_ascii_case(signature.algorithm.as_str(), "ed25519") {
            return Err(
                signature_error(
                    "unsupported policy signature algorithm: ",
                    signature.algorithm.as_str(),
                ),
            );
        }
        let public_key = match base64_decode(public_key_b64) {
            Ok(bytes) => bytes,
            Err(e) => {
                return Err(signature_error("invalid public key encoding: ", e.as_str()));
            },
        };
        if public_key.len() != 32 {
            return Err(PolicyError::Signature(string_of("public key must be 32 bytes")));
        }
        match ed25519_check_public_key(public_key.as_slice()) {
            Ok(()) => {},
            Err(e) => {
                return Err(signature_error("invalid public key: ", e.as_str()));
            },
        }
        let signature_bytes = match base64_decode(signature.signature.as_str()) {
            Ok(bytes) => bytes,
            Err(e) => {
                return Err(signature_error("invalid signature encoding: ", e.as_str()));
            },
        };
        match ed25519_check_signature_len(signature_bytes.as_slice()) {
            Ok(()) => {},
            Err(e) => {
                return Err(signature_error("invalid signature bytes: ", e.as_str()));
            },
        }
        match ed25519_verify(public_key.as_slice(), signing_payload, signature_bytes.as_slice()) {
            Ok(()) => Ok(()),
            Err(e) => Err(signature_error("signature verification failed: ", e.as_str())),
        }
    }

    /// Checks that every rule of the policy lies within the ceiling.
    pub fn validate_capability_ceilings(policy: &PolicyProfile, ceiling: &CapabilitySpec) -> (res:
        Result<(), PolicyError>)
        ensures
            match spec_ceiling_violation(*policy, *ceiling) {
                None => res is Ok,
                Some(msg) => res matches Err(PolicyError::CeilingViolation(m)) && m@ == msg,
            },
    {
        let rules = &policy.capabilities.net_http.allow;
        match first_http_outside_exec(&ceiling.net_http, rules) {
            Some(i) => {
                let mut m = string_of("network rule outside ceiling: ");
                push_http_rule(&mut m, &rules[i]);
                proof {
                    let c = choose|c: int| first_http_outside(ceiling.net_http@, rules@, c);
                    assert(c == i);
                }
                return Err(PolicyError::CeilingViolation(m));
            },
            None => {},
        }
        let reads = &policy.capabilities.fs_read.allow;
        match first_path_outside_exec(&ceiling.fs_read, reads) {
            Some(i) => {
                let mut m = string_of("fs.read path outside ceiling: ");
                push_str(&mut m, reads[i].as_str());
                proof {
                    let c = choose|c: int| first_path_outside(ceiling.fs_read@, reads@, c);
                    assert(c == i);
                }
                return Err(PolicyError::CeilingViolation(m));
            },
            None => {},
        }
        let writes = &policy.capabilities.fs_write.allow;
        match first_path_outside_exec(&ceiling.fs_write, writes) {
            Some(i) => {
                let mut m = string_of("fs.write path outside ceiling: ");
                push_str(&mut m, writes[i].as_str());
                proof {
                    let c = choose|c: int| first_path_outside(ceiling.fs_write@, writes@, c);
                    assert(c == i);
                }
                return Err(PolicyError::CeilingViolation(m));
            },
            None => {},
        }
        if policy.secrets.materialize && !ceiling.secrets_materialize {
            return Err(
                PolicyError::CeilingViolation(string_of("secrets.materialize outside ceiling")),
            );
        }
        Ok(())
    }

    /// Decides whether a tool published by `signer` may use the requested
    /// capabilities under the policy whose hash is `policy_hash`.
    pub fn evaluate(
        policy: &PolicyProfile,
        policy_hash: String,
        signer: &str,
        requested: &CapabilitySpec,
        tainted: bool,
        network_enabled: bool,
    ) -> (res: PolicyDecision)
        ensures
            (res.decision, res.reason@) == spec_evaluate(
                *policy,
                signer@,
                *requested,
                tainted,
                network_enabled,
            ),
            res.policy_hash@ == policy_hash@,
    {
        let signers = &policy.allowed_signers;
        if signers.len() > 0 {
            let n = signers.len();
            let mut found = false;
            let mut i: usize = 0;
            while i < n
                invariant
                    n == signers@.len(),
                    i <= n,
                    found == exists|j: int| 0 <= j < i && signers@[j]@ == signer@,
                decreases n - i,
            {
                if str_eq(signers[i].as_str(), signer) {
                    found = true;
                }
                i = i + 1;
            }
            if !found {
                return deny("signer-not-allowed", policy_hash);
            }
        }
        if requested.randomness {
            return deny("randomness-denied-phase0", policy_hash);
        }
        if requested.secrets_materialize && !policy.secrets.materialize {
            return deny("secret-materialization-denied", policy_hash);
        }
        if tainted && requested.net_http.len() > 0 {
            return deny("tainted-input-network-downgrade", policy_hash);
        }
        if !network_enabled && requested.net_http.len() > 0 {
            return deny("network-disabled-in-config", policy_hash);
        }
        let allows = &policy.capabilities.net_http.allow;
        match first_http_rejected_exec(allows, &requested.net_http) {
            Some(i) => {
                let mut m = string_of("net.http rule rejected: ");
                push_http_rule(&mut m, &requested.net_http[i]);
                proof {
                    let c = choose|c: int| first_http_rejected(allows@, requested.net_http@, c);
                    assert(c == i);
                }
                return deny(m.as_str(), policy_hash);
            },
            None => {},
        }
        let reads = &policy.capabilities.fs_read.allow;
        match first_path_rejected_exec(reads, &requested.fs_read) {
            Some(i) => {
                let mut m = string_of("fs.read rule rejected: ");
                push_str(&mut m, requested.fs_read[i].path.as_str());
                proof {
                    let c = choose|c: int| first_path_rejected(reads@, requested.fs_read@, c);
                    assert(c == i);
                }
                return deny(m.as_str(), policy_hash);
            },
            None => {},
        }
        let writes = &policy.capabilities.fs_write.allow;
        match first_path_rejected_exec(writes, &requested.fs_write) {
            Some(i) => {
                let mut m = string_of("fs.write rule rejected: ");
                push_str(&mut m, requested.fs_write[i].path.as_str());
                proof {
                    let c = choose|c: int| first_path_rejected(writes@, requested.fs_write@, c);
                    assert(c == i);
                }
                return deny(m.as_str(), policy_hash);
            },
            None => {},
        }
        allow("policy-match", policy_hash)
    }

    /// A one-line explanation of the decision and the size of the policy.
    pub fn explain(policy: &PolicyProfile, decision: &PolicyDecision) -> (res: String)
        ensures
            res@ == spec_explain(*policy, *decision),
    {
        let mut s = string_of("decision=");
        push_str(&mut s, decision_label(&decision.decision));
        push_str(&mut s, " reason=");
        push_str(&mut s, decision.reason.as_str());
        push_str(&mut s, " allowed_signers=");
        push_decimal(&mut s, policy.allowed_signers.len() as u64);
        push_str(&mut s, " net_http_allow=");
        push_decimal(&mut s, policy.capabilities.net_http.allow.len() as u64);
        push_str(&mut s, " fs_read_allow=");
        push_decimal(&mut s, policy.capabilities.fs_read.allow.len() as u64);
        push_str(&mut s, " fs_write_allow=");
        push_decimal(&mut s, policy.capabilities.fs_write.allow.len() as u64);
        push_str(&mut s, " secrets_materialize=");
        push_bool(&mut s, policy.secrets.materialize);
        push_str(&mut s, " policy_signature=");
        if policy.signature.is_some() {
            push_str(&mut s, "present");
        } else {
            push_str(&mut s, "missing");
        }
        s
    }
}

// ---------------------------------------------------------------------
// Laws
// ---------------------------------------------------------------------

/// Where some position fails a test, a first one does.
pub proof fn lemma_first_failure(ok: spec_fn(int) -> bool, n: int, k: int) -> (f: int)
    requires
        0 <= k < n,
        !ok(k),
    ensures
        0 <= f <= k,
        !ok(f),
        forall|j: int| 0 <= j < f ==> #[trigger] ok(j),
    decreases k,
{
    if exists|j: int| 0 <= j < k && !#[trigger] ok(j) {
        let j = choose|j: int| 0 <= j < k && !#[trigger] ok(j);
        lemma_first_failure(ok, n, j)
    } else {
        k
    }
}

/// Every capability the policy grants lies within the ceiling: each HTTP
/// rule within some ceiling rule, each path under some ceiling path of its
/// kind, and secret materialization only where the ceiling grants it.
pub open spec fn policy_within_ceiling(policy: PolicyProfile, ceiling: CapabilitySpec) -> bool {
    &&& forall|i: int|
        0 <= i < policy.capabilities.net_http.allow@.len() ==> http_within_ceiling(
            ceiling.net_http@,
            #[trigger] policy.capabilities.net_http.allow@[i],
        )
    &&& forall|i: int|
        0 <= i < policy.capabilities.fs_read.allow@.len() ==> path_allowed_by_rules(
            ceiling.fs_read@,
            (#[trigger] policy.capabilities.fs_read.allow@[i])@,
        )
    &&& forall|i: int|
        0 <= i < policy.capabilities.fs_write.allow@.len() ==> path_allowed_by_rules(
            ceiling.fs_write@,
            (#[trigger] policy.capabilities.fs_write.allow@[i])@,
        )
    &&& policy.secrets.materialize ==> ceiling.secrets_materialize
}

/// The ceiling check passes exactly when every capability the policy grants
/// lies within the ceiling.
pub proof fn law_ceiling_check_passes_iff_within(policy: PolicyProfile, ceiling: CapabilitySpec)
    ensures
        spec_ceiling_violation(policy, ceiling) is None <==> policy_within_ceiling(policy, ceiling),
{
    let rules = policy.capabilities.net_http.allow@;
    let reads = policy.capabilities.fs_read.allow@;
    let writes = policy.capabilities.fs_write.allow@;
    let ok_rule = |i: int| http_within_ceiling(ceiling.net_http@, rules[i]);
    let ok_read = |i: int| path_allowed_by_rules(ceiling.fs_read@, reads[i]@);
    let ok_write = |i: int| path_allowed_by_rules(ceiling.fs_write@, writes[i]@);
    if spec_ceiling_violation(policy, ceiling) is None {
        assert forall|i: int| 0 <= i < rules.len() implies http_within_ceiling(ceiling.net_http@, #[trigger] rules[i]) by {
            if !ok_rule(i) {
                let f = lemma_first_failure(ok_rule, rules.len() as int, i);
                assert forall|j: int| 0 <= j < f implies http_within_ceiling(ceiling.net_http@, rules[j]) by {
                    assert(ok_rule(j));
                }
                assert(first_http_outside(ceiling.net_http@, rules, f));
            }
        }
        assert forall|i: int| 0 <= i < reads.len() implies path_allowed_by_rules(ceiling.fs_read@, (#[trigger] reads[i])@) by {
            if !ok_read(i) {
                let f = lemma_first_failure(ok_read, reads.len() as int, i);
                assert forall|j: int| 0 <= j < f implies path_allowed_by_rules(ceiling.fs_read@, reads[j]@) by {
                    assert(ok_read(j));
                }
                assert(first_path_outside(ceiling.fs_read@, reads, f));
            }
        }
        assert forall|i: int| 0 <= i < writes.len() implies path_allowed_by_rules(ceiling.fs_write@, (#[trigger] writes[i])@) by {
            if !ok_write(i) {
                let f = lemma_first_failure(ok_write, writes.len() as int, i);
                assert forall|j: int| 0 <= j < f implies path_allowed_by_rules(ceiling.fs_write@, writes[j]@) by {
                    assert(ok_write(j));
                }
                assert(first_path_outside(ceiling.fs_write@, writes, f));
            }
        }
    }
    if policy_within_ceiling(policy, ceiling) {
        assert(!exists|i: int| first_http_outside(ceiling.net_http@, rules, i));
        assert(!exists|i: int| first_path_outside(ceiling.fs_read@, reads, i));
        assert(!exists|i: int| first_path_outside(ceiling.fs_write@, writes, i));
    }
}

/// Every requested capability lies within the ceiling, read as a policy:
/// each HTTP rule is covered by a ceiling rule, each path lies under a
/// ceiling path, secrets only where the ceiling allows them, no randomness.
pub open spec fn request_within_ceiling(ceiling: CapabilitySpec, requested: CapabilitySpec) -> bool {
    &&& forall|i: int|
        0 <= i < requested.net_http@.len() ==> http_allowed(ceiling.net_http@, #[trigger] requested.net_http@[i])
    &&& forall|i: int|
        0 <= i < requested.fs_read@.len() ==> path_allowed_by_rules(
            ceiling.fs_read@,
            (#[trigger] requested.fs_read@[i]).path@,
        )
    &&& forall|i: int|
        0 <= i < requested.fs_write@.len() ==> path_allowed_by_rules(
            ceiling.fs_write@,
            (#[trigger] requested.fs_write@[i]).path@,
        )
    &&& requested.secrets_materialize ==> ceiling.secrets_materialize
    &&& !requested.randomness
}

/// Defense in depth: where a policy lies within a ceiling and allows a
/// request, the request lies within the ceiling too.
pub proof fn law_allowed_request_within_ceiling(
    policy: PolicyProfile,
    ceiling: CapabilitySpec,
    signer: Seq<char>,
    requested: CapabilitySpec,
    tainted: bool,
    network_enabled: bool,
)
    requires
        spec_ceiling_violation(policy, ceiling) is None,
        spec_evaluate(policy, signer, requested, tainted, network_enabled).0 == Decision::Allow,
    ensures
        request_within_ceiling(ceiling, requested),
{
    let rules = policy.capabilities.net_http.allow@;
    let reads = policy.capabilities.fs_read.allow@;
    let writes = policy.capabilities.fs_write.allow@;
    let ok_rule = |i: int| http_within_ceiling(ceiling.net_http@, rules[i]);
    let ok_read = |i: int| path_allowed_by_rules(ceiling.fs_read@, reads[i]@);
    let ok_write = |i: int| path_allowed_by_rules(ceiling.fs_write@, writes[i]@);
    let ok_req = |i: int| http_allowed(rules, requested.net_http@[i]);
    let ok_req_read = |i: int| path_allowed(reads, requested.fs_read@[i].path@);
    let ok_req_write = |i: int| path_allowed(writes, requested.fs_write@[i].path@);
    assert forall|i: int| 0 <= i < rules.len() implies http_within_ceiling(ceiling.net_http@, rules[i]) by {
        if !ok_rule(i) {
            let f = lemma_first_failure(ok_rule, rules.len() as int, i);
            assert forall|j: int| 0 <= j < f implies http_within_ceiling(ceiling.net_http@, rules[j]) by {
                assert(ok_rule(j));
            }
            assert(first_http_outside(ceiling.net_http@, rules, f));
        }
    }
    assert forall|i: int| 0 <= i < reads.len() implies path_allowed_by_rules(ceiling.fs_read@, reads[i]@) by {
        if !ok_read(i) {
            let f = lemma_first_failure(ok_read, reads.len() as int, i);
            assert forall|j: int| 0 <= j < f implies path_allowed_by_rules(ceiling.fs_read@, reads[j]@) by {
                assert(ok_read(j));
            }
            assert(first_path_outside(ceiling.fs_read@, reads, f));
        }
    }
    assert forall|i: int| 0 <= i < writes.len() implies path_allowed_by_rules(ceiling.fs_write@, writes[i]@) by {
        if !ok_write(i) {
            let f = lemma_first_failure(ok_write, writes.len() as int, i);
            assert forall|j: int| 0 <= j < f implies path_allowed_by_rules(ceiling.fs_write@, writes[j]@) by {
                assert(ok_write(j));
            }
            assert(first_path_outside(ceiling.fs_write@, writes, f));
        }
    }
    assert forall|i: int| 0 <= i < requested.net_http@.len() implies http_allowed(
        ceiling.net_http@,
        #[trigger] requested.net_http@[i],
    ) by {
        if !ok_req(i) {
            let f = lemma_first_failure(ok_req, requested.net_http@.len() as int, i);
            assert forall|j: int| 0 <= j < f implies http_allowed(rules, requested.net_http@[j]) by {
                assert(ok_req(j));
            }
            assert(first_http_rejected(rules, requested.net_http@, f));
        }
        let r = requested.net_http@[i];
        let a = choose|a: int| 0 <= a < rules.len() && http_rule_covers(rules[a], r);
        assert(http_within_ceiling(ceiling.net_http@, rules[a]));
        let c = choose|c: int| 0 <= c < ceiling.net_http@.len() && http_rule_within(ceiling.net_http@[c], rules[a]);
        let cr = ceiling.net_http@[c];
        if cr.method@ != "*"@ && rules[a].method@ == "*"@ {
            lemma_star_ignore_case(cr.method@);
        }
        assert(cr.path@.is_prefix_of(r.path@));
        assert(http_rule_covers(cr, r));
    }
    assert forall|i: int| 0 <= i < requested.fs_read@.len() implies path_allowed_by_rules(
        ceiling.fs_read@,
        (#[trigger] requested.fs_read@[i]).path@,
    ) by {
        if !ok_req_read(i) {
            let f = lemma_first_failure(ok_req_read, requested.fs_read@.len() as int, i);
            assert forall|j: int| 0 <= j < f implies path_allowed(reads, requested.fs_read@[j].path@) by {
                assert(ok_req_read(j));
            }
            assert(first_path_rejected(reads, requested.fs_read@, f));
        }
        let path = requested.fs_read@[i].path@;
        let a = choose|a: int| 0 <= a < reads.len() && path_under(reads[a]@, path);
        assert(path_allowed_by_rules(ceiling.fs_read@, reads[a]@));
        let c = choose|c: int| 0 <= c < ceiling.fs_read@.len() && path_under(ceiling.fs_read@[c].path@, reads[a]@);
        lemma_path_under_trans(ceiling.fs_read@[c].path@, reads[a]@, path);
    }
    assert forall|i: int| 0 <= i < requested.fs_write@.len() implies path_allowed_by_rules(
        ceiling.fs_write@,
        (#[trigger] requested.fs_write@[i]).path@,
    ) by {
        if !ok_req_write(i) {
            let f = lemma_first_failure(ok_req_write, requested.fs_write@.len() as int, i);
            assert forall|j: int| 0 <= j < f implies path_allowed(writes, requested.fs_write@[j].path@) by {
                assert(ok_req_write(j));
            }
            assert(first_path_rejected(writes, requested.fs_write@, f));
        }
        let path = requested.fs_write@[i].path@;
        let a = choose|a: int| 0 <= a < writes.len() && path_under(writes[a]@, path);
        assert(path_allowed_by_rules(ceiling.fs_write@, writes[a]@));
        let c = choose|c: int| 0 <= c < ceiling.fs_write@.len() && path_under(ceiling.fs_write@[c].path@, writes[a]@);
        lemma_path_under_trans(ceiling.fs_write@[c].path@, writes[a]@, path);
    }
}

/// Deny by default: a request that asks for randomness, or for network
/// access from tainted input, is never allowed.
pub proof fn law_deny_by_default(
    policy: PolicyProfile,
    signer: Seq<char>,
    requested: CapabilitySpec,
    tainted: bool,
    network_enabled: bool,
)
    ensures
        requested.randomness ==> spec_evaluate(policy, signer, requested, tainted, network_enabled).0
            == Decision::Deny,
        tainted && requested.net_http@.len() > 0 ==> spec_evaluate(
            policy,
            signer,
            requested,
            tainted,
            network_enabled,
        ).0 == Decision::Deny,
        !network_enabled && requested.net_http@.len() > 0 ==> spec_evaluate(
            policy,
            signer,
            requested,
            tainted,
            network_enabled,
        ).0 == Decision::Deny,
        !signer_allowed(policy.allowed_signers@, signer) ==> spec_evaluate(
            policy,
            signer,
            requested,
            tainted,
            network_enabled,
        ).0 == Decision::Deny,
{
}

/// Allowlist only: an allowed request asks for nothing the policy does not
/// list. Every HTTP rule is covered by a policy rule, every path lies
/// under a listed prefix (no `..` segment, on a segment boundary), secrets only where the policy materializes them,
/// no randomness, and network only where it is enabled and the input is
/// not tainted.
pub proof fn law_allow_is_allowlisted(
    policy: PolicyProfile,
    signer: Seq<char>,
    requested: CapabilitySpec,
    tainted: bool,
    network_enabled: bool,
)
    requires
        spec_evaluate(policy, signer, requested, tainted, network_enabled).0 == Decision::Allow,
    ensures
        signer_allowed(policy.allowed_signers@, signer),
        !requested.randomness,
        requested.secrets_materialize ==> policy.secrets.materialize,
        requested.net_http@.len() > 0 ==> network_enabled && !tainted,
        forall|i: int|
            0 <= i < requested.net_http@.len() ==> http_allowed(
                policy.capabilities.net_http.allow@,
                #[trigger] requested.net_http@[i],
            ),
        forall|i: int|
            0 <= i < requested.fs_read@.len() ==> path_allowed(
                policy.capabilities.fs_read.allow@,
                (#[trigger] requested.fs_read@[i]).path@,
            ),
        forall|i: int|
            0 <= i < requested.fs_write@.len() ==> path_allowed(
                policy.capabilities.fs_write.allow@,
                (#[trigger] requested.fs_write@[i]).path@,
            ),
{
    let rules = policy.capabilities.net_http.allow@;
    let reads = policy.capabilities.fs_read.allow@;
    let writes = policy.capabilities.fs_write.allow@;
    let ok_req = |i: int| http_allowed(rules, requested.net_http@[i]);
    let ok_read = |i: int| path_allowed(reads, requested.fs_read@[i].path@);
    let ok_write = |i: int| path_allowed(writes, requested.fs_write@[i].path@);
    assert forall|i: int| 0 <= i < requested.net_http@.len() implies http_allowed(
        rules,
        #[trigger] requested.net_http@[i],
    ) by {
        if !ok_req(i) {
            let f = lemma_first_failure(ok_req, requested.net_http@.len() as int, i);
            assert forall|j: int| 0 <= j < f implies http_allowed(rules, requested.net_http@[j]) by {
                assert(ok_req(j));
            }
            assert(first_http_rejected(rules, requested.net_http@, f));
        }
    }
    assert forall|i: int| 0 <= i < requested.fs_read@.len() implies path_allowed(
        reads,
        (#[trigger] requested.fs_read@[i]).path@,
    ) by {
        if !ok_read(i) {
            let f = lemma_first_failure(ok_read, requested.fs_read@.len() as int, i);
            assert forall|j: int| 0 <= j < f implies path_allowed(reads, requested.fs_read@[j].path@) by {
                assert(ok_read(j));
            }
            assert(first_path_rejected(reads, requested.fs_read@, f));
        }
    }
    assert forall|i: int| 0 <= i < requested.fs_write@.len() implies path_allowed(
        writes,
        (#[trigger] requested.fs_write@[i]).path@,
    ) by {
        if !ok_write(i) {
            let f = lemma_first_failure(ok_write, requested.fs_write@.len() as int, i);
            assert forall|j: int| 0 <= j < f implies path_allowed(writes, requested.fs_write@[j].path@) by {
                assert(ok_write(j));
            }
            assert(first_path_rejected(writes, requested.fs_write@, f));
        }
    }
}

/// Allowlist exactly: a request is allowed if and only if the signer is
/// let through (the policy lists no signers, or lists this one), it asks for
/// no randomness, for secrets only where the policy materializes them, for
/// network only where it is enabled and the input is untainted, and every
/// HTTP rule, read path and write path it asks for is covered by the
/// policy. An allow always carries the reason `policy-match`.
pub proof fn law_allow_iff_allowlisted(
    policy: PolicyProfile,
    signer: Seq<char>,
    requested: CapabilitySpec,
    tainted: bool,
    network_enabled: bool,
)
    ensures
        (spec_evaluate(policy, signer, requested, tainted, network_enabled).0 == Decision::Allow)
            <==> {
            &&& (policy.allowed_signers@.len() == 0 || exists|i: int|
                0 <= i < policy.allowed_signers@.len() && (#[trigger] policy.allowed_signers@[i])@
                    == signer)
            &&& !requested.randomness
            &&& (requested.secrets_materialize ==> policy.secrets.materialize)
            &&& (requested.net_http@.len() > 0 ==> network_enabled && !tainted)
            &&& forall|i: int|
                0 <= i < requested.net_http@.len() ==> http_allowed(
                    policy.capabilities.net_http.allow@,
                    #[trigger] requested.net_http@[i],
                )
            &&& forall|i: int|
                0 <= i < requested.fs_read@.len() ==> path_allowed(
                    policy.capabilities.fs_read.allow@,
                    (#[trigger] requested.fs_read@[i]).path@,
                )
            &&& forall|i: int|
                0 <= i < requested.fs_write@.len() ==> path_allowed(
                    policy.capabilities.fs_write.allow@,
                    (#[trigger] requested.fs_write@[i]).path@,
                )
        },
        spec_evaluate(policy, signer, requested, tainted, network_enabled).0 == Decision::Allow
            ==> spec_evaluate(policy, signer, requested, tainted, network_enabled).1 == "policy-match"@,
{
    if spec_evaluate(policy, signer, requested, tainted, network_enabled).0 == Decision::Allow {
        law_allow_is_allowlisted(policy, signer, requested, tainted, network_enabled);
    }
    let allows = policy.capabilities.net_http.allow@;
    let reads = policy.capabilities.fs_read.allow@;
    let writes = policy.capabilities.fs_write.allow@;
    if forall|i: int| 0 <= i < requested.net_http@.len() ==> http_allowed(allows, #[trigger] requested.net_http@[i]) {
        assert(!exists|i: int| first_http_rejected(allows, requested.net_http@, i));
    }
    if forall|i: int| 0 <= i < requested.fs_read@.len() ==> path_allowed(reads, (#[trigger] requested.fs_read@[i]).path@) {
        assert(!exists|i: int| first_path_rejected(reads, requested.fs_read@, i));
    }
    if forall|i: int| 0 <= i < requested.fs_write@.len() ==> path_allowed(writes, (#[trigger] requested.fs_write@[i]).path@) {
        assert(!exists|i: int| first_path_rejected(writes, requested.fs_write@, i));
    }
}

/// Why a request is denied: the checks run in a fixed order and the first
/// one that fails names the denial. An unlisted signer (where the policy
/// lists any), then randomness, then secrets the policy does not
/// materialize, then network from tainted input, then network while it is
/// disabled, then the first HTTP rule no policy rule covers, the first read
/// path and the first write path under no allowed prefix, each named with
/// the rule it rejects.
pub proof fn law_denial_reasons(
    policy: PolicyProfile,
    signer: Seq<char>,
    requested: CapabilitySpec,
    tainted: bool,
    network_enabled: bool,
)
    ensures
        ({
            let res = spec_evaluate(policy, signer, requested, tainted, network_enabled);
            let signers = policy.allowed_signers@;
            let nets = requested.net_http@;
            let reads = requested.fs_read@;
            let writes = requested.fs_write@;
            let signer_ok = signers.len() == 0 || exists|i: int|
                0 <= i < signers.len() && (#[trigger] signers[i])@ == signer;
            let gates = signer_ok && !requested.randomness && !(requested.secrets_materialize
                && !policy.secrets.materialize) && !(tainted && nets.len() > 0) && !(
            !network_enabled && nets.len() > 0);
            &&& !signer_ok ==> res == (Decision::Deny, "signer-not-allowed"@)
            &&& signer_ok && requested.randomness ==> res == (
                Decision::Deny,
                "randomness-denied-phase0"@,
            )
            &&& signer_ok && !requested.randomness && requested.secrets_materialize
                && !policy.secrets.materialize ==> res == (
                Decision::Deny,
                "secret-materialization-denied"@,
            )
            &&& signer_ok && !requested.randomness && !(requested.secrets_materialize
                && !policy.secrets.materialize) && tainted && nets.len() > 0 ==> res == (
                Decision::Deny,
                "tainted-input-network-downgrade"@,
            )
            &&& signer_ok && !requested.randomness && !(requested.secrets_materialize
                && !policy.secrets.materialize) && !(tainted && nets.len() > 0)
                && !network_enabled && nets.len() > 0 ==> res == (
                Decision::Deny,
                "network-disabled-in-config"@,
            )
            &&& forall|i: int|
                gates && 0 <= i < nets.len() && !http_allowed(
                    policy.capabilities.net_http.allow@,
                    #[trigger] nets[i],
                ) && (forall|j: int|
                    0 <= j < i ==> http_allowed(policy.capabilities.net_http.allow@, nets[j]))
                    ==> res == (
                    Decision::Deny,
                    "net.http rule rejected: "@ + nets[i].method@ + " "@ + nets[i].host@
                        + nets[i].path@,
                )
            &&& forall|i: int|
                gates && (forall|j: int|
                    0 <= j < nets.len() ==> http_allowed(policy.capabilities.net_http.allow@, nets[j]))
                    && 0 <= i < reads.len() && !path_allowed(
                    policy.capabilities.fs_read.allow@,
                    (#[trigger] reads[i]).path@,
                ) && (forall|j: int|
                    0 <= j < i ==> path_allowed(policy.capabilities.fs_read.allow@, reads[j].path@))
                    ==> res == (Decision::Deny, "fs.read rule rejected: "@ + reads[i].path@)
            &&& forall|i: int|
                gates && (forall|j: int|
                    0 <= j < nets.len() ==> http_allowed(policy.capabilities.net_http.allow@, nets[j]))
                    && (forall|j: int|
                    0 <= j < reads.len() ==> path_allowed(policy.capabilities.fs_read.allow@, reads[j].path@))
                    && 0 <= i < writes.len() && !path_allowed(
                    policy.capabilities.fs_write.allow@,
                    (#[trigger] writes[i]).path@,
                ) && (forall|j: int|
                    0 <= j < i ==> path_allowed(policy.capabilities.fs_write.allow@, writes[j].path@))
                    ==> res == (Decision::Deny, "fs.write rule rejected: "@ + writes[i].path@)
        }),
{
    let allows = policy.capabilities.net_http.allow@;
    let preads = policy.capabilities.fs_read.allow@;
    let pwrites = policy.capabilities.fs_write.allow@;
    let nets = requested.net_http@;
    let reads = requested.fs_read@;
    let writes = requested.fs_write@;
    assert forall|i: int, k: int| first_http_rejected(allows, nets, i) && first_http_rejected(allows, nets, k) implies i == k by {
        if i < k {
            assert(http_allowed(allows, nets[i]));
        } else if k < i {
            assert(http_allowed(allows, nets[k]));
        }
    }
    assert forall|i: int, k: int| first_path_rejected(preads, reads, i) && first_path_rejected(preads, reads, k) implies i == k by {
        if i < k {
            assert(path_allowed(preads, reads[i].path@));
        } else if k < i {
            assert(path_allowed(preads, reads[k].path@));
        }
    }
    assert forall|i: int, k: int| first_path_rejected(pwrites, writes, i) && first_path_rejected(pwrites, writes, k) implies i == k by {
        if i < k {
            assert(path_allowed(pwrites, writes[i].path@));
        } else if k < i {
            assert(path_allowed(pwrites, writes[k].path@));
        }
    }
    let res = spec_evaluate(policy, signer, requested, tainted, network_enabled);
    let signers = policy.allowed_signers@;
    let signer_ok = signers.len() == 0 || exists|i: int|
        0 <= i < signers.len() && (#[trigger] signers[i])@ == signer;
    assert(signer_ok == signer_allowed(signers, signer));
    let gates = signer_ok && !requested.randomness && !(requested.secrets_materialize
        && !policy.secrets.materialize) && !(tainted && nets.len() > 0) && !(!network_enabled
        && nets.len() > 0);
    assert forall|i: int|
        gates && 0 <= i < nets.len() && !http_allowed(allows, #[trigger] nets[i]) && (forall|j: int|
            0 <= j < i ==> http_allowed(allows, nets[j])) implies res == (
        Decision::Deny,
        "net.http rule rejected: "@ + nets[i].method@ + " "@ + nets[i].host@ + nets[i].path@,
    ) by {
        assert(first_http_rejected(allows, nets, i));
    }
    assert forall|i: int|
        gates && (forall|j: int| 0 <= j < nets.len() ==> http_allowed(allows, nets[j])) && 0 <= i
            < reads.len() && !path_allowed(preads, (#[trigger] reads[i]).path@) && (forall|j: int|
            0 <= j < i ==> path_allowed(preads, reads[j].path@)) implies res == (
        Decision::Deny,
        "fs.read rule rejected: "@ + reads[i].path@,
    ) by {
        assert(!exists|k: int| first_http_rejected(allows, nets, k));
        assert(first_path_rejected(preads, reads, i));
    }
    assert forall|i: int|
        gates && (forall|j: int| 0 <= j < nets.len() ==> http_allowed(allows, nets[j])) && (forall|
            j: int,
        | 0 <= j < reads.len() ==> path_allowed(preads, reads[j].path@)) && 0 <= i < writes.len()
            && !path_allowed(pwrites, (#[trigger] writes[i]).path@) && (forall|j: int|
            0 <= j < i ==> path_allowed(pwrites, writes[j].path@)) implies res == (
        Decision::Deny,
        "fs.write rule rejected: "@ + writes[i].path@,
    ) by {
        assert(!exists|k: int| first_http_rejected(allows, nets, k));
        assert(!exists|k: int| first_path_rejected(preads, reads, k));
        assert(first_path_rejected(pwrites, writes, i));
    }
}

} // verus!
