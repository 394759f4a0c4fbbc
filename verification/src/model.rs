//! Shared security models: enforcement modes, capability requests, tool
//! registrations, verification reports and receipts.
use vstd::prelude::*;
use crate::crypto::{sha256_hex, spec_sha256_hex};
use crate::sort::{SortKey, is_stable_sort_of, lemma_stable_sort_items, stable_sort};
use crate::text::{
    lemma_seq_lt_irreflexive, lemma_seq_lt_total, lemma_seq_lt_transitive, seq_lt, string_of,
    str_eq, str_lt, to_ascii_uppercase, upper_seq,
};

verus! {

/// How provenance failures are handled: reported, or turned into denials.
#[derive(Debug, Clone, Copy, PartialEq, Eq, Structural)]
pub enum EnforcementMode {
    Warn,
    Enforce,
}

impl Default for EnforcementMode {
    fn default() -> (res: Self)
        ensures
            res == EnforcementMode::Warn,
    {
        EnforcementMode::Warn
    }
}

/// Where receipt signing keys may live.
#[derive(Debug, Clone, Copy, PartialEq, Eq, Structural)]
pub enum KeyProviderKind {
    Hybrid,
    HardwareOnly,
    SoftwareOnly,
}

impl Default for KeyProviderKind {
    fn default() -> (res: Self)
        ensures
            res == KeyProviderKind::Hybrid,
    {
        KeyProviderKind::Hybrid
    }
}

/// The risk that the key material of the host carries.
#[derive(Debug, Clone, Copy, PartialEq, Eq, Structural)]
pub enum RiskLevel {
    Low,
    Medium,
    High,
    Degraded,
}

impl Default for RiskLevel {
    fn default() -> (res: Self)
        ensures
            res == RiskLevel::Medium,
    {
        RiskLevel::Medium
    }
}

/// The default of the settings that are on unless configured off.
pub fn default_true() -> (res: bool)
    ensures
        res,
{
    true
}

/// The default log level.
pub fn default_log_level() -> (res: String)
    ensures
        res@ == "info"@,
{
    string_of("info")
}

/// The default runtime timeout, in milliseconds.
pub fn default_timeout_ms() -> (res: u64)
    ensures
        res == 30_000,
{
    30_000
}

/// The default runtime memory limit, in megabytes.
pub fn default_memory_limit_mb() -> (res: u64)
    ensures
        res == 256,
{
    256
}

/// The default limit on runtime output, in bytes.
pub fn default_max_output_bytes() -> (res: usize)
    ensures
        res == 1024 * 1024,
{
    1024 * 1024
}

/// The default maximum age of an attestation, in days.
pub fn default_attestation_max_age_days() -> (res: u32)
    ensures
        res == 30,
{
    30
}

/// The default window of the enforcement objective, in days.
pub fn default_coverage_slo_window_days() -> (res: u32)
    ensures
        res == 14,
{
    14
}

/// Which provenance artifacts a run must present.
#[derive(Debug, Clone, Copy, PartialEq, Eq, Structural)]
pub struct ProvenanceRequirements {
    pub require_digest: bool,
    pub require_signature: bool,
    pub require_attestation: bool,
    pub attestation_max_age_days: u32,
}

impl Default for ProvenanceRequirements {
    fn default() -> (res: Self)
        ensures
            res.require_digest,
            res.require_signature,
            res.require_attestation,
            res.attestation_max_age_days == 30,
    {
        ProvenanceRequirements {
            require_digest: default_true(),
            require_signature: default_true(),
            require_attestation: default_true(),
            attestation_max_age_days: default_attestation_max_age_days(),
        }
    }
}

/// Resource limits handed to the runtime.
#[derive(Debug, Clone, Copy, PartialEq, Eq, Structural)]
pub struct RuntimeLimits {
    pub timeout_ms: u64,
    pub memory_limit_mb: u64,
    pub max_output_bytes: usize,
}

impl Default for RuntimeLimits {
    fn default() -> (res: Self)
        ensures
            res.timeout_ms == 30_000,
            res.memory_limit_mb == 256,
            res.max_output_bytes == 1024 * 1024,
    {
        RuntimeLimits {
            timeout_ms: default_timeout_ms(),
            memory_limit_mb: default_memory_limit_mb(),
            max_output_bytes: default_max_output_bytes(),
        }
    }
}

/// The security-relevant settings of a host, as reported to operators.
#[derive(Debug, Clone, Copy, PartialEq, Eq, Structural)]
pub struct SecurityPosture {
    pub enforcement_mode: EnforcementMode,
    pub key_provider: KeyProviderKind,
    pub receipt_signing_required: bool,
    pub audit_chain_required: bool,
    pub provenance_requirements: ProvenanceRequirements,
    pub risk_level: RiskLevel,
}

impl SecurityPosture {
    /// Whether provenance failures deny execution.
    pub fn is_fail_closed(&self) -> (res: bool)
        ensures
            res == (self.enforcement_mode == EnforcementMode::Enforce),
    {
        match self.enforcement_mode {
            EnforcementMode::Enforce => true,
            EnforcementMode::Warn => false,
        }
    }

    /// The posture of a configuration: its settings, at medium risk.
    pub fn from_settings(
        enforcement_mode: EnforcementMode,
        key_provider: KeyProviderKind,
        receipt_signing_required: bool,
        audit_chain_required: bool,
        provenance_requirements: ProvenanceRequirements,
    ) -> (res: Self)
        ensures
            res == (SecurityPosture {
                enforcement_mode,
                key_provider,
                receipt_signing_required,
                audit_chain_required,
                provenance_requirements,
                risk_level: RiskLevel::Medium,
            }),
    {
        SecurityPosture {
            enforcement_mode,
            key_provider,
            receipt_signing_required,
            audit_chain_required,
            provenance_requirements,
            risk_level: RiskLevel::Medium,
        }
    }
}

/// A copy of an optional string.
pub fn copy_opt_string(o: &Option<String>) -> (res: Option<String>)
    ensures
        res == *o,
{
    match o {
        Some(s) => Some(s.clone()),
        None => None,
    }
}

/// The view of an optional string.
pub open spec fn opt_view(o: Option<String>) -> Option<Seq<char>> {
    match o {
        Some(s) => Some(s@),
        None => None,
    }
}

/// Whether two optional strings hold the same text.
pub fn opt_str_eq(a: &Option<String>, b: &Option<String>) -> (res: bool)
    ensures
        res == (opt_view(*a) == opt_view(*b)),
{
    match (a, b) {
        (Some(x), Some(y)) => str_eq(x.as_str(), y.as_str()),
        (None, None) => true,
        _ => false,
    }
}

/// A tool named by its immutable digest and its publisher.
#[derive(Debug, Clone)]
pub struct ToolRef {
    pub name: String,
    pub digest: String,
    pub publisher: String,
}

/// A registered tool and where its provenance artifacts are.
#[derive(Debug, Clone)]
pub struct ToolRegistration {
    pub name: String,
    pub digest: String,
    pub publisher: String,
    pub policy: String,
    pub bundle_path: Option<String>,
    pub signature_path: Option<String>,
    pub attestations_path: Option<String>,
    pub signing_identity: Option<String>,
    pub verification_profile: Option<String>,
}

impl ToolRegistration {
    /// The name, digest and publisher of the tool.
    pub fn to_tool_ref(&self) -> (res: ToolRef)
        ensures
            res.name == self.name,
            res.digest == self.digest,
            res.publisher == self.publisher,
    {
        ToolRef {
            name: self.name.clone(),
            digest: self.digest.clone(),
            publisher: self.publisher.clone(),
        }
    }

    /// A copy of the registration.
    pub fn copy(&self) -> (res: ToolRegistration)
        ensures
            res == *self,
    {
        ToolRegistration {
            name: self.name.clone(),
            digest: self.digest.clone(),
            publisher: self.publisher.clone(),
            policy: self.policy.clone(),
            bundle_path: copy_opt_string(&self.bundle_path),
            signature_path: copy_opt_string(&self.signature_path),
            attestations_path: copy_opt_string(&self.attestations_path),
            signing_identity: copy_opt_string(&self.signing_identity),
            verification_profile: copy_opt_string(&self.verification_profile),
        }
    }
}

impl SortKey for ToolRegistration {
    open spec fn precedes(self, other: Self) -> bool {
        seq_lt(self.name@, other.name@)
    }

    proof fn lemma_precedes_irreflexive(a: Self) {
        lemma_seq_lt_irreflexive(a.name@);
    }

    proof fn lemma_precedes_transitive(a: Self, b: Self, c: Self) {
        lemma_seq_lt_transitive(a.name@, b.name@, c.name@);
    }

    proof fn lemma_precedes_chain(x: Self, a: Self, b: Self) {
        lemma_seq_lt_total(a.name@, b.name@);
        if seq_lt(a.name@, b.name@) {
            lemma_seq_lt_transitive(x.name@, a.name@, b.name@);
        }
    }

    fn precedes_exec(&self, other: &Self) -> (res: bool) {
        str_lt(self.name.as_str(), other.name.as_str())
    }
}

/// Position `i` is the first whose registration has the given name.
pub open spec fn is_first_named(tools: Seq<ToolRegistration>, name: Seq<char>, i: int) -> bool {
    &&& 0 <= i < tools.len()
    &&& tools[i].name@ == name
    &&& forall|j: int| 0 <= j < i ==> tools[j].name@ != name
}

/// Position `i` is the first whose registration has the given digest.
pub open spec fn is_first_with_digest(tools: Seq<ToolRegistration>, digest: Seq<char>, i: int) -> bool {
    &&& 0 <= i < tools.len()
    &&& tools[i].digest@ == digest
    &&& forall|j: int| 0 <= j < i ==> tools[j].digest@ != digest
}

/// The first registration with the given name, if any.
pub open spec fn spec_find_by_name(tools: Seq<ToolRegistration>, name: Seq<char>) -> Option<
    ToolRegistration,
> {
    if exists|i: int| is_first_named(tools, name, i) {
        Some(tools[choose|i: int| is_first_named(tools, name, i)])
    } else {
        None
    }
}

/// The first registration with the given digest, if any.
pub open spec fn spec_find_by_digest(tools: Seq<ToolRegistration>, digest: Seq<char>) -> Option<
    ToolRegistration,
> {
    if exists|i: int| is_first_with_digest(tools, digest, i) {
        Some(tools[choose|i: int| is_first_with_digest(tools, digest, i)])
    } else {
        None
    }
}

/// Where some registration has a name, a first one has it.
pub proof fn lemma_first_named_exists(tools: Seq<ToolRegistration>, name: Seq<char>, k: int)
    requires
        0 <= k < tools.len(),
        tools[k].name@ == name,
    ensures
        exists|i: int| is_first_named(tools, name, i),
    decreases k,
{
    if exists|j: int| 0 <= j < k && tools[j].name@ == name {
        let j = choose|j: int| 0 <= j < k && tools[j].name@ == name;
        lemma_first_named_exists(tools, name, j);
    } else {
        assert(is_first_named(tools, name, k));
    }
}

/// The first position with a name is unique.
pub proof fn lemma_first_named_unique(tools: Seq<ToolRegistration>, name: Seq<char>, i: int, j: int)
    requires
        is_first_named(tools, name, i),
        is_first_named(tools, name, j),
    ensures
        i == j,
{
}

/// The first position with a digest is unique.
pub proof fn lemma_first_digest_unique(tools: Seq<ToolRegistration>, digest: Seq<char>, i: int, j: int)
    requires
        is_first_with_digest(tools, digest, i),
        is_first_with_digest(tools, digest, j),
    ensures
        i == j,
{
}

/// What `upsert` makes of `before` and `reg`: where a registration already
/// has the name, the first such one is replaced in place; otherwise `reg` is
/// added and the list is sorted by name, stably.
pub open spec fn spec_upserted(
    before: Seq<ToolRegistration>,
    reg: ToolRegistration,
    after: Seq<ToolRegistration>,
) -> bool {
    if exists|i: int| is_first_named(before, reg.name@, i) {
        after == before.update(choose|i: int| is_first_named(before, reg.name@, i), reg)
    } else {
        is_stable_sort_of(after, before.push(reg))
    }
}

/// The registered tools.
#[derive(Debug, Clone)]
pub struct ToolRegistry {
    pub tools: Vec<ToolRegistration>,
}

impl Default for ToolRegistry {
    fn default() -> (res: Self)
        ensures
            res.tools@.len() == 0,
    {
        ToolRegistry { tools: Vec::new() }
    }
}

impl ToolRegistry {
    /// The first registration with the given name.
    pub fn find_by_name(&self, name: &str) -> (res: Option<&ToolRegistration>)
        ensures
            match res {
                Some(t) => spec_find_by_name(self.tools@, name@) == Some(*t),
                None => spec_find_by_name(self.tools@, name@) is None,
            },
    {
        let n = self.tools.len();
        let mut i: usize = 0;
        while i < n
            invariant
                n == self.tools@.len(),
                i <= n,
                forall|j: int| 0 <= j < i ==> self.tools@[j].name@ != name@,
            decreases n - i,
        {
            if str_eq(self.tools[i].name.as_str(), name) {
                proof {
                    assert(is_first_named(self.tools@, name@, i as int));
                    let c = choose|c: int| is_first_named(self.tools@, name@, c);
                    lemma_first_named_unique(self.tools@, name@, i as int, c);
                }
                return Some(&self.tools[i]);
            }
            i = i + 1;
        }
        None
    }

    /// The first registration with the given digest.
    pub fn find_by_digest(&self, digest: &str) -> (res: Option<&ToolRegistration>)
        ensures
            match res {
                Some(t) => spec_find_by_digest(self.tools@, digest@) == Some(*t),
                None => spec_find_by_digest(self.tools@, digest@) is None,
            },
    {
        let n = self.tools.len();
        let mut i: usize = 0;
        while i < n
            invariant
                n == self.tools@.len(),
                i <= n,
                forall|j: int| 0 <= j < i ==> self.tools@[j].digest@ != digest@,
            decreases n - i,
        {
            if str_eq(self.tools[i].digest.as_str(), digest) {
                proof {
                    assert(is_first_with_digest(self.tools@, digest@, i as int));
                    let c = choose|c: int| is_first_with_digest(self.tools@, digest@, c);
                    lemma_first_digest_unique(self.tools@, digest@, i as int, c);
                }
                return Some(&self.tools[i]);
            }
            i = i + 1;
        }
        None
    }

    /// Replaces the first registration with the same name, or adds the
    /// registration and sorts the list by name.
    pub fn upsert(&mut self, registration: ToolRegistration)
        ensures
            spec_upserted(old(self).tools@, registration, final(self).tools@),
    {
        let n = self.tools.len();
        let mut i: usize = 0;
        while i < n
            invariant
                n == self.tools@.len(),
                self.tools@ == old(self).tools@,
                i <= n,
                forall|j: int| 0 <= j < i ==> self.tools@[j].name@ != registration.name@,
            decreases n - i,
        {
            if str_eq(self.tools[i].name.as_str(), registration.name.as_str()) {
                proof {
                    assert(is_first_named(self.tools@, registration.name@, i as int));
                    let c = choose|c: int| is_first_named(self.tools@, registration.name@, c);
                    lemma_first_named_unique(self.tools@, registration.name@, i as int, c);
                }
                self.tools.set(i, registration);
                return;
            }
            i = i + 1;
        }
        assert(!exists|c: int| is_first_named(old(self).tools@, registration.name@, c));
        let ghost reg = registration;
        let mut tools: Vec<ToolRegistration> = Vec::new();
        std::mem::swap(&mut tools, &mut self.tools);
        tools.push(registration);
        assert(tools@ == old(self).tools@.push(reg));
        self.tools = stable_sort(tools);
    }
}

/// After an upsert, looking the registration up by its name finds it.
pub proof fn law_upsert_then_find_by_name(
    before: Seq<ToolRegistration>,
    reg: ToolRegistration,
    after: Seq<ToolRegistration>,
)
    requires
        spec_upserted(before, reg, after),
    ensures
        spec_find_by_name(after, reg.name@) == Some(reg),
{
    if exists|i: int| is_first_named(before, reg.name@, i) {
        let i = choose|i: int| is_first_named(before, reg.name@, i);
        assert(is_first_named(after, reg.name@, i));
        let c = choose|c: int| is_first_named(after, reg.name@, c);
        lemma_first_named_unique(after, reg.name@, i, c);
    } else {
        let input = before.push(reg);
        lemma_stable_sort_items(after, input);
        assert(input[before.len() as int] == reg);
        assert(after.contains(input[before.len() as int]));
        let k = choose|k: int| 0 <= k < after.len() && after[k] == reg;
        assert forall|j: int| 0 <= j < after.len() && j != k implies after[j].name@ != reg.name@ by {
            assert(input.contains(after[j]));
            let m = choose|m: int| 0 <= m < input.len() && input[m] == after[j];
            if m == before.len() {
                // `after` holds `reg` once: the witness maps positions one for one
                let p = choose|p: Seq<int>| crate::sort::is_sort_witness(after, input, p);
                assert(after[j] == input[p[j]]);
                assert(after[k] == input[p[k]]);
                if p[j] == before.len() && p[k] == before.len() {
                    if j < k {
                        assert(p[j] != p[k]);
                    } else {
                        assert(p[k] != p[j]);
                    }
                }
                if p[j] != before.len() {
                    assert(before[p[j]].name@ != reg.name@) by {
                        if before[p[j]].name@ == reg.name@ {
                            lemma_first_named_exists(before, reg.name@, p[j]);
                        }
                    }
                } else {
                    assert(input[p[k]] == reg);
                    if p[k] != before.len() {
                        if before[p[k]].name@ == reg.name@ {
                            lemma_first_named_exists(before, reg.name@, p[k]);
                        }
                    }
                }
            } else {
                if before[m].name@ == reg.name@ {
                    lemma_first_named_exists(before, reg.name@, m);
                }
            }
        }
        lemma_first_named_exists(after, reg.name@, k);
        let c = choose|c: int| is_first_named(after, reg.name@, c);
        assert(c == k);
    }
}

/// No two registrations share a name.
pub open spec fn names_distinct(tools: Seq<ToolRegistration>) -> bool {
    forall|i: int, j: int| 0 <= i < j < tools.len() ==> (#[trigger] tools[i]).name@ != (#[trigger] tools[j]).name@
}

/// The registrations are in name order.
pub open spec fn sorted_by_name(tools: Seq<ToolRegistration>) -> bool {
    forall|i: int, j: int| 0 <= i < j < tools.len() ==> !seq_lt((#[trigger] tools[j]).name@, (#[trigger] tools[i]).name@)
}

/// Some registration has the name.
pub open spec fn has_name(tools: Seq<ToolRegistration>, name: Seq<char>) -> bool {
    exists|i: int| 0 <= i < tools.len() && (#[trigger] tools[i]).name@ == name
}

/// An upsert into a registry whose names are distinct keeps them distinct:
/// afterwards the registration is the only one with its name, every other
/// registration is kept unchanged, the list grows by one exactly where the
/// name was new, and a list in name order stays in name order.
pub proof fn law_upsert_keeps_names_distinct(
    before: Seq<ToolRegistration>,
    reg: ToolRegistration,
    after: Seq<ToolRegistration>,
)
    requires
        spec_upserted(before, reg, after),
        names_distinct(before),
    ensures
        names_distinct(after),
        forall|k: int| 0 <= k < after.len() ==> (#[trigger] after[k] == reg || (before.contains(after[k]) && after[k].name@ != reg.name@)),
        forall|i: int| 0 <= i < before.len() && (#[trigger] before[i]).name@ != reg.name@ ==> after.contains(before[i]),
        after.len() == before.len() + if has_name(before, reg.name@) { 0int } else { 1int },
        sorted_by_name(before) ==> sorted_by_name(after),
{
    if exists|i: int| is_first_named(before, reg.name@, i) {
        let c = choose|i: int| is_first_named(before, reg.name@, i);
        assert(has_name(before, reg.name@));
        assert forall|k: int| 0 <= k < after.len() implies (#[trigger] after[k] == reg || (before.contains(after[k]) && after[k].name@ != reg.name@)) by {
            if k != c {
                assert(after[k] == before[k]);
                if k < c {
                    assert(before[k].name@ != before[c].name@);
                } else {
                    assert(before[c].name@ != before[k].name@);
                }
            }
        }
        assert forall|i: int| 0 <= i < before.len() && (#[trigger] before[i]).name@ != reg.name@ implies after.contains(before[i]) by {
            assert(after[i] == before[i]);
        }
        assert forall|i: int, j: int| 0 <= i < j < after.len() implies (#[trigger] after[i]).name@ != (#[trigger] after[j]).name@ by {
            assert(after[i].name@ == before[i].name@);
            assert(after[j].name@ == before[j].name@);
        }
        if sorted_by_name(before) {
            assert forall|i: int, j: int| 0 <= i < j < after.len() implies !seq_lt((#[trigger] after[j]).name@, (#[trigger] after[i]).name@) by {
                assert(after[i].name@ == before[i].name@);
                assert(after[j].name@ == before[j].name@);
            }
        }
    } else {
        let input = before.push(reg);
        assert(!has_name(before, reg.name@)) by {
            if has_name(before, reg.name@) {
                let k = choose|k: int| 0 <= k < before.len() && (#[trigger] before[k]).name@ == reg.name@;
                lemma_first_named_exists(before, reg.name@, k);
            }
        }
        let p = choose|p: Seq<int>| crate::sort::is_sort_witness(after, input, p);
        lemma_stable_sort_items(after, input);
        assert forall|k: int| 0 <= k < after.len() implies (#[trigger] after[k] == reg || (before.contains(after[k]) && after[k].name@ != reg.name@)) by {
            assert(after[k] == input[p[k]]);
            if p[k] < before.len() {
                assert(input[p[k]] == before[p[k]]);
            }
        }
        assert forall|i: int| 0 <= i < before.len() && (#[trigger] before[i]).name@ != reg.name@ implies after.contains(before[i]) by {
            assert(input[i] == before[i]);
        }
        assert forall|i: int, j: int| 0 <= i < j < after.len() implies (#[trigger] after[i]).name@ != (#[trigger] after[j]).name@ by {
            assert(after[i] == input[p[i]]);
            assert(after[j] == input[p[j]]);
            assert(p[i] != p[j]);
            if p[i] < before.len() && p[j] < before.len() {
                if p[i] < p[j] {
                    assert(before[p[i]].name@ != before[p[j]].name@);
                } else {
                    assert(before[p[j]].name@ != before[p[i]].name@);
                }
            }
        }
        assert forall|i: int, j: int| 0 <= i < j < after.len() implies !seq_lt((#[trigger] after[j]).name@, (#[trigger] after[i]).name@) by {
            assert(!after[j].precedes(after[i]));
        }
    }
}

/// An HTTP request shape: host, path prefix and method.
#[derive(Debug, Clone)]
pub struct HttpRule {
    pub host: String,
    pub path: String,
    pub method: String,
}

impl HttpRule {
    /// The method in ASCII upper case.
    pub fn normalized_method(&self) -> (res: String)
        ensures
            res@ == upper_seq(self.method@),
    {
        to_ascii_uppercase(self.method.as_str())
    }
}

/// A filesystem path (prefix).
#[derive(Debug, Clone)]
pub struct FsRule {
    pub path: String,
}

/// The capabilities that a run requests, or that a ceiling allows.
#[derive(Debug, Clone)]
pub struct CapabilitySpec {
    pub net_http: Vec<HttpRule>,
    pub fs_read: Vec<FsRule>,
    pub fs_write: Vec<FsRule>,
    pub secrets_materialize: bool,
    pub randomness: bool,
}

impl Default for CapabilitySpec {
    fn default() -> (res: Self)
        ensures
            res.net_http@.len() == 0,
            res.fs_read@.len() == 0,
            res.fs_write@.len() == 0,
            !res.secrets_materialize,
            !res.randomness,
    {
        CapabilitySpec {
            net_http: Vec::new(),
            fs_read: Vec::new(),
            fs_write: Vec::new(),
            secrets_materialize: false,
            randomness: false,
        }
    }
}

/// The outcome of one verification check.
#[derive(Debug, Clone, Copy, PartialEq, Eq, Structural)]
pub enum VerificationStatus {
    Pass,
    Warn,
    Fail,
    Skipped,
}

/// One named verification check.
#[derive(Debug, Clone)]
pub struct VerificationCheck {
    pub check: String,
    pub status: VerificationStatus,
    pub detail: String,
}

impl VerificationCheck {
    /// A copy of the check.
    pub fn copy(&self) -> (res: VerificationCheck)
        ensures
            res == *self,
    {
        VerificationCheck { check: self.check.clone(), status: self.status, detail: self.detail.clone() }
    }
}

/// A check as its name, status and detail.
pub type CheckView = (Seq<char>, VerificationStatus, Seq<char>);

impl View for VerificationCheck {
    type V = CheckView;

    open spec fn view(&self) -> CheckView {
        (self.check@, self.status, self.detail@)
    }
}

/// Some check has the given status.
pub open spec fn has_status(checks: Seq<VerificationCheck>, status: VerificationStatus) -> bool {
    exists|i: int| 0 <= i < checks.len() && checks[i].status == status
}

/// The overall status of a list of checks: any failure fails, else any
/// warning warns, else any pass passes, else nothing was checked.
pub open spec fn spec_summary(checks: Seq<VerificationCheck>) -> VerificationStatus {
    if has_status(checks, VerificationStatus::Fail) {
        VerificationStatus::Fail
    } else if has_status(checks, VerificationStatus::Warn) {
        VerificationStatus::Warn
    } else if has_status(checks, VerificationStatus::Pass) {
        VerificationStatus::Pass
    } else {
        VerificationStatus::Skipped
    }
}

/// The checks made for one run.
#[derive(Debug, Clone)]
pub struct VerificationReport {
    pub checks: Vec<VerificationCheck>,
}

impl View for VerificationReport {
    type V = Seq<CheckView>;

    open spec fn view(&self) -> Seq<CheckView> {
        self.checks@.map_values(|c: VerificationCheck| c@)
    }
}

impl Default for VerificationReport {
    fn default() -> (res: Self)
        ensures
            res.checks@.len() == 0,
            res@ == Seq::<CheckView>::empty(),
    {
        let res = VerificationReport { checks: Vec::new() };
        assert(res@ =~= Seq::<CheckView>::empty());
        res
    }
}

impl VerificationReport {
    fn has_status_exec(&self, status: VerificationStatus) -> (res: bool)
        ensures
            res == has_status(self.checks@, status),
    {
        let n = self.checks.len();
        let mut i: usize = 0;
        while i < n
            invariant
                n == self.checks@.len(),
                i <= n,
                forall|j: int| 0 <= j < i ==> self.checks@[j].status != status,
            decreases n - i,
        {
            if self.checks[i].status == status {
                return true;
            }
            i = i + 1;
        }
        false
    }

    /// The overall status of the report.
    pub fn summary(&self) -> (res: VerificationStatus)
        ensures
            res == spec_summary(self.checks@),
    {
        if self.has_status_exec(VerificationStatus::Fail) {
            return VerificationStatus::Fail;
        }
        if self.has_status_exec(VerificationStatus::Warn) {
            return VerificationStatus::Warn;
        }
        if self.has_status_exec(VerificationStatus::Pass) {
            return VerificationStatus::Pass;
        }
        VerificationStatus::Skipped
    }

    /// Adds a check at the end.
    pub fn push(&mut self, check: String, status: VerificationStatus, detail: String)
        ensures
            final(self).checks@ == old(self).checks@.push(
                VerificationCheck { check, status, detail },
            ),
            final(self)@ == old(self)@.push((check@, status, detail@)),
    {
        self.checks.push(VerificationCheck { check, status, detail });
        assert(self@ =~= old(self)@.push((check@, status, detail@)));
    }

    /// A copy of the report.
    pub fn copy(&self) -> (res: VerificationReport)
        ensures
            res.checks@ == self.checks@,
            res@ == self@,
    {
        let mut checks: Vec<VerificationCheck> = Vec::new();
        let n = self.checks.len();
        let mut i: usize = 0;
        while i < n
            invariant
                n == self.checks@.len(),
                i <= n,
                checks@ == self.checks@.subrange(0, i as int),
            decreases n - i,
        {
            checks.push(self.checks[i].copy());
            assert(checks@ =~= self.checks@.subrange(0, i + 1));
            i = i + 1;
        }
        assert(checks@ =~= self.checks@);
        VerificationReport { checks }
    }
}

/// Adding a failed check makes the whole report fail; adding a passed
/// check never lowers a failing or warning report to pass.
pub proof fn law_summary_after_push(checks: Seq<VerificationCheck>, added: VerificationCheck)
    ensures
        added.status == VerificationStatus::Fail ==> spec_summary(checks.push(added))
            == VerificationStatus::Fail,
        spec_summary(checks) == VerificationStatus::Fail ==> spec_summary(checks.push(added))
            == VerificationStatus::Fail,
        spec_summary(checks) == VerificationStatus::Warn ==> spec_summary(checks.push(added))
            != VerificationStatus::Pass,
{
    let after = checks.push(added);
    if added.status == VerificationStatus::Fail {
        assert(after[checks.len() as int] == added);
    }
    if has_status(checks, VerificationStatus::Fail) {
        let i = choose|i: int| 0 <= i < checks.len() && checks[i].status == VerificationStatus::Fail;
        assert(after[i] == checks[i]);
    }
    if has_status(checks, VerificationStatus::Warn) {
        let i = choose|i: int| 0 <= i < checks.len() && checks[i].status == VerificationStatus::Warn;
        assert(after[i] == checks[i]);
    }
}

/// A point in time: seconds since the Unix epoch and nanoseconds within the
/// second, ordered as time goes.
#[derive(Debug, Clone, Copy, PartialEq, Eq, Structural)]
pub struct Timestamp {
    pub secs: i64,
    pub nanos: u32,
}

impl Timestamp {
    /// `self` is earlier than `other`.
    pub open spec fn before(self, other: Timestamp) -> bool {
        self.secs < other.secs || (self.secs == other.secs && self.nanos < other.nanos)
    }

    /// Decides `before`.
    pub fn is_before(&self, other: &Timestamp) -> (res: bool)
        ensures
            res == self.before(*other),
    {
        self.secs < other.secs || (self.secs == other.secs && self.nanos < other.nanos)
    }
}

/// What `uuid::Uuid::parse_str` reads from a text, in the canonical form
/// that the parsed id displays as (hyphenated, lower case); `None` where the
/// text is no UUID.
pub uninterp spec fn spec_uuid_parse(text: Seq<char>) -> Option<Seq<char>>;

/// Calls `uuid::Uuid::parse_str` and displays the id: its canonical form,
/// or the parser's error message where the text is no UUID.
#[verifier::external_body]
pub(crate) fn uuid_parse(text: &str) -> (res: Result<String, String>)
    ensures
        match res {
            Ok(c) => spec_uuid_parse(text@) == Some(c@),
            Err(_) => spec_uuid_parse(text@) is None,
        },
{
    uuid::Uuid::parse_str(text).map(|u| u.to_string()).map_err(|e| e.to_string())
}

/// Calls `uuid::Uuid::new_v4` and displays the id: a random id in canonical
/// form, which parses back to itself. Nothing else is known of it.
#[verifier::external_body]
fn new_request_id() -> (res: String)
    ensures
        spec_uuid_parse(res@) == Some(res@),
{
    uuid::Uuid::new_v4().to_string()
}

/// Calls `chrono::Utc::now`: the current time, as seconds since the epoch
/// and nanoseconds within the second. Nothing is known of it.
#[verifier::external_body]
fn now_timestamp() -> (res: Timestamp) {
    let now = chrono::Utc::now();
    Timestamp { secs: now.timestamp(), nanos: now.timestamp_subsec_nanos() }
}

/// Who invoked a run and when: a fresh request id, the time, the actor and
/// whether the input is tainted, with the sources of the taint.
#[derive(Debug, Clone)]
pub struct InvocationContext {
    pub request_id: String,
    pub timestamp: Timestamp,
    pub actor: String,
    pub tainted: bool,
    pub taint_sources: Vec<String>,
}

impl InvocationContext {
    /// A context for a new run: a fresh UUID as request id, the current
    /// time, the actor and the taint flag, and no taint sources yet.
    pub fn new(actor: String, tainted: bool) -> (res: Self)
        ensures
            spec_uuid_parse(res.request_id@) == Some(res.request_id@),
            res.actor@ == actor@,
            res.tainted == tainted,
            res.taint_sources@.len() == 0,
    {
        InvocationContext {
            request_id: new_request_id(),
            timestamp: now_timestamp(),
            actor,
            tainted,
            taint_sources: Vec::new(),
        }
    }
}

/// The signed record of one run. The payload is the tool output as JSON text.
#[derive(Debug, Clone)]
pub struct ReceiptEnvelope {
    pub id: String,
    pub timestamp: Timestamp,
    pub tool_digest: String,
    pub policy_hash: String,
    pub decision: String,
    pub reason: String,
    pub output_hash: String,
    pub payload: String,
    pub receipt_hash: String,
    pub signature: Option<String>,
    pub signing_key_id: Option<String>,
    pub verification_report: VerificationReport,
    pub sequence_number: u64,
    pub prev_audit_hash: Option<String>,
    pub risk_level: RiskLevel,
}

/// Two receipts agree on everything but their hash and signature, so that
/// their unsigned forms, which the hash covers, are the same.
pub open spec fn same_unsigned(a: ReceiptEnvelope, b: ReceiptEnvelope) -> bool {
    a == (ReceiptEnvelope { receipt_hash: a.receipt_hash, signature: a.signature, ..b })
}

impl ReceiptEnvelope {
    /// A copy of the receipt with an empty hash and no signature. The hash
    /// of a receipt is taken over the serialization of this form.
    pub fn unsigned(&self) -> (res: ReceiptEnvelope)
        ensures
            res.id == self.id,
            res.timestamp == self.timestamp,
            res.tool_digest == self.tool_digest,
            res.policy_hash == self.policy_hash,
            res.decision == self.decision,
            res.reason == self.reason,
            res.output_hash == self.output_hash,
            res.payload == self.payload,
            res.receipt_hash@.len() == 0,
            res.signature is None,
            res.signing_key_id == self.signing_key_id,
            res.verification_report.checks@ == self.verification_report.checks@,
            res.sequence_number == self.sequence_number,
            res.prev_audit_hash == self.prev_audit_hash,
            res.risk_level == self.risk_level,
    {
        ReceiptEnvelope {
            id: self.id.clone(),
            timestamp: self.timestamp,
            tool_digest: self.tool_digest.clone(),
            policy_hash: self.policy_hash.clone(),
            decision: self.decision.clone(),
            reason: self.reason.clone(),
            output_hash: self.output_hash.clone(),
            payload: self.payload.clone(),
            receipt_hash: String::new(),
            signature: None,
            signing_key_id: copy_opt_string(&self.signing_key_id),
            verification_report: self.verification_report.copy(),
            sequence_number: self.sequence_number,
            prev_audit_hash: copy_opt_string(&self.prev_audit_hash),
            risk_level: self.risk_level,
        }
    }

    /// The receipt hash: the lower-case hex SHA-256 of `unsigned_json`, the
    /// serialization of `self.unsigned()`.
    pub fn compute_hash(&self, unsigned_json: &[u8]) -> (res: String)
        ensures
            res@ == spec_sha256_hex(unsigned_json@),
    {
        sha256_hex(unsigned_json)
    }

    /// The receipt with its hash set from `unsigned_json`, the serialization
    /// of `self.unsigned()`; nothing else changes.
    pub fn finalize(self, unsigned_json: &[u8]) -> (res: ReceiptEnvelope)
        ensures
            res == (ReceiptEnvelope { receipt_hash: res.receipt_hash, ..self }),
            res.receipt_hash@ == spec_sha256_hex(unsigned_json@),
    {
        let mut this = self;
        this.receipt_hash = sha256_hex(unsigned_json);
        this
    }

    /// Whether the stored hash is the hash of `unsigned_json`, the
    /// serialization of `self.unsigned()`.
    pub fn verify_hash(&self, unsigned_json: &[u8]) -> (res: bool)
        ensures
            res == (self.receipt_hash@ == spec_sha256_hex(unsigned_json@)),
    {
        let computed = sha256_hex(unsigned_json);
        str_eq(computed.as_str(), self.receipt_hash.as_str())
    }
}

/// Finalizing changes only the hash, so the unsigned form, and with it the
/// serialization that the hash covers, is the same before and after; and
/// the finalized receipt verifies against that serialization.
pub proof fn law_finalize_then_verify(r: ReceiptEnvelope, unsigned_json: Seq<u8>, f: ReceiptEnvelope)
    requires
        f == (ReceiptEnvelope { receipt_hash: f.receipt_hash, ..r }),
        f.receipt_hash@ == spec_sha256_hex(unsigned_json),
    ensures
        same_unsigned(f, r),
        f.receipt_hash@ == spec_sha256_hex(unsigned_json),
{
}

/// The signature lies outside what the hash covers: a receipt whose
/// signature alone is replaced keeps its unsigned form and its hash, and so
/// verifies against the same serialization as before.
pub proof fn law_signature_outside_hash(r: ReceiptEnvelope, signature: Option<String>, unsigned_json: Seq<u8>)
    requires
        r.receipt_hash@ == spec_sha256_hex(unsigned_json),
    ensures
        same_unsigned((ReceiptEnvelope { signature, ..r }), r),
        (ReceiptEnvelope { signature, ..r }).receipt_hash@ == spec_sha256_hex(unsigned_json),
{
}

} // verus!
