//! The execution decision of a run: which provenance checks are required,
//! which of them failed, and how the enforcement mode turns a policy
//! decision and a verification report into allow, warn or deny.
use vstd::prelude::*;
use crate::model::{
    CheckView, EnforcementMode, ProvenanceRequirements, VerificationReport, VerificationStatus,
    spec_summary,
};
use crate::policy::{Decision, PolicyDecision};
use crate::runtime::{RuntimeError, runtime_error_code, runtime_error_text};
use crate::text::{push_str, str_eq, string_of};

verus! {

/// The texts of a list of strings.
pub open spec fn strings_view(v: Seq<String>) -> Seq<Seq<char>> {
    v.map_values(|s: String| s@)
}

/// The status of the last check with the given name, if any has it.
pub open spec fn spec_latest_status(checks: Seq<CheckView>, name: Seq<char>) -> Option<
    VerificationStatus,
>
    decreases checks.len(),
{
    if checks.len() == 0 {
        None
    } else if checks.last().0 == name {
        Some(checks.last().1)
    } else {
        spec_latest_status(checks.drop_last(), name)
    }
}

/// The status of the last check with the given name in the report.
pub fn latest_check_status(report: &VerificationReport, check_name: &str) -> (res: Option<
    VerificationStatus,
>)
    ensures
        res == spec_latest_status(report@, check_name@),
{
    let n = report.checks.len();
    let mut i: usize = n;
    proof {
        assert(report@.take(n as int) =~= report@);
    }
    while i > 0
        invariant
            n == report.checks@.len(),
            n == report@.len(),
            i <= n,
            spec_latest_status(report@, check_name@) == spec_latest_status(
                report@.take(i as int),
                check_name@,
            ),
            forall|j: int| 0 <= j < n ==> #[trigger] report@[j] == report.checks@[j]@,
        decreases i,
    {
        let c = &report.checks[i - 1];
        assert(report@.take(i as int).last() == c@);
        if str_eq(c.check.as_str(), check_name) {
            return Some(c.status);
        }
        assert(report@.take(i as int).drop_last() =~= report@.take(i - 1));
        i = i - 1;
    }
    None
}

/// The label of a status.
pub open spec fn spec_status_label(status: VerificationStatus) -> Seq<char> {
    match status {
        VerificationStatus::Pass => "pass"@,
        VerificationStatus::Warn => "warn"@,
        VerificationStatus::Fail => "fail"@,
        VerificationStatus::Skipped => "skipped"@,
    }
}

/// The label of a status.
pub fn verification_status_label(status: VerificationStatus) -> (res: &'static str)
    ensures
        res@ == spec_status_label(status),
{
    match status {
        VerificationStatus::Pass => "pass",
        VerificationStatus::Warn => "warn",
        VerificationStatus::Fail => "fail",
        VerificationStatus::Skipped => "skipped",
    }
}

/// The checks that must pass: the verifier, the signer's trust and the
/// publisher always; the digest format, the signatures (artifact and
/// policy) and the attestation where the requirements ask for them.
pub open spec fn spec_required_checks(req: ProvenanceRequirements) -> Seq<Seq<char>> {
    seq!["provenact.cli"@, "trust.signer"@, "publisher.identity"@] + (if req.require_digest {
        seq!["digest.format"@]
    } else {
        Seq::empty()
    }) + (if req.require_signature {
        seq!["signature.artifact"@, "policy.signature"@]
    } else {
        Seq::empty()
    }) + (if req.require_attestation {
        seq!["attestation.artifact"@]
    } else {
        Seq::empty()
    })
}

/// How a required check failed, if it did: `name=status` where its last
/// status is not a pass, `name=missing` where the report lacks it.
pub open spec fn failure_text(name: Seq<char>, latest: Option<VerificationStatus>) -> Option<
    Seq<char>,
> {
    match latest {
        Some(VerificationStatus::Pass) => None,
        Some(status) => Some(name + "="@ + spec_status_label(status)),
        None => Some(name + "=missing"@),
    }
}

/// The failures among the named checks, in the order of the names.
pub open spec fn spec_failures(names: Seq<Seq<char>>, checks: Seq<CheckView>) -> Seq<Seq<char>>
    decreases names.len(),
{
    if names.len() == 0 {
        Seq::empty()
    } else {
        let rest = spec_failures(names.drop_last(), checks);
        match failure_text(names.last(), spec_latest_status(checks, names.last())) {
            Some(t) => rest.push(t),
            None => rest,
        }
    }
}

fn add_failure(out: &mut Vec<String>, name: &str, report: &VerificationReport, names: Ghost<
    Seq<Seq<char>>,
>)
    requires
        strings_view(old(out)@) == spec_failures(names@, report@),
    ensures
        strings_view(final(out)@) == spec_failures(names@.push(name@), report@),
{
    proof {
        assert(names@.push(name@).drop_last() =~= names@);
    }
    let ghost before = out@;
    match latest_check_status(report, name) {
        Some(VerificationStatus::Pass) => {},
        Some(status) => {
            let mut t = string_of(name);
            push_str(&mut t, "=");
            push_str(&mut t, verification_status_label(status));
            out.push(t);
            assert(strings_view(out@) =~= strings_view(before).push(t@));
        },
        None => {
            let mut t = string_of(name);
            push_str(&mut t, "=missing");
            out.push(t);
            assert(strings_view(out@) =~= strings_view(before).push(t@));
        },
    }
}

/// The required checks that did not pass, as `name=status` or
/// `name=missing`, in the order of `spec_required_checks`.
pub fn required_check_failures(requirements: &ProvenanceRequirements, report: &VerificationReport) -> (res:
    Vec<String>)
    ensures
        strings_view(res@) == spec_failures(spec_required_checks(*requirements), report@),
{
    let mut out: Vec<String> = Vec::new();
    let ghost mut names: Seq<Seq<char>> = Seq::empty();
    assert(strings_view(out@) =~= Seq::<Seq<char>>::empty());
    add_failure(&mut out, "provenact.cli", report, Ghost(names));
    proof {
        names = names.push("provenact.cli"@);
    }
    add_failure(&mut out, "trust.signer", report, Ghost(names));
    proof {
        names = names.push("trust.signer"@);
    }
    add_failure(&mut out, "publisher.identity", report, Ghost(names));
    proof {
        names = names.push("publisher.identity"@);
    }
    if requirements.require_digest {
        add_failure(&mut out, "digest.format", report, Ghost(names));
        proof {
            names = names.push("digest.format"@);
        }
    }
    if requirements.require_signature {
        add_failure(&mut out, "signature.artifact", report, Ghost(names));
        proof {
            names = names.push("signature.artifact"@);
        }
        add_failure(&mut out, "policy.signature", report, Ghost(names));
        proof {
            names = names.push("policy.signature"@);
        }
    }
    if requirements.require_attestation {
        add_failure(&mut out, "attestation.artifact", report, Ghost(names));
        proof {
            names = names.push("attestation.artifact"@);
        }
    }
    assert(names =~= spec_required_checks(*requirements));
    out
}

/// The parts joined with the separator between them.
pub open spec fn spec_join(parts: Seq<Seq<char>>, sep: Seq<char>) -> Seq<char>
    decreases parts.len(),
{
    if parts.len() == 0 {
        Seq::empty()
    } else if parts.len() == 1 {
        parts[0]
    } else {
        spec_join(parts.drop_last(), sep) + sep + parts.last()
    }
}

/// The parts joined with the separator between them, as `join` does.
pub fn join(parts: &Vec<String>, sep: &str) -> (res: String)
    ensures
        res@ == spec_join(strings_view(parts@), sep@),
{
    let n = parts.len();
    let mut out = String::new();
    let mut i: usize = 0;
    while i < n
        invariant
            n == parts@.len(),
            i <= n,
            out@ == spec_join(strings_view(parts@.take(i as int)), sep@),
        decreases n - i,
    {
        proof {
            assert(strings_view(parts@.take(i + 1)).drop_last() =~= strings_view(
                parts@.take(i as int),
            ));
            assert(strings_view(parts@.take(i + 1)).last() == parts@[i as int]@);
        }
        if i > 0 {
            push_str(&mut out, sep);
        } else {
            assert(strings_view(parts@.take(1))[0] == parts@[0]@);
        }
        push_str(&mut out, parts[i].as_str());
        i = i + 1;
    }
    assert(parts@.take(n as int) =~= parts@);
    out
}

/// What a run does next: the decision and reason it records, the warnings
/// it reports, and whether the tool runs.
#[derive(Debug, Clone)]
pub struct ExecutionPlan {
    pub decision: String,
    pub reason: String,
    pub warnings: Vec<String>,
    pub should_execute: bool,
}

/// The plan, as the decision, the reason, the warnings and whether the tool
/// runs.
pub open spec fn plan_view(p: ExecutionPlan) -> (Seq<char>, Seq<char>, Seq<Seq<char>>, bool) {
    (p.decision@, p.reason@, strings_view(p.warnings@), p.should_execute)
}

/// How a run proceeds: a policy denial stands; failed required checks deny
/// in enforce mode and warn in warn mode; else a failing report denies in
/// enforce mode and warns in warn mode, a warning report warns, and
/// otherwise the policy's allow stands.
pub open spec fn spec_execution_plan(
    mode: EnforcementMode,
    req: ProvenanceRequirements,
    policy_decision: PolicyDecision,
    report: VerificationReport,
) -> (Seq<char>, Seq<char>, Seq<Seq<char>>, bool) {
    if policy_decision.decision == Decision::Deny {
        ("deny"@, policy_decision.reason@, Seq::empty(), false)
    } else {
        let failures = spec_failures(spec_required_checks(req), report@);
        if failures.len() > 0 {
            let details = spec_join(failures, ","@);
            match mode {
                EnforcementMode::Enforce => (
                    "deny"@,
                    "provenance-required-check-failed:"@ + details,
                    Seq::empty(),
                    false,
                ),
                EnforcementMode::Warn => (
                    "allow_with_warnings"@,
                    "policy-match-with-provenance-warning"@,
                    seq![
                        "required provenance checks failed but warn mode allowed execution: "@
                            + details,
                    ],
                    true,
                ),
            }
        } else {
            match spec_summary(report.checks@) {
                VerificationStatus::Fail => match mode {
                    EnforcementMode::Enforce => ("deny"@, "provenance-failed"@, Seq::empty(), false),
                    EnforcementMode::Warn => (
                        "allow_with_warnings"@,
                        "policy-match-with-provenance-warning"@,
                        seq!["provenance checks failed but warn mode allowed execution"@],
                        true,
                    ),
                },
                VerificationStatus::Warn => (
                    "allow_with_warnings"@,
                    "policy-match-with-provenance-warning"@,
                    seq!["provenance checks returned warnings"@],
                    true,
                ),
                _ => ("allow"@, policy_decision.reason@, Seq::empty(), true),
            }
        }
    }
}

fn plan(decision: &str, reason: String, warning: Option<String>, should_execute: bool) -> (res:
    ExecutionPlan)
    ensures
        res.decision@ == decision@,
        res.reason@ == reason@,
        strings_view(res.warnings@) == (match warning {
            Some(w) => seq![w@],
            None => Seq::<Seq<char>>::empty(),
        }),
        res.should_execute == should_execute,
{
    let mut warnings: Vec<String> = Vec::new();
    match warning {
        Some(w) => {
            warnings.push(w);
        },
        None => {},
    }
    let res = ExecutionPlan { decision: string_of(decision), reason, warnings, should_execute };
    assert(strings_view(res.warnings@) =~= (match warning {
        Some(w) => seq![w@],
        None => Seq::<Seq<char>>::empty(),
    }));
    res
}

/// Decides how a run proceeds.
pub fn execution_plan(
    mode: EnforcementMode,
    requirements: &ProvenanceRequirements,
    policy_decision: &PolicyDecision,
    report: &VerificationReport,
) -> (res: ExecutionPlan)
    ensures
        plan_view(res) == spec_execution_plan(mode, *requirements, *policy_decision, *report),
{
    let denied = match policy_decision.decision {
        Decision::Deny => true,
        Decision::Allow => false,
    };
    if denied {
        return plan("deny", string_of(policy_decision.reason.as_str()), None, false);
    }
    let failures = required_check_failures(requirements, report);
    if failures.len() > 0 {
        let details = join(&failures, ",");
        return match mode {
            EnforcementMode::Enforce => {
                let mut reason = string_of("provenance-required-check-failed:");
                push_str(&mut reason, details.as_str());
                plan("deny", reason, None, false)
            },
            EnforcementMode::Warn => {
                let mut w = string_of(
                    "required provenance checks failed but warn mode allowed execution: ",
                );
                push_str(&mut w, details.as_str());
                plan(
                    "allow_with_warnings",
                    string_of("policy-match-with-provenance-warning"),
                    Some(w),
                    true,
                )
            },
        };
    }
    match report.summary() {
        VerificationStatus::Fail => match mode {
            EnforcementMode::Enforce => plan("deny", string_of("provenance-failed"), None, false),
            EnforcementMode::Warn => plan(
                "allow_with_warnings",
                string_of("policy-match-with-provenance-warning"),
                Some(string_of("provenance checks failed but warn mode allowed execution")),
                true,
            ),
        },
        VerificationStatus::Warn => plan(
            "allow_with_warnings",
            string_of("policy-match-with-provenance-warning"),
            Some(string_of("provenance checks returned warnings")),
            true,
        ),
        _ => plan("allow", string_of(policy_decision.reason.as_str()), None, true),
    }
}

/// A run whose tool failed in the runtime is denied, with the error's code
/// in the reason and its message among the warnings.
pub fn apply_runtime_failure(plan: &mut ExecutionPlan, err: &RuntimeError)
    ensures
        final(plan).decision@ == "deny"@,
        final(plan).reason@ == "runtime-execution-failed:"@ + runtime_error_code_text(*err),
        strings_view(final(plan).warnings@) == strings_view(old(plan).warnings@).push(
            "runtime execution failed: "@ + runtime_error_text(*err),
        ),
        final(plan).should_execute == old(plan).should_execute,
{
    plan.decision = string_of("deny");
    let mut reason = string_of("runtime-execution-failed:");
    push_str(&mut reason, runtime_error_code(err));
    plan.reason = reason;
    let mut w = string_of("runtime execution failed: ");
    let m = err.message();
    push_str(&mut w, m.as_str());
    let ghost before = plan.warnings@;
    plan.warnings.push(w);
    assert(strings_view(plan.warnings@) =~= strings_view(before).push(w@));
}

/// The short code of a runtime error.
pub open spec fn runtime_error_code_text(err: RuntimeError) -> Seq<char> {
    match err {
        RuntimeError::Timeout => "timeout"@,
        RuntimeError::OutputLimit => "output_limit"@,
        RuntimeError::CapabilityDenied(_) => "capability_denied"@,
        RuntimeError::Execution(_) => "execution_error"@,
    }
}

/// Fail closed: in enforce mode a tool runs only where the policy allows
/// it, every required check passed, and the report as a whole does not
/// fail; a policy denial stops the tool in either mode.
pub proof fn law_enforce_mode_fails_closed(
    mode: EnforcementMode,
    req: ProvenanceRequirements,
    policy_decision: PolicyDecision,
    report: VerificationReport,
)
    ensures
        policy_decision.decision == Decision::Deny ==> !spec_execution_plan(
            mode,
            req,
            policy_decision,
            report,
        ).3,
        mode == EnforcementMode::Enforce && spec_execution_plan(
            mode,
            req,
            policy_decision,
            report,
        ).3 ==> policy_decision.decision == Decision::Allow && spec_failures(
            spec_required_checks(req),
            report@,
        ).len() == 0 && spec_summary(report.checks@) != VerificationStatus::Fail,
{
}

/// Warn mode never stops a tool that the policy allows, and a run goes
/// ahead exactly when its decision is an allow.
pub proof fn law_warn_mode_runs_policy_allowed(
    mode: EnforcementMode,
    req: ProvenanceRequirements,
    policy_decision: PolicyDecision,
    report: VerificationReport,
)
    ensures
        mode == EnforcementMode::Warn && policy_decision.decision == Decision::Allow
            ==> spec_execution_plan(mode, req, policy_decision, report).3,
        spec_execution_plan(mode, req, policy_decision, report).3 <==> "allow"@.is_prefix_of(
            spec_execution_plan(mode, req, policy_decision, report).0,
        ),
{
    reveal_strlit("allow");
    reveal_strlit("allow_with_warnings");
    reveal_strlit("deny");
}

/// The last check named `name` in the report passed: some check has the
/// name and passed, and no later check has the name.
pub open spec fn last_named_passed(checks: Seq<CheckView>, name: Seq<char>) -> bool {
    exists|i: int|
        0 <= i < checks.len() && checks[i].0 == name && checks[i].1 == VerificationStatus::Pass
            && forall|j: int| i < j < checks.len() ==> (#[trigger] checks[j]).0 != name
}

/// Every check that the requirements make necessary passed last time it
/// was reported: the verifier, the signer's trust and the publisher always;
/// the digest format, the artifact and policy signatures and the
/// attestation where they are required.
pub open spec fn required_checks_pass(req: ProvenanceRequirements, checks: Seq<CheckView>) -> bool {
    &&& last_named_passed(checks, "provenact.cli"@)
    &&& last_named_passed(checks, "trust.signer"@)
    &&& last_named_passed(checks, "publisher.identity"@)
    &&& (req.require_digest ==> last_named_passed(checks, "digest.format"@))
    &&& (req.require_signature ==> last_named_passed(checks, "signature.artifact"@)
        && last_named_passed(checks, "policy.signature"@))
    &&& (req.require_attestation ==> last_named_passed(checks, "attestation.artifact"@))
}

/// The latest status of a name is a pass exactly when its last check passed.
proof fn lemma_latest_pass(checks: Seq<CheckView>, name: Seq<char>)
    ensures
        (spec_latest_status(checks, name) == Some(VerificationStatus::Pass)) <==> last_named_passed(
            checks,
            name,
        ),
    decreases checks.len(),
{
    if checks.len() > 0 {
        let rest = checks.drop_last();
        lemma_latest_pass(rest, name);
        let n = checks.len() - 1;
        if checks.last().0 == name {
            if checks.last().1 == VerificationStatus::Pass {
                assert(last_named_passed(checks, name));
            } else if last_named_passed(checks, name) {
                let i = choose|i: int|
                    0 <= i < checks.len() && checks[i].0 == name && checks[i].1
                        == VerificationStatus::Pass && forall|j: int|
                        i < j < checks.len() ==> (#[trigger] checks[j]).0 != name;
                if i < n {
                    assert(checks[n].0 != name);
                }
            }
        } else {
            if last_named_passed(rest, name) {
                let i = choose|i: int|
                    0 <= i < rest.len() && rest[i].0 == name && rest[i].1 == VerificationStatus::Pass
                        && forall|j: int| i < j < rest.len() ==> (#[trigger] rest[j]).0 != name;
                assert(checks[i] == rest[i]);
                assert forall|j: int| i < j < checks.len() implies (#[trigger] checks[j]).0 != name by {
                    if j < n {
                        assert(checks[j] == rest[j]);
                    }
                }
                assert(last_named_passed(checks, name));
            }
            if last_named_passed(checks, name) {
                let i = choose|i: int|
                    0 <= i < checks.len() && checks[i].0 == name && checks[i].1
                        == VerificationStatus::Pass && forall|j: int|
                        i < j < checks.len() ==> (#[trigger] checks[j]).0 != name;
                assert(i < n);
                assert(rest[i] == checks[i]);
                assert forall|j: int| i < j < rest.len() implies (#[trigger] rest[j]).0 != name by {
                    assert(rest[j] == checks[j]);
                }
                assert(last_named_passed(rest, name));
            }
        }
    }
}

/// No failure comes from the named checks exactly when each of them passed
/// last time it was reported.
proof fn lemma_no_failures(names: Seq<Seq<char>>, checks: Seq<CheckView>)
    ensures
        spec_failures(names, checks).len() == 0 <==> forall|k: int|
            0 <= k < names.len() ==> last_named_passed(checks, #[trigger] names[k]),
    decreases names.len(),
{
    if names.len() > 0 {
        let rest = names.drop_last();
        lemma_no_failures(rest, checks);
        lemma_latest_pass(checks, names.last());
        if forall|k: int| 0 <= k < names.len() ==> last_named_passed(checks, #[trigger] names[k]) {
            assert forall|k: int| 0 <= k < rest.len() implies last_named_passed(checks, #[trigger] rest[k]) by {
                assert(rest[k] == names[k]);
            }
            assert(last_named_passed(checks, names[names.len() - 1]));
        }
        if spec_failures(names, checks).len() == 0 {
            assert forall|k: int| 0 <= k < names.len() implies last_named_passed(checks, #[trigger] names[k]) by {
                if k < rest.len() {
                    assert(rest[k] == names[k]);
                }
            }
        }
    }
}

/// The required checks all passed exactly when they leave no failure.
proof fn lemma_required_pass_iff_no_failures(req: ProvenanceRequirements, checks: Seq<CheckView>)
    ensures
        required_checks_pass(req, checks) <==> spec_failures(spec_required_checks(req), checks).len()
            == 0,
{
    let names = spec_required_checks(req);
    lemma_no_failures(names, checks);
    assert(names[0] == "provenact.cli"@);
    assert(names[1] == "trust.signer"@);
    assert(names[2] == "publisher.identity"@);
    let base = seq!["provenact.cli"@, "trust.signer"@, "publisher.identity"@];
    let d: Seq<Seq<char>> = if req.require_digest { seq!["digest.format"@] } else { Seq::empty() };
    let sg: Seq<Seq<char>> = if req.require_signature {
        seq!["signature.artifact"@, "policy.signature"@]
    } else {
        Seq::empty()
    };
    let at: Seq<Seq<char>> = if req.require_attestation {
        seq!["attestation.artifact"@]
    } else {
        Seq::empty()
    };
    assert(names == base + d + sg + at);
    let all_pass = forall|k: int| 0 <= k < names.len() ==> last_named_passed(checks, #[trigger] names[k]);
    if required_checks_pass(req, checks) {
        assert forall|k: int| 0 <= k < names.len() implies last_named_passed(checks, #[trigger] names[k]) by {
            if k >= 3 + d.len() + sg.len() {
                assert(names[k] == at[k - 3 - d.len() - sg.len()]);
            } else if k >= 3 + d.len() {
                assert(names[k] == sg[k - 3 - d.len()]);
            } else if k >= 3 {
                assert(names[k] == d[k - 3]);
            } else {
                assert(names[k] == base[k]);
            }
        }
    }
    if all_pass {
        assert(last_named_passed(checks, names[0]));
        assert(last_named_passed(checks, names[1]));
        assert(last_named_passed(checks, names[2]));
        if req.require_digest {
            assert(names[3] == "digest.format"@);
            assert(last_named_passed(checks, names[3]));
        }
        if req.require_signature {
            assert(names[3 + d.len() as int] == "signature.artifact"@);
            assert(names[4 + d.len() as int] == "policy.signature"@);
            assert(last_named_passed(checks, names[3 + d.len() as int]));
            assert(last_named_passed(checks, names[4 + d.len() as int]));
        }
        if req.require_attestation {
            assert(names[3 + d.len() as int + sg.len() as int] == "attestation.artifact"@);
            assert(last_named_passed(checks, names[3 + d.len() as int + sg.len() as int]));
        }
    }
}

/// Outside a policy denial, the plan depends on the report as follows, in
/// either mode: where every required check passed and no check failed, the
/// tool runs; with some warning it runs with a warning, otherwise it runs as
/// the policy allowed it. In enforce mode a required check that did not
/// pass, or any failing check, stops the tool.
pub proof fn law_allowed_run_goes_ahead(
    mode: EnforcementMode,
    req: ProvenanceRequirements,
    policy_decision: PolicyDecision,
    report: VerificationReport,
)
    ensures
        ({
            let plan = spec_execution_plan(mode, req, policy_decision, report);
            let no_fail = forall|i: int|
                0 <= i < report.checks@.len() ==> (#[trigger] report.checks@[i]).status
                    != VerificationStatus::Fail;
            let some_warn = exists|i: int|
                0 <= i < report.checks@.len() && (#[trigger] report.checks@[i]).status
                    == VerificationStatus::Warn;
            &&& policy_decision.decision == Decision::Allow && required_checks_pass(req, report@)
                && no_fail ==> plan.3
            &&& policy_decision.decision == Decision::Allow && required_checks_pass(req, report@)
                && no_fail && some_warn ==> plan == (
                "allow_with_warnings"@,
                "policy-match-with-provenance-warning"@,
                seq!["provenance checks returned warnings"@],
                true,
            )
            &&& policy_decision.decision == Decision::Allow && required_checks_pass(req, report@)
                && no_fail && !some_warn ==> plan == (
                "allow"@,
                policy_decision.reason@,
                Seq::<Seq<char>>::empty(),
                true,
            )
            &&& mode == EnforcementMode::Enforce && !required_checks_pass(req, report@) ==> !plan.3
            &&& mode == EnforcementMode::Enforce && !no_fail ==> !plan.3
        }),
{
    lemma_required_pass_iff_no_failures(req, report@);
    let no_fail = forall|i: int|
        0 <= i < report.checks@.len() ==> (#[trigger] report.checks@[i]).status
            != VerificationStatus::Fail;
    let some_warn = exists|i: int|
        0 <= i < report.checks@.len() && (#[trigger] report.checks@[i]).status
            == VerificationStatus::Warn;
    assert(no_fail <==> !crate::model::has_status(report.checks@, VerificationStatus::Fail));
    assert(some_warn <==> crate::model::has_status(report.checks@, VerificationStatus::Warn));
}

/// The plan in every other case: a policy denial stands as it is; a
/// required check that did not pass denies in enforce mode, naming the
/// failed checks, and runs with a warning in warn mode; where every required
/// check passed but some check failed, enforce mode denies for failed
/// provenance and warn mode runs with a warning.
pub proof fn law_plan_when_not_clean(
    mode: EnforcementMode,
    req: ProvenanceRequirements,
    policy_decision: PolicyDecision,
    report: VerificationReport,
)
    ensures
        ({
            let plan = spec_execution_plan(mode, req, policy_decision, report);
            let allow = policy_decision.decision == Decision::Allow;
            let some_fail = exists|i: int|
                0 <= i < report.checks@.len() && (#[trigger] report.checks@[i]).status
                    == VerificationStatus::Fail;
            &&& !allow ==> plan == ("deny"@, policy_decision.reason@, Seq::<Seq<char>>::empty(), false)
            &&& allow && !required_checks_pass(req, report@) && mode == EnforcementMode::Enforce
                ==> plan.0 == "deny"@ && "provenance-required-check-failed:"@.is_prefix_of(plan.1)
                && plan.2.len() == 0 && !plan.3
            &&& allow && !required_checks_pass(req, report@) && mode == EnforcementMode::Warn
                ==> plan.0 == "allow_with_warnings"@ && plan.1
                == "policy-match-with-provenance-warning"@ && plan.2.len() == 1
                && "required provenance checks failed but warn mode allowed execution: "@.is_prefix_of(
                plan.2[0],
            ) && plan.3
            &&& allow && required_checks_pass(req, report@) && some_fail && mode
                == EnforcementMode::Enforce ==> plan == (
                "deny"@,
                "provenance-failed"@,
                Seq::<Seq<char>>::empty(),
                false,
            )
            &&& allow && required_checks_pass(req, report@) && some_fail && mode
                == EnforcementMode::Warn ==> plan == (
                "allow_with_warnings"@,
                "policy-match-with-provenance-warning"@,
                seq!["provenance checks failed but warn mode allowed execution"@],
                true,
            )
        }),
{
    lemma_required_pass_iff_no_failures(req, report@);
    let some_fail = exists|i: int|
        0 <= i < report.checks@.len() && (#[trigger] report.checks@[i]).status
            == VerificationStatus::Fail;
    assert(some_fail <==> crate::model::has_status(report.checks@, VerificationStatus::Fail));
    let failures = spec_failures(spec_required_checks(req), report@);
    let details = spec_join(failures, ","@);
    let a = "provenance-required-check-failed:"@;
    assert((a + details).subrange(0, a.len() as int) =~= a);
    let b = "required provenance checks failed but warn mode allowed execution: "@;
    assert((b + details).subrange(0, b.len() as int) =~= b);
}

} // verus!
