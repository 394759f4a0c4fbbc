//! Provenance verification of a tool: the checks made on its registration
//! and artifacts, and the reading of the external verifier's answer.
use vstd::prelude::*;
use crate::crypto::{sha256_hex, spec_sha256_hex};
use crate::model::{CheckView, ToolRegistration, VerificationReport, VerificationStatus};
use crate::text::{
    char_len, is_blank, is_blank_str, lower_seq, push_str, starts_with, str_eq, string_of,
    to_ascii_lowercase, trim, trim_seq,
};

verus! {

/// Why the verifier's answer could not be used.
#[derive(Debug, Clone)]
pub enum VerifierError {
    Parse(String),
}

impl VerifierError {
    /// The message of the error, as it is displayed.
    pub fn message(&self) -> (res: String)
        ensures
            res@ == match *self {
                VerifierError::Parse(m) => "failed to parse verifier output: "@ + m@,
            },
    {
        match self {
            VerifierError::Parse(m) => {
                let mut s = string_of("failed to parse verifier output: ");
                push_str(&mut s, m.as_str());
                s
            },
        }
    }
}

/// The status a verifier's word stands for, read in any ASCII case:
/// `pass`, `ok` and `success` pass, `warn` and `warning` warn, `skip` and
/// `skipped` skip, and anything else fails.
pub open spec fn spec_map_status(word: Seq<char>) -> VerificationStatus {
    let l = lower_seq(word);
    if l == "pass"@ || l == "ok"@ || l == "success"@ {
        VerificationStatus::Pass
    } else if l == "warn"@ || l == "warning"@ {
        VerificationStatus::Warn
    } else if l == "skip"@ || l == "skipped"@ {
        VerificationStatus::Skipped
    } else {
        VerificationStatus::Fail
    }
}

/// The status a verifier's word stands for.
pub fn map_status(word: &str) -> (res: VerificationStatus)
    ensures
        res == spec_map_status(word@),
{
    let lower = to_ascii_lowercase(word);
    let l = lower.as_str();
    if str_eq(l, "pass") || str_eq(l, "ok") || str_eq(l, "success") {
        VerificationStatus::Pass
    } else if str_eq(l, "warn") || str_eq(l, "warning") {
        VerificationStatus::Warn
    } else if str_eq(l, "skip") || str_eq(l, "skipped") {
        VerificationStatus::Skipped
    } else {
        VerificationStatus::Fail
    }
}

/// One entry of the `checks` array of the verifier's JSON answer: the
/// string members it may carry (a member that is absent or not a string is
/// `None`).
#[derive(Debug, Clone)]
pub struct VerifierCheckOutput {
    pub name: Option<String>,
    pub check: Option<String>,
    pub status: Option<String>,
    pub result: Option<String>,
    pub detail: Option<String>,
    pub reason: Option<String>,
}

/// The verifier's JSON answer as far as it is read: its `verdict` and
/// `status` strings, the entries of its `checks` array, and the document
/// re-encoded as bytes, which is kept as evidence.
#[derive(Debug, Clone)]
pub struct VerifierOutput {
    pub verdict: Option<String>,
    pub status: Option<String>,
    pub checks: Vec<VerifierCheckOutput>,
    pub encoded: Option<Vec<u8>>,
}

/// The first of two optional strings that is present, else `default`.
pub open spec fn first_present(a: Option<String>, b: Option<String>, default: Seq<char>) -> Seq<
    char,
> {
    match a {
        Some(x) => x@,
        None => match b {
            Some(y) => y@,
            None => default,
        },
    }
}

/// The check that one entry of the verifier's `checks` array becomes.
pub open spec fn spec_ingest_check(c: VerifierCheckOutput) -> CheckView {
    (
        "provenact."@ + first_present(c.name, c.check, "unknown"@),
        spec_map_status(first_present(c.status, c.result, "fail"@)),
        first_present(c.detail, c.reason, "no details from verifier"@),
    )
}

/// The verdict of the answer: its `verdict`, else its `status`.
pub open spec fn spec_verdict(out: VerifierOutput) -> Option<Seq<char>> {
    match out.verdict {
        Some(v) => Some(v@),
        None => match out.status {
            Some(s) => Some(s@),
            None => None,
        },
    }
}

/// The checks that the verifier's answer adds, in order: the verdict, one
/// check per entry of `checks`, the evidence digest, and a passing
/// `provenact.cli` where there was no verdict.
pub open spec fn spec_ingest(out: VerifierOutput) -> Seq<CheckView> {
    let head = match spec_verdict(out) {
        Some(v) => seq![("provenact.cli"@, spec_map_status(v), "verdict="@ + v)],
        None => Seq::empty(),
    };
    let entries = out.checks@.map_values(|c: VerifierCheckOutput| spec_ingest_check(c));
    let evidence = match out.encoded {
        Some(raw) => seq![
            ("provenact.evidence"@, VerificationStatus::Pass, "sha256="@ + spec_sha256_hex(raw@)),
        ],
        None => Seq::empty(),
    };
    let tail = if spec_verdict(out) is None {
        seq![("provenact.cli"@, VerificationStatus::Pass, "verifier command succeeded"@)]
    } else {
        Seq::empty()
    };
    head + entries + evidence + tail
}

fn first_present_exec(a: &Option<String>, b: &Option<String>, default: &str) -> (res: String)
    ensures
        res@ == first_present(*a, *b, default@),
{
    match a {
        Some(x) => x.clone(),
        None => match b {
            Some(y) => y.clone(),
            None => string_of(default),
        },
    }
}

/// Adds to the report the checks that the verifier's JSON answer carries.
pub fn ingest_machine_readable_report(out: &VerifierOutput, report: &mut VerificationReport)
    ensures
        final(report)@ == old(report)@ + spec_ingest(*out),
{
    let ghost start = report@;
    let verdict = first_present_exec(&out.verdict, &out.status, "");
    let has_cli_verdict = out.verdict.is_some() || out.status.is_some();
    if has_cli_verdict {
        let mut detail = string_of("verdict=");
        push_str(&mut detail, verdict.as_str());
        report.push(string_of("provenact.cli"), map_status(verdict.as_str()), detail);
    }
    let ghost after_head = report@;
    let n = out.checks.len();
    let mut i: usize = 0;
    while i < n
        invariant
            n == out.checks@.len(),
            i <= n,
            report@ == after_head + out.checks@.subrange(0, i as int).map_values(
                |c: VerifierCheckOutput| spec_ingest_check(c),
            ),
        decreases n - i,
    {
        let c = &out.checks[i];
        let mut name = string_of("provenact.");
        let nm = first_present_exec(&c.name, &c.check, "unknown");
        push_str(&mut name, nm.as_str());
        let word = first_present_exec(&c.status, &c.result, "fail");
        let detail = first_present_exec(&c.detail, &c.reason, "no details from verifier");
        report.push(name, map_status(word.as_str()), detail);
        proof {
            assert(out.checks@.subrange(0, i + 1).map_values(
                |c: VerifierCheckOutput| spec_ingest_check(c),
            ) =~= out.checks@.subrange(0, i as int).map_values(
                |c: VerifierCheckOutput| spec_ingest_check(c),
            ).push(spec_ingest_check(out.checks@[i as int])));
        }
        i = i + 1;
    }
    proof {
        assert(out.checks@.subrange(0, n as int) =~= out.checks@);
    }
    match &out.encoded {
        Some(raw) => {
            let mut detail = string_of("sha256=");
            let digest = sha256_hex(raw.as_slice());
            push_str(&mut detail, digest.as_str());
            report.push(string_of("provenact.evidence"), VerificationStatus::Pass, detail);
        },
        None => {},
    }
    if !has_cli_verdict {
        report.push(
            string_of("provenact.cli"),
            VerificationStatus::Pass,
            string_of("verifier command succeeded"),
        );
    }
    proof {
        assert(report@ =~= start + spec_ingest(*out));
    }
}

/// What became of the external verifier command.
#[derive(Debug, Clone)]
pub enum VerifierRun {
    /// No verifier path is configured, so nothing was run.
    PathEmpty,
    /// It succeeded and printed nothing but white space.
    Silent,
    /// It succeeded and printed this JSON answer.
    Answered(VerifierOutput),
    /// It exited with a failure; its error output.
    Failed(String),
    /// It could not be started; the launch error.
    LaunchFailed(String),
}

/// Whether a successful verifier's standard output carries an answer to be
/// parsed, which is when it is not blank.
pub fn stdout_carries_answer(stdout: &str) -> (res: bool)
    ensures
        res == !is_blank(stdout@),
{
    !is_blank_str(stdout)
}

/// The registration checks: the digest format, the publisher, and the
/// signature and attestation artifacts, given whether the configured
/// artifact paths exist.
pub open spec fn spec_artifact_checks(
    tool: ToolRegistration,
    signature_exists: bool,
    attestation_exists: bool,
) -> Seq<CheckView> {
    let digest = if "sha256:"@.is_prefix_of(tool.digest@) && tool.digest@.len() > 7 {
        ("digest.format"@, VerificationStatus::Pass, "tool digest uses sha256 format"@)
    } else {
        ("digest.format"@, VerificationStatus::Fail, "tool digest must use sha256:<hex> format"@)
    };
    let publisher = if is_blank(tool.publisher@) {
        ("publisher.identity"@, VerificationStatus::Fail, "publisher must be present"@)
    } else {
        ("publisher.identity"@, VerificationStatus::Pass, "publisher identity present"@)
    };
    let signature = match tool.signature_path {
        Some(p) => if signature_exists {
            ("signature.artifact"@, VerificationStatus::Pass, "signature artifact found"@)
        } else {
            ("signature.artifact"@, VerificationStatus::Fail, "signature artifact missing: "@ + p@)
        },
        None => (
            "signature.artifact"@,
            VerificationStatus::Fail,
            "signature artifact not configured"@,
        ),
    };
    let attestation = match tool.attestations_path {
        Some(p) => if attestation_exists {
            ("attestation.artifact"@, VerificationStatus::Pass, "attestation artifact found"@)
        } else {
            (
                "attestation.artifact"@,
                VerificationStatus::Fail,
                "attestation artifact missing: "@ + p@,
            )
        },
        None => (
            "attestation.artifact"@,
            VerificationStatus::Fail,
            "attestation artifact not configured"@,
        ),
    };
    seq![digest, publisher, signature, attestation]
}

/// The checks that what became of the verifier command adds.
pub open spec fn spec_run_checks(run: VerifierRun) -> Seq<CheckView> {
    match run {
        VerifierRun::PathEmpty => seq![
            ("provenact.cli"@, VerificationStatus::Fail, "provenact path is empty"@),
        ],
        VerifierRun::Silent => seq![
            ("provenact.cli"@, VerificationStatus::Pass, "verifier command succeeded"@),
        ],
        VerifierRun::Answered(out) => spec_ingest(out),
        VerifierRun::Failed(stderr) => seq![
            ("provenact.cli"@, VerificationStatus::Fail, "command failed: "@ + trim_seq(stderr@)),
        ],
        VerifierRun::LaunchFailed(err) => seq![
            (
                "provenact.cli"@,
                VerificationStatus::Fail,
                "could not execute verifier command: "@ + err@,
            ),
        ],
    }
}

/// The verifier that checks a tool's registration and artifacts and runs
/// the external provenance verifier.
#[derive(Debug, Default)]
pub struct ProvenactCliVerifier;

impl ProvenactCliVerifier {
    /// The report on a tool: the registration checks, then what the
    /// verifier command's run adds.
    pub fn verify(
        &self,
        tool: &ToolRegistration,
        signature_exists: bool,
        attestation_exists: bool,
        run: &VerifierRun,
    ) -> (res: VerificationReport)
        ensures
            res@ == spec_artifact_checks(*tool, signature_exists, attestation_exists)
                + spec_run_checks(*run),
    {
        let mut report = VerificationReport::default();
        proof {
            reveal_strlit("sha256:");
        }
        if starts_with(tool.digest.as_str(), "sha256:") && char_len(tool.digest.as_str()) > 7 {
            report.push(
                string_of("digest.format"),
                VerificationStatus::Pass,
                string_of("tool digest uses sha256 format"),
            );
        } else {
            report.push(
                string_of("digest.format"),
                VerificationStatus::Fail,
                string_of("tool digest must use sha256:<hex> format"),
            );
        }
        if is_blank_str(tool.publisher.as_str()) {
            report.push(
                string_of("publisher.identity"),
                VerificationStatus::Fail,
                string_of("publisher must be present"),
            );
        } else {
            report.push(
                string_of("publisher.identity"),
                VerificationStatus::Pass,
                string_of("publisher identity present"),
            );
        }
        match &tool.signature_path {
            Some(p) => {
                if signature_exists {
                    report.push(
                        string_of("signature.artifact"),
                        VerificationStatus::Pass,
                        string_of("signature artifact found"),
                    );
                } else {
                    let mut d = string_of("signature artifact missing: ");
                    push_str(&mut d, p.as_str());
                    report.push(string_of("signature.artifact"), VerificationStatus::Fail, d);
                }
            },
            None => {
                report.push(
                    string_of("signature.artifact"),
                    VerificationStatus::Fail,
                    string_of("signature artifact not configured"),
                );
            },
        }
        match &tool.attestations_path {
            Some(p) => {
                if attestation_exists {
                    report.push(
                        string_of("attestation.artifact"),
                        VerificationStatus::Pass,
                        string_of("attestation artifact found"),
                    );
                } else {
                    let mut d = string_of("attestation artifact missing: ");
                    push_str(&mut d, p.as_str());
                    report.push(string_of("attestation.artifact"), VerificationStatus::Fail, d);
                }
            },
            None => {
                report.push(
                    string_of("attestation.artifact"),
                    VerificationStatus::Fail,
                    string_of("attestation artifact not configured"),
                );
            },
        }
        let ghost mid = report@;
        proof {
            assert(mid =~= spec_artifact_checks(*tool, signature_exists, attestation_exists));
        }
        match run {
            VerifierRun::PathEmpty => {
                report.push(
                    string_of("provenact.cli"),
                    VerificationStatus::Fail,
                    string_of("provenact path is empty"),
                );
            },
            VerifierRun::Silent => {
                report.push(
                    string_of("provenact.cli"),
                    VerificationStatus::Pass,
                    string_of("verifier command succeeded"),
                );
            },
            VerifierRun::Answered(out) => {
                ingest_machine_readable_report(out, &mut report);
            },
            VerifierRun::Failed(stderr) => {
                let mut d = string_of("command failed: ");
                let t = trim(stderr.as_str());
                push_str(&mut d, t.as_str());
                report.push(string_of("provenact.cli"), VerificationStatus::Fail, d);
            },
            VerifierRun::LaunchFailed(err) => {
                let mut d = string_of("could not execute verifier command: ");
                push_str(&mut d, err.as_str());
                report.push(string_of("provenact.cli"), VerificationStatus::Fail, d);
            },
        }
        proof {
            assert(report@ =~= mid + spec_run_checks(*run));
        }
        report
    }
}

/// What the report of `verify` says of a tool, for whatever the verifier
/// command's run adds after them: first the digest format, which passes
/// exactly for a `sha256:` digest with more after the prefix; then the
/// publisher, which passes exactly where it is not blank; then the signature
/// and the attestation artifacts, each of which passes exactly where its
/// path is configured and the file exists, and otherwise fails, naming a
/// configured path that is missing. A verifier that cannot be run, fails or
/// has no path adds one failing `provenact.cli` check; one that succeeds
/// silently adds one passing check.
pub proof fn law_verify_reports_artifacts(
    tool: ToolRegistration,
    signature_exists: bool,
    attestation_exists: bool,
    run: VerifierRun,
)
    ensures
        ({
            let r = spec_artifact_checks(tool, signature_exists, attestation_exists)
                + spec_run_checks(run);
            &&& r.len() >= 5
            &&& r[0].0 == "digest.format"@
            &&& (r[0].1 == VerificationStatus::Pass) == (tool.digest@.len() > 7
                && tool.digest@.subrange(0, 7) == "sha256:"@)
            &&& r[1].0 == "publisher.identity"@
            &&& (r[1].1 == VerificationStatus::Pass) == !is_blank(tool.publisher@)
            &&& r[2].0 == "signature.artifact"@
            &&& (r[2].1 == VerificationStatus::Pass) == (tool.signature_path is Some
                && signature_exists)
            &&& r[3].0 == "attestation.artifact"@
            &&& (r[3].1 == VerificationStatus::Pass) == (tool.attestations_path is Some
                && attestation_exists)
            &&& forall|k: int| 0 <= k < 4 ==> (#[trigger] r[k]).1 == VerificationStatus::Pass
                || r[k].1 == VerificationStatus::Fail
            &&& tool.signature_path matches Some(p) ==> (!signature_exists ==> r[2].2
                == "signature artifact missing: "@ + p@)
            &&& tool.attestations_path matches Some(p) ==> (!attestation_exists ==> r[3].2
                == "attestation artifact missing: "@ + p@)
            &&& (run is PathEmpty || run is Failed || run is LaunchFailed) ==> r.len() == 5
                && r[4].0 == "provenact.cli"@ && r[4].1 == VerificationStatus::Fail
            &&& run is Silent ==> r.len() == 5 && r[4].0 == "provenact.cli"@ && r[4].1
                == VerificationStatus::Pass
        }),
{
    reveal_strlit("sha256:");
    let a = spec_artifact_checks(tool, signature_exists, attestation_exists);
    let r = a + spec_run_checks(run);
    assert(r[0] == a[0] && r[1] == a[1] && r[2] == a[2] && r[3] == a[3]);
    if tool.digest@.len() > 7 && tool.digest@.subrange(0, 7) == "sha256:"@ {
        assert("sha256:"@.is_prefix_of(tool.digest@));
    }
    if "sha256:"@.is_prefix_of(tool.digest@) {
        assert(tool.digest@.subrange(0, 7) =~= "sha256:"@);
    }
    if !(run is Answered) {
        assert(r[4] == spec_run_checks(run)[0]);
    }
}

/// What an answering verifier adds to the report of `verify`: after the
/// four registration checks comes its verdict (its `verdict`, else its
/// `status`) as a `provenact.cli` check whose status the verdict's word
/// gives, then one `provenact.` check per entry of its `checks`, in order;
/// an answer with no verdict ends with a passing `provenact.cli` check.
pub proof fn law_verify_reads_answer(
    tool: ToolRegistration,
    signature_exists: bool,
    attestation_exists: bool,
    out: VerifierOutput,
)
    ensures
        ({
            let r = spec_artifact_checks(tool, signature_exists, attestation_exists)
                + spec_run_checks(VerifierRun::Answered(out));
            let v: Option<Seq<char>> = match out.verdict {
                Some(x) => Some(x@),
                None => match out.status {
                    Some(y) => Some(y@),
                    None => None,
                },
            };
            let first = if v is Some { 5int } else { 4int };
            &&& v matches Some(w) ==> r[4] == ("provenact.cli"@, spec_map_status(w), "verdict="@ + w)
            &&& v is None ==> r.last() == (
                "provenact.cli"@,
                VerificationStatus::Pass,
                "verifier command succeeded"@,
            )
            &&& r.len() >= first + out.checks@.len()
            &&& forall|k: int|
                0 <= k < out.checks@.len() ==> (#[trigger] r[first + k]).0 == "provenact."@
                    + first_present(out.checks@[k].name, out.checks@[k].check, "unknown"@)
        }),
{
    let a = spec_artifact_checks(tool, signature_exists, attestation_exists);
    let run = spec_ingest(out);
    let r = a + run;
    let head: Seq<CheckView> = match spec_verdict(out) {
        Some(w) => seq![("provenact.cli"@, spec_map_status(w), "verdict="@ + w)],
        None => Seq::empty(),
    };
    let entries = out.checks@.map_values(|c: VerifierCheckOutput| spec_ingest_check(c));
    assert forall|k: int| 0 <= k < out.checks@.len() implies (#[trigger] r[a.len() + head.len() + k]).0
        == "provenact."@ + first_present(out.checks@[k].name, out.checks@[k].check, "unknown"@) by {
        assert(run[head.len() + k] == entries[k]);
    }
    if spec_verdict(out) is Some {
        assert(r[4] == run[0]);
    } else {
        assert(r.last() == run.last());
    }
}

} // verus!
