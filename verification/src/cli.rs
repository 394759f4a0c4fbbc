//! The command line's own decisions on its arguments.
use vstd::prelude::*;
use crate::model::{EnforcementMode, ToolRegistration};
use crate::listing::ReceiptListItem;
use crate::text::{lower_seq, push_str, str_eq, string_of, to_ascii_lowercase};

verus! {

/// The enforcement mode a command-line word names, in any ASCII case:
/// `warn` or `enforce`; any other word is refused with a message.
pub fn parse_mode(input: &str) -> (res: Result<EnforcementMode, String>)
    ensures
        lower_seq(input@) == "warn"@ ==> (res matches Ok(m) && m == EnforcementMode::Warn),
        lower_seq(input@) == "enforce"@ ==> (res matches Ok(m) && m == EnforcementMode::Enforce),
        lower_seq(input@) != "warn"@ && lower_seq(input@) != "enforce"@ ==> (res matches Err(m)
            && m@ == "invalid mode; expected warn|enforce"@),
{
    proof {
        reveal_strlit("warn");
        reveal_strlit("enforce");
        assert("warn"@.len() != "enforce"@.len());
    }
    let lower = to_ascii_lowercase(input);
    if str_eq(lower.as_str(), "warn") {
        Ok(EnforcementMode::Warn)
    } else if str_eq(lower.as_str(), "enforce") {
        Ok(EnforcementMode::Enforce)
    } else {
        Err(string_of("invalid mode; expected warn|enforce"))
    }
}

/// The formats the audit log can be exported in.
#[derive(Debug, Clone, Copy, PartialEq, Eq, Structural)]
pub enum ExportFormat {
    Json,
    Ndjson,
}

/// The export format a command-line word names, exactly `json` or
/// `ndjson`; any other word is refused with a message.
pub fn parse_export_format(input: &str) -> (res: Result<ExportFormat, String>)
    ensures
        input@ == "json"@ ==> (res matches Ok(f) && f == ExportFormat::Json),
        input@ == "ndjson"@ ==> (res matches Ok(f) && f == ExportFormat::Ndjson),
        input@ != "json"@ && input@ != "ndjson"@ ==> (res matches Err(m) && m@
            == "unsupported format, expected json|ndjson"@),
{
    proof {
        reveal_strlit("json");
        reveal_strlit("ndjson");
        assert("json"@.len() != "ndjson"@.len());
    }
    if str_eq(input, "json") {
        Ok(ExportFormat::Json)
    } else if str_eq(input, "ndjson") {
        Ok(ExportFormat::Ndjson)
    } else {
        Err(string_of("unsupported format, expected json|ndjson"))
    }
}

/// An optional path as the tool listing shows it: `-` where there is none.
pub open spec fn or_dash(o: Option<String>) -> Seq<char> {
    match o {
        Some(s) => s@,
        None => "-"@,
    }
}

fn push_or_dash(s: &mut String, o: &Option<String>)
    ensures
        final(s)@ == old(s)@ + or_dash(*o),
{
    match o {
        Some(v) => push_str(s, v.as_str()),
        None => push_str(s, "-"),
    }
}

/// One row of the tool listing: name, digest, publisher, policy, bundle,
/// signature and attestation, separated by tabs.
pub fn tool_row(tool: &ToolRegistration) -> (res: String)
    ensures
        res@ == tool.name@ + "\t"@ + tool.digest@ + "\t"@ + tool.publisher@ + "\t"@
            + tool.policy@ + "\t"@ + or_dash(tool.bundle_path) + "\t"@ + or_dash(
            tool.signature_path,
        ) + "\t"@ + or_dash(tool.attestations_path),
{
    let mut s = string_of(tool.name.as_str());
    push_str(&mut s, "\t");
    push_str(&mut s, tool.digest.as_str());
    push_str(&mut s, "\t");
    push_str(&mut s, tool.publisher.as_str());
    push_str(&mut s, "\t");
    push_str(&mut s, tool.policy.as_str());
    push_str(&mut s, "\t");
    push_or_dash(&mut s, &tool.bundle_path);
    push_str(&mut s, "\t");
    push_or_dash(&mut s, &tool.signature_path);
    push_str(&mut s, "\t");
    push_or_dash(&mut s, &tool.attestations_path);
    s
}

/// The line that reports a registered tool.
pub fn added_tool_line(tool: &ToolRegistration) -> (res: String)
    ensures
        res@ == "added tool name="@ + tool.name@ + " digest="@ + tool.digest@ + " publisher="@
            + tool.publisher@ + " policy="@ + tool.policy@,
{
    let mut s = string_of("added tool name=");
    push_str(&mut s, tool.name.as_str());
    push_str(&mut s, " digest=");
    push_str(&mut s, tool.digest.as_str());
    push_str(&mut s, " publisher=");
    push_str(&mut s, tool.publisher.as_str());
    push_str(&mut s, " policy=");
    push_str(&mut s, tool.policy.as_str());
    s
}

/// One row of the receipt listing: id, time as displayed, decision and
/// tool digest, separated by tabs.
pub fn receipt_row(item: &ReceiptListItem, timestamp_text: &str) -> (res: String)
    ensures
        res@ == item.id@ + "\t"@ + timestamp_text@ + "\t"@ + item.decision@ + "\t"@
            + item.tool_digest@,
{
    let mut s = string_of(item.id.as_str());
    push_str(&mut s, "\t");
    push_str(&mut s, timestamp_text);
    push_str(&mut s, "\t");
    push_str(&mut s, item.decision.as_str());
    push_str(&mut s, "\t");
    push_str(&mut s, item.tool_digest.as_str());
    s
}

/// The line that reports a receipt check.
pub fn receipt_verdict_line(id: &str, verified: bool) -> (res: String)
    ensures
        res@ == "receipt "@ + id@ + (if verified {
            " valid"@
        } else {
            " invalid"@
        }),
{
    let mut s = string_of("receipt ");
    push_str(&mut s, id);
    if verified {
        push_str(&mut s, " valid");
    } else {
        push_str(&mut s, " invalid");
    }
    s
}

} // verus!
