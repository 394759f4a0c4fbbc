//! The capability checks at the runtime boundary, made before a bundle is
//! handed to the sandboxed runtime, and the classification of runtime
//! failures.
use vstd::prelude::*;
use crate::model::CapabilitySpec;
use crate::policy::lemma_first_failure;
use crate::text::{
    contains, contains_seq, lower_seq, push_str, starts_with_char, string_of, to_ascii_lowercase,
    trim, trim_seq,
};

verus! {

/// Why the runtime refused or failed a run.
#[derive(Debug, Clone)]
pub enum RuntimeError {
    Timeout,
    OutputLimit,
    CapabilityDenied(String),
    Execution(String),
}

/// The message of a runtime error, as it is displayed.
pub open spec fn runtime_error_text(e: RuntimeError) -> Seq<char> {
    match e {
        RuntimeError::Timeout => "runtime timeout exceeded"@,
        RuntimeError::OutputLimit => "runtime output exceeded configured limit"@,
        RuntimeError::CapabilityDenied(m) => "capability denied at runtime boundary: "@ + m@,
        RuntimeError::Execution(m) => "runtime execution error: "@ + m@,
    }
}

impl RuntimeError {
    /// The message of the error, as it is displayed.
    pub fn message(&self) -> (res: String)
        ensures
            res@ == runtime_error_text(*self),
    {
        match self {
            RuntimeError::Timeout => string_of("runtime timeout exceeded"),
            RuntimeError::OutputLimit => string_of("runtime output exceeded configured limit"),
            RuntimeError::CapabilityDenied(m) => {
                let mut s = string_of("capability denied at runtime boundary: ");
                push_str(&mut s, m.as_str());
                s
            },
            RuntimeError::Execution(m) => {
                let mut s = string_of("runtime execution error: ");
                push_str(&mut s, m.as_str());
                s
            },
        }
    }
}

/// A path separator: `/` or `\`.
pub open spec fn is_separator(c: char) -> bool {
    c == '/' || c == '\\'
}

/// A segment between separators, starting at `i`, is exactly `..`.
pub open spec fn parent_segment_at(path: Seq<char>, i: int) -> bool {
    &&& 0 <= i && i + 2 <= path.len()
    &&& path[i] == '.'
    &&& path[i + 1] == '.'
    &&& (i == 0 || is_separator(path[i - 1]))
    &&& (i + 2 == path.len() || is_separator(path[i + 2]))
}

/// Some segment of the path, split at `/` and `\`, is `..`.
pub open spec fn has_parent_traversal(path: Seq<char>) -> bool {
    exists|i: int| parent_segment_at(path, i)
}

/// The path is absolute and never steps to a parent directory.
pub open spec fn sandbox_safe(path: Seq<char>) -> bool {
    path.len() > 0 && path[0] == '/' && !has_parent_traversal(path)
}

/// Whether some segment of the path is `..`.
pub fn path_has_parent_traversal(path: &str) -> (res: bool)
    ensures
        res == has_parent_traversal(path@),
{
    let n = path.unicode_len();
    if n < 2 {
        return false;
    }
    let mut i: usize = 0;
    while i < n - 1
        invariant
            n == path@.len(),
            n >= 2,
            i <= n - 1,
            forall|j: int| 0 <= j < i ==> !parent_segment_at(path@, j),
        decreases n - i,
    {
        let before_ok = i == 0 || {
            let c = path.get_char(i - 1);
            c == '/' || c == '\\'
        };
        let after_ok = i + 2 == n || {
            let c = path.get_char(i + 2);
            c == '/' || c == '\\'
        };
        if before_ok && after_ok && path.get_char(i) == '.' && path.get_char(i + 1) == '.' {
            assert(parent_segment_at(path@, i as int));
            return true;
        }
        i = i + 1;
    }
    assert forall|j: int| !parent_segment_at(path@, j) by {
        if parent_segment_at(path@, j) {
            assert(j < i);
        }
    }
    false
}

/// Whether the path is absolute and free of `..` segments.
pub fn path_is_sandbox_safe(path: &str) -> (res: bool)
    ensures
        res == sandbox_safe(path@),
{
    starts_with_char(path, '/') && !path_has_parent_traversal(path)
}

/// Position `i` holds the first path that is not sandbox safe.
pub open spec fn first_unsafe(rules: Seq<crate::model::FsRule>, i: int) -> bool {
    &&& 0 <= i < rules.len()
    &&& !sandbox_safe(rules[i].path@)
    &&& forall|j: int| 0 <= j < i ==> sandbox_safe(rules[j].path@)
}

/// What the runtime boundary refuses, in the order it checks: randomness,
/// secret materialization, writes in read-only mode, network while it is
/// disabled, then the first read path and the first write path that are not
/// sandbox safe.
pub open spec fn spec_preflight(requested: CapabilitySpec, read_only: bool, network_enabled: bool) -> Option<
    Seq<char>,
> {
    if requested.randomness {
        Some("randomness denied in runtime boundary"@)
    } else if requested.secrets_materialize {
        Some("secret materialization denied in runtime boundary"@)
    } else if read_only && requested.fs_write@.len() > 0 {
        Some("fs.write denied in read-only mode"@)
    } else if !network_enabled && requested.net_http@.len() > 0 {
        Some("net.http denied because network is disabled"@)
    } else if exists|i: int| first_unsafe(requested.fs_read@, i) {
        let i = choose|i: int| first_unsafe(requested.fs_read@, i);
        Some("fs.read path is outside sandbox constraints: "@ + requested.fs_read@[i].path@)
    } else if exists|i: int| first_unsafe(requested.fs_write@, i) {
        let i = choose|i: int| first_unsafe(requested.fs_write@, i);
        Some("fs.write path is outside sandbox constraints: "@ + requested.fs_write@[i].path@)
    } else {
        None
    }
}

fn first_unsafe_exec(rules: &Vec<crate::model::FsRule>) -> (res: Option<usize>)
    ensures
        match res {
            Some(i) => first_unsafe(rules@, i as int),
            None => forall|j: int| 0 <= j < rules@.len() ==> sandbox_safe((#[trigger] rules@[j]).path@),
        },
{
    let n = rules.len();
    let mut i: usize = 0;
    while i < n
        invariant
            n == rules@.len(),
            i <= n,
            forall|j: int| 0 <= j < i ==> sandbox_safe((#[trigger] rules@[j]).path@),
        decreases n - i,
    {
        if !path_is_sandbox_safe(rules[i].path.as_str()) {
            return Some(i);
        }
        i = i + 1;
    }
    None
}

/// Checks a capability request at the runtime boundary.
struct CapabilityBroker<'a> {
    requested: &'a CapabilitySpec,
    read_only: bool,
    network_enabled: bool,
}

impl<'a> CapabilityBroker<'a> {
    fn new(requested: &'a CapabilitySpec, read_only: bool, network_enabled: bool) -> (res: Self)
        ensures
            *res.requested == *requested,
            res.read_only == read_only,
            res.network_enabled == network_enabled,
    {
        CapabilityBroker { requested, read_only, network_enabled }
    }

    fn preflight(&self) -> (res: Result<(), RuntimeError>)
        ensures
            match spec_preflight(*self.requested, self.read_only, self.network_enabled) {
                None => res is Ok,
                Some(msg) => res matches Err(RuntimeError::CapabilityDenied(m)) && m@ == msg,
            },
    {
        let requested = self.requested;
        if requested.randomness {
            return Err(
                RuntimeError::CapabilityDenied(string_of("randomness denied in runtime boundary")),
            );
        }
        if requested.secrets_materialize {
            return Err(
                RuntimeError::CapabilityDenied(
                    string_of("secret materialization denied in runtime boundary"),
                ),
            );
        }
        if self.read_only && requested.fs_write.len() > 0 {
            return Err(
                RuntimeError::CapabilityDenied(string_of("fs.write denied in read-only mode")),
            );
        }
        if !self.network_enabled && requested.net_http.len() > 0 {
            return Err(
                RuntimeError::CapabilityDenied(
                    string_of("net.http denied because network is disabled"),
                ),
            );
        }
        match first_unsafe_exec(&requested.fs_read) {
            Some(i) => {
                let mut m = string_of("fs.read path is outside sandbox constraints: ");
                push_str(&mut m, requested.fs_read[i].path.as_str());
                proof {
                    let c = choose|c: int| first_unsafe(requested.fs_read@, c);
                    assert(c == i);
                }
                return Err(RuntimeError::CapabilityDenied(m));
            },
            None => {},
        }
        match first_unsafe_exec(&requested.fs_write) {
            Some(i) => {
                let mut m = string_of("fs.write path is outside sandbox constraints: ");
                push_str(&mut m, requested.fs_write[i].path.as_str());
                proof {
                    let c = choose|c: int| first_unsafe(requested.fs_write@, c);
                    assert(c == i);
                }
                return Err(RuntimeError::CapabilityDenied(m));
            },
            None => {},
        }
        Ok(())
    }
}

/// The executor that hands verified bundles to the sandboxed runtime after
/// checking the capability request at its boundary.
#[derive(Debug, Default)]
pub struct WasiLikeExecutor;

impl WasiLikeExecutor {
    /// The capability checks made before a run: success where nothing is
    /// refused, else the refusal.
    pub fn preflight(&self, requested: &CapabilitySpec, read_only: bool, network_enabled: bool) -> (res:
        Result<(), RuntimeError>)
        ensures
            match spec_preflight(*requested, read_only, network_enabled) {
                None => res is Ok,
                Some(msg) => res matches Err(RuntimeError::CapabilityDenied(m)) && m@ == msg,
            },
    {
        let broker = CapabilityBroker::new(requested, read_only, network_enabled);
        broker.preflight()
    }
}

/// The error for a run that the runtime ended with a failure: a timeout
/// where its error output mentions `timeout` in any ASCII case, else an
/// execution error carrying the trimmed error output.
pub fn classify_run_failure(stderr: &str) -> (res: RuntimeError)
    ensures
        contains_seq(lower_seq(stderr@), "timeout"@) ==> res is Timeout,
        !contains_seq(lower_seq(stderr@), "timeout"@) ==> (res matches RuntimeError::Execution(m)
            && m@ == "provenact run failed: "@ + trim_seq(stderr@)),
{
    let lower = to_ascii_lowercase(stderr);
    if contains(lower.as_str(), "timeout") {
        return RuntimeError::Timeout;
    }
    let mut m = string_of("provenact run failed: ");
    let t = trim(stderr);
    push_str(&mut m, t.as_str());
    RuntimeError::Execution(m)
}

/// The short code of a runtime error, as receipts record it.
pub fn runtime_error_code(err: &RuntimeError) -> (res: &'static str)
    ensures
        res@ == match *err {
            RuntimeError::Timeout => "timeout"@,
            RuntimeError::OutputLimit => "output_limit"@,
            RuntimeError::CapabilityDenied(_) => "capability_denied"@,
            RuntimeError::Execution(_) => "execution_error"@,
        },
{
    match err {
        RuntimeError::Timeout => "timeout",
        RuntimeError::OutputLimit => "output_limit",
        RuntimeError::CapabilityDenied(_) => "capability_denied",
        RuntimeError::Execution(_) => "execution_error",
    }
}

/// The bundle a tool runs from: secure execution needs one.
pub fn required_bundle_path(bundle_path: &Option<String>) -> (res: Result<String, RuntimeError>)
    ensures
        match *bundle_path {
            Some(p) => res matches Ok(r) && r@ == p@,
            None => res matches Err(RuntimeError::Execution(m))
                && m@ == "bundle path is required for secure execution"@,
        },
{
    match bundle_path {
        Some(p) => Ok(p.clone()),
        None => Err(RuntimeError::Execution(string_of("bundle path is required for secure execution"))),
    }
}

/// A bundle can run only where its file exists; `exists` says whether a
/// file is at `path`.
pub fn bundle_present(path: &str, exists: bool) -> (res: Result<(), RuntimeError>)
    ensures
        exists ==> res is Ok,
        !exists ==> (res matches Err(RuntimeError::Execution(m))
            && m@ == "bundle path does not exist: "@ + path@),
{
    if exists {
        Ok(())
    } else {
        let mut m = string_of("bundle path does not exist: ");
        push_str(&mut m, path);
        Err(RuntimeError::Execution(m))
    }
}

/// Whether runtime output of `len` bytes is over the configured limit.
pub fn output_over_limit(len: usize, max_output_bytes: usize) -> (res: bool)
    ensures
        res == (len > max_output_bytes),
{
    len > max_output_bytes
}

/// The request is safe at the runtime boundary: no randomness, no secret
/// materialization, no writes in read-only mode, no network while it is
/// disabled, and only absolute read and write paths free of `..` segments.
pub open spec fn preflight_safe(requested: CapabilitySpec, read_only: bool, network_enabled: bool) -> bool {
    &&& !requested.randomness
    &&& !requested.secrets_materialize
    &&& (read_only ==> requested.fs_write@.len() == 0)
    &&& (!network_enabled ==> requested.net_http@.len() == 0)
    &&& forall|i: int|
        0 <= i < requested.fs_read@.len() ==> sandbox_safe((#[trigger] requested.fs_read@[i]).path@)
    &&& forall|i: int|
        0 <= i < requested.fs_write@.len() ==> sandbox_safe((#[trigger] requested.fs_write@[i]).path@)
}

/// Default deny at the runtime boundary: the preflight admits a request
/// exactly when it is safe.
pub proof fn law_preflight_admits_exactly_safe_requests(
    requested: CapabilitySpec,
    read_only: bool,
    network_enabled: bool,
)
    ensures
        spec_preflight(requested, read_only, network_enabled) is None <==> preflight_safe(
            requested,
            read_only,
            network_enabled,
        ),
{
    let reads = requested.fs_read@;
    let writes = requested.fs_write@;
    let ok_read = |i: int| sandbox_safe(reads[i].path@);
    let ok_write = |i: int| sandbox_safe(writes[i].path@);
    if spec_preflight(requested, read_only, network_enabled) is None {
        assert forall|i: int| 0 <= i < reads.len() implies sandbox_safe((#[trigger] reads[i]).path@) by {
            if !ok_read(i) {
                let f = lemma_first_failure(ok_read, reads.len() as int, i);
                assert forall|j: int| 0 <= j < f implies sandbox_safe(reads[j].path@) by {
                    assert(ok_read(j));
                }
                assert(first_unsafe(reads, f));
            }
        }
        assert forall|i: int| 0 <= i < writes.len() implies sandbox_safe((#[trigger] writes[i]).path@) by {
            if !ok_write(i) {
                let f = lemma_first_failure(ok_write, writes.len() as int, i);
                assert forall|j: int| 0 <= j < f implies sandbox_safe(writes[j].path@) by {
                    assert(ok_write(j));
                }
                assert(first_unsafe(writes, f));
            }
        }
    }
    if preflight_safe(requested, read_only, network_enabled) {
        assert(!exists|i: int| first_unsafe(reads, i));
        assert(!exists|i: int| first_unsafe(writes, i));
    }
}

} // verus!
