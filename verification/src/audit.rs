//! The append-only, hash-chained audit log: sequence numbers, previous-hash
//! links, record hashes, chain verification and tailing.
use vstd::prelude::*;
use crate::crypto::{sha256_hex, spec_sha256_hex};
use crate::host::HostError;
use crate::model::{
    ReceiptEnvelope, Timestamp, VerificationStatus, copy_opt_string, opt_str_eq, opt_view,
    spec_uuid_parse, uuid_parse,
};
use crate::sort::{
    SortKey, covers, is_sort_witness, is_stable_sort_of, lemma_stable_sort_push_greatest,
    lemma_stable_sort_unique, stable_sort,
};
use crate::text::{push_str, str_eq, string_of};

verus! {

/// One line of the audit log.
#[derive(Debug, Clone)]
pub struct AuditRecord {
    pub id: String,
    pub timestamp: Timestamp,
    pub tool_digest: String,
    pub policy_hash: String,
    pub receipt_hash: String,
    pub decision: String,
    pub reason: String,
    pub duration_ms: u64,
    pub seq: u64,
    pub prev_hash: Option<String>,
    pub record_hash: String,
    pub verification_status: VerificationStatus,
}

impl AuditRecord {
    /// A copy of the record.
    pub fn copy(&self) -> (res: AuditRecord)
        ensures
            res == *self,
    {
        AuditRecord {
            id: self.id.clone(),
            timestamp: self.timestamp,
            tool_digest: self.tool_digest.clone(),
            policy_hash: self.policy_hash.clone(),
            receipt_hash: self.receipt_hash.clone(),
            decision: self.decision.clone(),
            reason: self.reason.clone(),
            duration_ms: self.duration_ms,
            seq: self.seq,
            prev_hash: copy_opt_string(&self.prev_hash),
            record_hash: self.record_hash.clone(),
            verification_status: self.verification_status,
        }
    }

    /// A copy with the record hash cleared: the form whose serialization
    /// the record hash covers.
    pub fn unhashed(&self) -> (res: AuditRecord)
        ensures
            res == (AuditRecord { record_hash: res.record_hash, ..*self }),
            res.record_hash@.len() == 0,
    {
        AuditRecord {
            id: self.id.clone(),
            timestamp: self.timestamp,
            tool_digest: self.tool_digest.clone(),
            policy_hash: self.policy_hash.clone(),
            receipt_hash: self.receipt_hash.clone(),
            decision: self.decision.clone(),
            reason: self.reason.clone(),
            duration_ms: self.duration_ms,
            seq: self.seq,
            prev_hash: copy_opt_string(&self.prev_hash),
            record_hash: String::new(),
            verification_status: self.verification_status,
        }
    }

    /// The record hash: the lower-case hex SHA-256 of `unhashed_json`, the
    /// serialization of `unhashed()`.
    pub fn compute_hash(unhashed_json: &[u8]) -> (res: String)
        ensures
            res@ == spec_sha256_hex(unhashed_json@),
    {
        sha256_hex(unhashed_json)
    }
}

impl SortKey for AuditRecord {
    open spec fn precedes(self, other: Self) -> bool {
        self.seq < other.seq
    }

    proof fn lemma_precedes_irreflexive(a: Self) {
    }

    proof fn lemma_precedes_transitive(a: Self, b: Self, c: Self) {
    }

    proof fn lemma_precedes_chain(x: Self, a: Self, b: Self) {
    }

    fn precedes_exec(&self, other: &Self) -> (res: bool) {
        self.seq < other.seq
    }
}

/// A record of the log with the serialization of its unhashed form, which
/// its record hash is checked against.
#[derive(Debug, Clone)]
pub struct AuditEntry {
    pub record: AuditRecord,
    pub unhashed_json: Vec<u8>,
}

impl SortKey for AuditEntry {
    open spec fn precedes(self, other: Self) -> bool {
        self.record.seq < other.record.seq
    }

    proof fn lemma_precedes_irreflexive(a: Self) {
    }

    proof fn lemma_precedes_transitive(a: Self, b: Self, c: Self) {
    }

    proof fn lemma_precedes_chain(x: Self, a: Self, b: Self) {
    }

    fn precedes_exec(&self, other: &Self) -> (res: bool) {
        self.record.seq < other.record.seq
    }
}

/// The result of checking the chain.
#[derive(Debug, Clone)]
pub struct AuditChainReport {
    pub valid: bool,
    pub checked_records: usize,
    pub first_invalid_seq: Option<u64>,
    pub reason: Option<String>,
}

/// An inclusive range of sequence numbers.
#[derive(Debug, Clone, Copy)]
pub struct SeqRange {
    pub start: u64,
    pub end: u64,
}

/// The sequence number lies in the range, or no range is given.
pub open spec fn in_range(range: Option<SeqRange>, seq: u64) -> bool {
    match range {
        None => true,
        Some(r) => r.start <= seq && seq <= r.end,
    }
}

/// The entries, in order, whose sequence numbers lie in the range.
pub open spec fn select_range(entries: Seq<AuditEntry>, range: Option<SeqRange>) -> Seq<AuditEntry> {
    entries.filter(|e: AuditEntry| in_range(range, e.record.seq))
}

/// The sequence number that position `i` of the chain must follow.
pub open spec fn prev_seq_at(s: Seq<AuditEntry>, i: int) -> int {
    if i == 0 {
        if s[0].record.seq == 0 {
            0
        } else {
            s[0].record.seq - 1
        }
    } else {
        s[i - 1].record.seq as int
    }
}

/// The hash that position `i` of the chain must link back to.
pub open spec fn prev_hash_at(s: Seq<AuditEntry>, i: int) -> Option<Seq<char>> {
    if i == 0 {
        None
    } else {
        Some(s[i - 1].record.record_hash@)
    }
}

/// What is wrong at position `i` of the chain, checked in this order: the
/// sequence number must follow the previous one, the previous-hash link
/// must name the previous record's hash (except after sequence number 0),
/// and the record hash must be the hash of the record's unhashed form.
pub open spec fn chain_break_at(s: Seq<AuditEntry>, i: int) -> Option<Seq<char>> {
    let r = s[i].record;
    if r.seq as int != prev_seq_at(s, i) + 1 {
        Some("non-contiguous sequence number"@)
    } else if prev_seq_at(s, i) > 0 && opt_view(r.prev_hash) != prev_hash_at(s, i) {
        Some("previous hash mismatch"@)
    } else if spec_sha256_hex(s[i].unhashed_json@) != r.record_hash@ {
        Some("record hash mismatch"@)
    } else {
        None
    }
}

/// Position `i` is the first break of the chain.
pub open spec fn is_first_break(s: Seq<AuditEntry>, i: int) -> bool {
    &&& 0 <= i < s.len()
    &&& chain_break_at(s, i) is Some
    &&& forall|j: int| 0 <= j < i ==> chain_break_at(s, j) is None
}

/// No position of the chain is broken.
pub open spec fn chain_intact(s: Seq<AuditEntry>) -> bool {
    forall|i: int| 0 <= i < s.len() ==> chain_break_at(s, i) is None
}

/// The report describes the chain `s`: all of it is counted; it is valid
/// where nothing is broken, and otherwise names the first break.
pub open spec fn report_describes(report: AuditChainReport, s: Seq<AuditEntry>) -> bool {
    &&& report.checked_records == s.len()
    &&& report.valid == chain_intact(s)
    &&& chain_intact(s) ==> report.first_invalid_seq is None && report.reason is None
    &&& forall|i: int| #[trigger] is_first_break(s, i) ==> {
        &&& report.first_invalid_seq == Some(s[i].record.seq)
        &&& opt_view(report.reason) == chain_break_at(s, i)
    }
}

/// Position `k` holds the last record of the log in sequence order: its
/// sequence number is the largest, and no later record shares it.
pub open spec fn is_chain_tail(records: Seq<AuditRecord>, k: int) -> bool {
    &&& 0 <= k < records.len()
    &&& forall|j: int| 0 <= j < records.len() ==> records[j].seq <= records[k].seq
    &&& forall|j: int| k < j < records.len() ==> records[j].seq < records[k].seq
}

/// Position `k` holds the newest record with the given id: no record with
/// that id is newer, and no earlier one is as new.
pub open spec fn is_newest_with_id(records: Seq<AuditRecord>, id: Seq<char>, k: int) -> bool {
    &&& 0 <= k < records.len()
    &&& records[k].id@ == id
    &&& forall|j: int|
        0 <= j < records.len() && records[j].id@ == id ==> !records[k].timestamp.before(
            records[j].timestamp,
        )
    &&& forall|j: int|
        0 <= j < k && records[j].id@ == id ==> records[j].timestamp.before(records[k].timestamp)
}

/// The records of the entries.
pub open spec fn records_of(entries: Seq<AuditEntry>) -> Seq<AuditRecord> {
    entries.map_values(|e: AuditEntry| e.record)
}

/// The records with sequence numbers from `from_seq` on.
pub open spec fn records_from(records: Seq<AuditRecord>, from_seq: u64) -> Seq<AuditRecord> {
    records.filter(|r: AuditRecord| r.seq >= from_seq)
}

/// What `prepare_append` makes of a record for a log with the given
/// entries: a sequence number of 0 becomes the one after the last record's
/// (1 in an empty log), and a missing previous-hash link becomes the last
/// record's hash (none in an empty log); nothing else changes.
pub open spec fn prepared_from(entries: Seq<AuditEntry>, record: AuditRecord, res: AuditRecord) -> bool {
    if entries.len() == 0 {
        res == (AuditRecord {
            seq: if record.seq == 0 {
                1
            } else {
                record.seq
            },
            ..record
        })
    } else {
        exists|k: int|
            is_chain_tail(records_of(entries), k) && res == (AuditRecord {
                seq: if record.seq == 0 {
                    (entries[k].record.seq + 1) as u64
                } else {
                    record.seq
                },
                prev_hash: res.prev_hash,
                ..record
            }) && (record.prev_hash is Some ==> res.prev_hash == record.prev_hash) && (
            record.prev_hash is None ==> opt_view(res.prev_hash) == Some(
                entries[k].record.record_hash@,
            ))
    }
}

/// The file name of a stored receipt: its id, read as a UUID and written in
/// canonical form, with `.json`; a receipt error where the id is no UUID.
pub fn receipt_file_name(id: &str) -> (res: Result<String, HostError>)
    ensures
        match spec_uuid_parse(id@) {
            Some(c) => res matches Ok(n) && n@ == c + ".json"@,
            None => res matches Err(HostError::Audit(m)) && "receipt error: "@.is_prefix_of(m@),
        },
{
    match uuid_parse(id) {
        Ok(c) => {
            let mut n = c;
            push_str(&mut n, ".json");
            Ok(n)
        },
        Err(e) => {
            let mut m = string_of("receipt error: ");
            push_str(&mut m, e.as_str());
            Err(HostError::Audit(m))
        },
    }
}

/// The status a stored record carries where it records none.
pub fn default_verification_status() -> (res: VerificationStatus)
    ensures
        res == VerificationStatus::Skipped,
{
    VerificationStatus::Skipped
}

/// The audit log as loaded: its entries in file order.
#[derive(Debug, Clone)]
pub struct AuditStore {
    pub entries: Vec<AuditEntry>,
}

impl AuditStore {
    /// The store over the entries of a log, in file order.
    pub fn new(entries: Vec<AuditEntry>) -> (res: Self)
        ensures
            res.entries@ == entries@,
    {
        AuditStore { entries }
    }

    /// The records of the log, in file order.
    pub fn export_audit(&self) -> (res: Vec<AuditRecord>)
        ensures
            res@ == records_of(self.entries@),
    {
        let mut out: Vec<AuditRecord> = Vec::new();
        let n = self.entries.len();
        let mut i: usize = 0;
        while i < n
            invariant
                n == self.entries@.len(),
                i <= n,
                out@ == records_of(self.entries@.subrange(0, i as int)),
            decreases n - i,
        {
            out.push(self.entries[i].record.copy());
            assert(records_of(self.entries@.subrange(0, i + 1)) =~= records_of(
                self.entries@.subrange(0, i as int),
            ).push(self.entries@[i as int].record));
            i = i + 1;
        }
        assert(self.entries@.subrange(0, n as int) =~= self.entries@);
        out
    }

    /// Whether a stored receipt's hash is the hash of `unsigned_json`, the
    /// serialization of its unsigned form.
    pub fn verify_receipt(&self, receipt: &ReceiptEnvelope, unsigned_json: &[u8]) -> (res: bool)
        ensures
            res == (receipt.receipt_hash@ == spec_sha256_hex(unsigned_json@)),
    {
        receipt.verify_hash(unsigned_json)
    }

    /// The sequence number and hash of the last record in sequence order, or
    /// `(0, None)` for an empty log.
    pub fn next_chain_metadata(&self) -> (res: (u64, Option<String>))
        ensures
            self.entries@.len() == 0 ==> res.0 == 0 && res.1 is None,
            self.entries@.len() > 0 ==> exists|k: int|
                is_chain_tail(records_of(self.entries@), k) && res.0 == self.entries@[k].record.seq
                    && opt_view(res.1) == Some(self.entries@[k].record.record_hash@),
    {
        let n = self.entries.len();
        if n == 0 {
            return (0, None);
        }
        let ghost recs = records_of(self.entries@);
        let mut best: usize = 0;
        let mut i: usize = 1;
        while i < n
            invariant
                n == self.entries@.len(),
                recs == records_of(self.entries@),
                1 <= i <= n,
                best < i,
                forall|j: int| 0 <= j < i ==> recs[j].seq <= recs[best as int].seq,
                forall|j: int| best < j < i ==> recs[j].seq < recs[best as int].seq,
            decreases n - i,
        {
            if self.entries[i].record.seq >= self.entries[best].record.seq {
                best = i;
            }
            i = i + 1;
        }
        assert(is_chain_tail(recs, best as int));
        (self.entries[best].record.seq, Some(self.entries[best].record.record_hash.clone()))
    }

    /// The record with the given id, the newest where several share it.
    pub fn find_audit_record(&self, id: &str) -> (res: Option<AuditRecord>)
        ensures
            match res {
                Some(r) => exists|k: int|
                    is_newest_with_id(records_of(self.entries@), id@, k) && r == self.entries@[k].record,
                None => forall|j: int|
                    0 <= j < self.entries@.len() ==> self.entries@[j].record.id@ != id@,
            },
    {
        let ghost recs = records_of(self.entries@);
        let n = self.entries.len();
        let mut best: Option<usize> = None;
        let mut i: usize = 0;
        while i < n
            invariant
                n == self.entries@.len(),
                recs == records_of(self.entries@),
                i <= n,
                match best {
                    None => forall|j: int| 0 <= j < i ==> recs[j].id@ != id@,
                    Some(b) => {
                        &&& b < i
                        &&& recs[b as int].id@ == id@
                        &&& forall|j: int|
                            0 <= j < i && recs[j].id@ == id@ ==> !recs[b as int].timestamp.before(
                                recs[j].timestamp,
                            )
                        &&& forall|j: int|
                            0 <= j < b && recs[j].id@ == id@ ==> recs[j].timestamp.before(
                                recs[b as int].timestamp,
                            )
                    },
                },
            decreases n - i,
        {
            if str_eq(self.entries[i].record.id.as_str(), id) {
                match best {
                    None => {
                        best = Some(i);
                    },
                    Some(b) => {
                        if self.entries[b].record.timestamp.is_before(
                            &self.entries[i].record.timestamp,
                        ) {
                            best = Some(i);
                        }
                    },
                }
            }
            i = i + 1;
        }
        match best {
            None => {
                assert forall|j: int| 0 <= j < self.entries@.len() implies self.entries@[j].record.id@ != id@ by {
                    assert(recs[j] == self.entries@[j].record);
                }
                None
            },
            Some(b) => {
                assert(is_newest_with_id(recs, id@, b as int));
                Some(self.entries[b].record.copy())
            },
        }
    }

    /// Up to `limit` records with sequence numbers from `from_seq` on, in
    /// sequence order.
    pub fn tail_audit(&self, from_seq: u64, limit: usize) -> (res: Vec<AuditRecord>)
        ensures
            exists|sorted: Seq<AuditRecord>|
                is_stable_sort_of(sorted, records_from(records_of(self.entries@), from_seq))
                    && res@ == sorted.take(
                    if limit < sorted.len() {
                        limit as int
                    } else {
                        sorted.len() as int
                    },
                ),
    {
        let ghost recs = records_of(self.entries@);
        let ghost pred = |r: AuditRecord| r.seq >= from_seq;
        let mut selected: Vec<AuditRecord> = Vec::new();
        let n = self.entries.len();
        let mut i: usize = 0;
        while i < n
            invariant
                n == self.entries@.len(),
                recs == records_of(self.entries@),
                pred == (|r: AuditRecord| r.seq >= from_seq),
                i <= n,
                selected@ == recs.take(i as int).filter(pred),
            decreases n - i,
        {
            assert(recs.take(i + 1) =~= recs.take(i as int).push(self.entries@[i as int].record));
            proof {
                recs.take(i as int).lemma_filter_push(self.entries@[i as int].record, pred);
            }
            let ghost rec = self.entries@[i as int].record;
            if self.entries[i].record.seq >= from_seq {
                selected.push(self.entries[i].record.copy());
                assert(pred(rec));
                assert(selected@ == recs.take(i as int).filter(pred).push(rec));
            } else {
                assert(!pred(rec));
            }
            assert(selected@ == recs.take(i + 1).filter(pred));
            i = i + 1;
        }
        assert(recs.take(n as int) =~= recs);
        let sorted = stable_sort(selected);
        assert(is_stable_sort_of(sorted@, records_from(recs, from_seq)));
        let mut out: Vec<AuditRecord> = Vec::new();
        let m = sorted.len();
        let mut j: usize = 0;
        while j < m && j < limit
            invariant
                m == sorted@.len(),
                j <= m,
                j <= limit,
                out@ == sorted@.take(j as int),
            decreases m - j,
        {
            out.push(sorted[j].copy());
            assert(out@ =~= sorted@.take(j + 1));
            j = j + 1;
        }
        assert(j == m || j == limit);
        assert(out@ == sorted@.take(
            if limit < sorted@.len() {
                limit as int
            } else {
                sorted@.len() as int
            },
        ));
        out
    }

    /// Checks the chain over the records whose sequence numbers lie in the
    /// range (all records where none is given), in sequence order.
    pub fn verify_chain(self, seq_range: Option<SeqRange>) -> (res: AuditChainReport)
        ensures
            exists|sorted: Seq<AuditEntry>|
                is_stable_sort_of(sorted, self.entries@) && report_describes(
                    res,
                    select_range(sorted, seq_range),
                ),
    {
        let ghost entries = self.entries@;
        let sorted = stable_sort(self.entries);
        let ghost sorted_view = sorted@;
        let ghost pred = |e: AuditEntry| in_range(seq_range, e.record.seq);
        let mut selected: Vec<AuditEntry> = Vec::new();
        let n = sorted.len();
        let mut rest = sorted;
        let mut i: usize = 0;
        while i < n
            invariant
                n == sorted_view.len(),
                pred == (|e: AuditEntry| in_range(seq_range, e.record.seq)),
                i <= n,
                rest@ == sorted_view.subrange(i as int, n as int),
                selected@ == sorted_view.take(i as int).filter(pred),
            decreases n - i,
        {
            let e = rest.remove(0);
            assert(e == sorted_view[i as int]);
            assert(sorted_view.take(i + 1) =~= sorted_view.take(i as int).push(e));
            proof {
                sorted_view.take(i as int).lemma_filter_push(e, pred);
            }
            let keep = match seq_range {
                None => true,
                Some(r) => r.start <= e.record.seq && e.record.seq <= r.end,
            };
            if keep {
                selected.push(e);
            }
            assert(rest@ =~= sorted_view.subrange(i + 1, n as int));
            i = i + 1;
        }
        assert(sorted_view.take(n as int) =~= sorted_view);
        assert(is_stable_sort_of(sorted_view, entries));
        let report = check_chain(&selected);
        report
    }

    /// Sets the sequence number (where it is 0, the next after the last
    /// record) and the previous-hash link (where none is set, the hash of
    /// the last record) of a record about to be appended.
    pub fn prepare_append(&self, record: AuditRecord) -> (res: AuditRecord)
        requires
            record.seq == 0 ==> forall|j: int|
                0 <= j < self.entries@.len() ==> self.entries@[j].record.seq < u64::MAX,
        ensures
            prepared_from(self.entries@, record, res),
    {
        let (previous_seq, previous_hash) = self.next_chain_metadata();
        proof {
            if self.entries@.len() > 0 && record.seq == 0 {
                let k = choose|k: int|
                    is_chain_tail(records_of(self.entries@), k) && previous_seq
                        == self.entries@[k].record.seq && opt_view(previous_hash) == Some(
                        self.entries@[k].record.record_hash@,
                    );
                assert(self.entries@[k].record.seq < u64::MAX);
            }
        }
        let mut r = record;
        if r.seq == 0 {
            r.seq = previous_seq + 1;
        }
        if r.prev_hash.is_none() {
            r.prev_hash = previous_hash;
        }
        r
    }

    /// Sets the record hash from `unhashed_json`, the serialization of
    /// `prepared.unhashed()`, and appends the record to the log.
    pub fn append_record(&mut self, prepared: AuditRecord, unhashed_json: Vec<u8>) -> (res:
        AuditRecord)
        ensures
            res == (AuditRecord { record_hash: res.record_hash, ..prepared }),
            res.record_hash@ == spec_sha256_hex(unhashed_json@),
            final(self).entries@ == old(self).entries@.push(
                AuditEntry { record: res, unhashed_json },
            ),
    {
        let mut r = prepared;
        r.record_hash = sha256_hex(unhashed_json.as_slice());
        let out = r.copy();
        self.entries.push(AuditEntry { record: r, unhashed_json });
        out
    }
}

/// Checks a chain that is already selected and in sequence order.
fn check_chain(s: &Vec<AuditEntry>) -> (res: AuditChainReport)
    ensures
        report_describes(res, s@),
{
    let n = s.len();
    let mut previous_hash: Option<String> = None;
    let mut previous_seq: u64 = 0;
    let mut i: usize = 0;
    while i < n
        invariant
            n == s@.len(),
            i <= n,
            forall|j: int| 0 <= j < i ==> chain_break_at(s@, j) is None,
            i > 0 ==> previous_seq == s@[i - 1].record.seq,
            i > 0 ==> opt_view(previous_hash) == Some(s@[i - 1].record.record_hash@),
            i == 0 ==> previous_hash is None,
        decreases n - i,
    {
        let record = &s[i].record;
        if i == 0 {
            previous_seq = if record.seq == 0 {
                0
            } else {
                record.seq - 1
            };
        }
        assert(previous_seq == prev_seq_at(s@, i as int));
        assert(i > 0 ==> opt_view(previous_hash) == prev_hash_at(s@, i as int));
        let contiguous = previous_seq < u64::MAX && record.seq == previous_seq + 1;
        let reason: Option<&str> = if !contiguous {
            Some("non-contiguous sequence number")
        } else if previous_seq > 0 && !opt_str_eq(&record.prev_hash, &previous_hash) {
            Some("previous hash mismatch")
        } else if !str_eq(sha256_hex(s[i].unhashed_json.as_slice()).as_str(), record.record_hash.as_str()) {
            Some("record hash mismatch")
        } else {
            None
        };
        match reason {
            Some(text) => {
                proof {
                    assert(chain_break_at(s@, i as int) == Some(text@));
                    assert(is_first_break(s@, i as int));
                    assert forall|k: int| #[trigger] is_first_break(s@, k) implies k == i by {
                        if k < i {
                        } else if k > i {
                            assert(chain_break_at(s@, i as int) is None);
                        }
                    }
                }
                return AuditChainReport {
                    valid: false,
                    checked_records: n,
                    first_invalid_seq: Some(record.seq),
                    reason: Some(string_of(text)),
                };
            },
            None => {},
        }
        previous_hash = Some(record.record_hash.clone());
        previous_seq = record.seq;
        i = i + 1;
    }
    AuditChainReport { valid: true, checked_records: n, first_invalid_seq: None, reason: None }
}

/// Selecting with no range keeps every entry.
pub proof fn lemma_select_all(s: Seq<AuditEntry>)
    ensures
        select_range(s, None) == s,
    decreases s.len(),
{
    let pred = |e: AuditEntry| in_range(None, e.record.seq);
    if s.len() > 0 {
        lemma_select_all(s.drop_last());
        assert(s.drop_last().push(s.last()) =~= s);
        s.drop_last().lemma_filter_push(s.last(), pred);
    } else {
        reveal_with_fuel(Seq::<_>::filter, 1);
    }
}

/// The chain checks at a position depend only on the positions up to it.
proof fn lemma_break_prefix(s: Seq<AuditEntry>, x: AuditEntry, i: int)
    requires
        0 <= i < s.len(),
    ensures
        chain_break_at(s.push(x), i) == chain_break_at(s, i),
{
    assert(s.push(x)[i] == s[i]);
    if i > 0 {
        assert(s.push(x)[i - 1] == s[i - 1]);
    } else {
        assert(s.push(x)[0] == s[0]);
    }
}

/// Appending keeps the chain intact: where the log's entries, sorted by
/// sequence number, form an intact chain, and a record with no sequence
/// number and no previous-hash link is prepared and appended with the
/// serialization its hash was taken from, then every check of the whole
/// new log (`verify_chain` with no range) reports it valid.
pub proof fn law_append_keeps_chain_intact(
    entries: Seq<AuditEntry>,
    sorted: Seq<AuditEntry>,
    record: AuditRecord,
    prepared: AuditRecord,
    new_entry: AuditEntry,
)
    requires
        is_stable_sort_of(sorted, entries),
        chain_intact(sorted),
        forall|j: int| 0 <= j < entries.len() ==> (#[trigger] entries[j]).record.seq < u64::MAX,
        record.seq == 0,
        record.prev_hash is None,
        prepared_from(entries, record, prepared),
        new_entry.record == (AuditRecord { record_hash: new_entry.record.record_hash, ..prepared }),
        new_entry.record.record_hash@ == spec_sha256_hex(new_entry.unhashed_json@),
    ensures
        forall|s2: Seq<AuditEntry>, report: AuditChainReport|
            is_stable_sort_of(s2, entries.push(new_entry)) && #[trigger] report_describes(
                report,
                select_range(s2, None),
            ) ==> report.valid && report.checked_records == entries.len() + 1,
{
    let n = entries.len();
    let x = new_entry;
    let p = choose|p: Seq<int>| is_sort_witness(sorted, entries, p);
    if n == 0 {
        assert(sorted.len() == 0);
        lemma_stable_sort_push_greatest(sorted, entries, x);
        assert(chain_break_at(sorted.push(x), 0) is None);
        assert(chain_intact(sorted.push(x)));
    } else {
        let recs = records_of(entries);
        let k = choose|k: int|
            is_chain_tail(recs, k) && prepared == (AuditRecord {
                seq: (entries[k].record.seq + 1) as u64,
                prev_hash: prepared.prev_hash,
                ..record
            }) && opt_view(prepared.prev_hash) == Some(entries[k].record.record_hash@);
        assert(recs[k] == entries[k].record);
        // the first entry of an intact chain has a sequence number of at least 1
        assert(chain_break_at(sorted, 0) is None);
        assert(sorted[0].record.seq >= 1);
        // the tail of the log is the last entry of the sorted chain
        assert(covers(p, k));
        let ik = choose|i: int| 0 <= i < p.len() && p[i] == k;
        assert(sorted[ik] == entries[k]);
        let last = (n - 1) as int;
        assert(sorted[last] == entries[p[last]]);
        assert(recs[p[last]] == entries[p[last]].record);
        assert(sorted[last].record.seq <= entries[k].record.seq);
        if ik < last {
            assert(chain_break_at(sorted, last) is None);
            assert(sorted[last].record.seq == sorted[last - 1].record.seq + 1);
            if ik < last - 1 {
                assert(!sorted[last - 1].precedes(sorted[ik]));
            }
            assert(false);
        }
        assert(sorted[last] == entries[k]);
        // seq numbers of an intact chain are at least 1, so the tail's is too
        if sorted[last].record.seq == 0 {
            if last > 0 {
                assert(!sorted[last].precedes(sorted[0]));
            }
            assert(false);
        }
        // the new entry comes after every entry
        assert forall|m: int| 0 <= m < n implies (#[trigger] entries[m]).precedes(x) by {
            assert(recs[m] == entries[m].record);
        }
        lemma_stable_sort_push_greatest(sorted, entries, x);
        let s2 = sorted.push(x);
        assert forall|i: int| 0 <= i < s2.len() implies chain_break_at(s2, i) is None by {
            if i < n {
                lemma_break_prefix(sorted, x, i);
            } else {
                assert(s2[i] == x);
                assert(s2[i - 1] == sorted[last]);
            }
        }
    }
    let s2 = sorted.push(x);
    assert(chain_intact(s2));
    assert forall|s3: Seq<AuditEntry>, report: AuditChainReport|
        is_stable_sort_of(s3, entries.push(new_entry)) && #[trigger] report_describes(
            report,
            select_range(s3, None),
        ) implies report.valid && report.checked_records == entries.len() + 1 by {
        lemma_stable_sort_unique(s3, s2, entries.push(new_entry));
        lemma_select_all(s3);
    }
}

/// A chain report is consistent: it is valid exactly when it names no
/// first invalid sequence number, and exactly when it gives no reason.
pub proof fn law_chain_report_consistent(report: AuditChainReport, s: Seq<AuditEntry>)
    requires
        report_describes(report, s),
    ensures
        report.valid == report.first_invalid_seq is None,
        report.valid == report.reason is None,
{
    if !chain_intact(s) {
        let ok = |i: int| chain_break_at(s, i) is None;
        let k = choose|k: int| 0 <= k < s.len() && !(chain_break_at(s, k) is None);
        let f = crate::policy::lemma_first_failure(ok, s.len() as int, k);
        assert forall|j: int| 0 <= j < f implies chain_break_at(s, j) is None by {
            assert(ok(j));
        }
        assert(is_first_break(s, f));
    }
}

/// Preparing and appending a record changes only its chain fields: every
/// other field is kept, a sequence number or previous-hash link it already
/// carries is kept, the record hash is that of the serialization handed in,
/// and the log gains it as its last entry with every earlier entry unchanged.
pub proof fn law_append_changes_only_chain_fields(
    before: Seq<AuditEntry>,
    record: AuditRecord,
    prepared: AuditRecord,
    appended: AuditRecord,
    unhashed_json: Vec<u8>,
    after: Seq<AuditEntry>,
)
    requires
        prepared_from(before, record, prepared),
        appended == (AuditRecord { record_hash: appended.record_hash, ..prepared }),
        appended.record_hash@ == spec_sha256_hex(unhashed_json@),
        after == before.push(AuditEntry { record: appended, unhashed_json }),
    ensures
        appended == (AuditRecord {
            seq: appended.seq,
            prev_hash: appended.prev_hash,
            record_hash: appended.record_hash,
            ..record
        }),
        record.seq != 0 ==> appended.seq == record.seq,
        record.prev_hash is Some ==> appended.prev_hash == record.prev_hash,
        appended.record_hash@ == spec_sha256_hex(unhashed_json@),
        after.len() == before.len() + 1,
        forall|j: int| 0 <= j < before.len() ==> #[trigger] after[j] == before[j],
        after.last().record == appended,
{
    if before.len() > 0 {
        let k = choose|k: int|
            is_chain_tail(records_of(before), k) && prepared == (AuditRecord {
                seq: if record.seq == 0 {
                    (before[k].record.seq + 1) as u64
                } else {
                    record.seq
                },
                prev_hash: prepared.prev_hash,
                ..record
            }) && (record.prev_hash is Some ==> prepared.prev_hash == record.prev_hash) && (
            record.prev_hash is None ==> opt_view(prepared.prev_hash) == Some(
                before[k].record.record_hash@,
            ));
    }
}

} // verus!
