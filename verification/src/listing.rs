//! Listings shown to operators: cursor pages, the filtered receipt list,
//! recent provenance runs and the counts behind the enforcement objective.
use vstd::prelude::*;
use crate::audit::AuditRecord;
use crate::model::{Timestamp, VerificationStatus};
use crate::sort::{SortKey, is_stable_sort_of, stable_sort};
use crate::text::{starts_with, str_eq};

verus! {

/// One page of a listing: its items, the cursor of the next page where
/// there is one, and the size of the whole listing.
#[derive(Debug, Clone)]
pub struct Page<T> {
    pub items: Vec<T>,
    pub next_cursor: Option<usize>,
    pub total: usize,
}

/// Where a page begins: at the cursor (0 where there is none), but never
/// past the end.
pub open spec fn page_start(total: int, cursor: Option<usize>) -> int {
    let c = match cursor {
        Some(c) => c as int,
        None => 0,
    };
    if c < total {
        c
    } else {
        total
    }
}

/// Where a page ends: `limit` items after its start, but never past the end.
pub open spec fn page_end(total: int, cursor: Option<usize>, limit: usize) -> int {
    let e = page_start(total, cursor) + limit;
    if e < total {
        e
    } else {
        total
    }
}

/// The page of `all` that begins at the cursor and holds at most `limit`
/// items.
pub fn paginate<T>(all: Vec<T>, cursor: Option<usize>, limit: usize) -> (res: Page<T>)
    requires
        page_start(all@.len() as int, cursor) + limit <= usize::MAX,
    ensures
        res.total == all@.len(),
        res.items@ == all@.subrange(
            page_start(all@.len() as int, cursor),
            page_end(all@.len() as int, cursor, limit),
        ),
        res.next_cursor == (if page_end(all@.len() as int, cursor, limit) < all@.len() {
            Some(page_end(all@.len() as int, cursor, limit) as usize)
        } else {
            None
        }),
{
    let total = all.len();
    let c = match cursor {
        Some(c) => c,
        None => 0,
    };
    let start = if c < total {
        c
    } else {
        total
    };
    let end = if start + limit < total {
        start + limit
    } else {
        total
    };
    let mut all = all;
    all.truncate(end);
    let items = all.split_off(start);
    let next_cursor = if end < total {
        Some(end)
    } else {
        None
    };
    Page { items, next_cursor, total }
}

/// Paging walks forward: the page after this one begins where this one
/// ended, and a page with a positive limit that has a successor is not
/// empty.
pub proof fn law_next_page_continues(total: int, cursor: Option<usize>, limit: usize)
    requires
        0 <= total <= usize::MAX,
        page_end(total, cursor, limit) < total,
    ensures
        page_start(total, Some(page_end(total, cursor, limit) as usize)) == page_end(
            total,
            cursor,
            limit,
        ),
        limit > 0 ==> page_start(total, cursor) < page_end(total, cursor, limit),
{
}

/// What the receipt list can be narrowed to.
#[derive(Debug, Clone)]
pub struct ReceiptFilters {
    pub decision: Option<String>,
    pub tool_digest: Option<String>,
}

impl Default for ReceiptFilters {
    fn default() -> (res: Self)
        ensures
            res.decision is None,
            res.tool_digest is None,
    {
        ReceiptFilters { decision: None, tool_digest: None }
    }
}

/// One stored receipt, as the receipt list shows it.
#[derive(Debug, Clone)]
pub struct ReceiptListItem {
    pub id: String,
    pub timestamp: Timestamp,
    pub decision: String,
    pub tool_digest: String,
}

impl SortKey for ReceiptListItem {
    /// Newer receipts come first.
    open spec fn precedes(self, other: Self) -> bool {
        other.timestamp.before(self.timestamp)
    }

    proof fn lemma_precedes_irreflexive(a: Self) {
    }

    proof fn lemma_precedes_transitive(a: Self, b: Self, c: Self) {
    }

    proof fn lemma_precedes_chain(x: Self, a: Self, b: Self) {
    }

    fn precedes_exec(&self, other: &Self) -> (res: bool) {
        other.timestamp.is_before(&self.timestamp)
    }
}

/// The item passes the filters: its decision and its tool digest equal
/// those asked for, where they are.
pub open spec fn receipt_matches(filters: ReceiptFilters, item: ReceiptListItem) -> bool {
    &&& (filters.decision matches Some(d) ==> item.decision@ == d@)
    &&& (filters.tool_digest matches Some(t) ==> item.tool_digest@ == t@)
}

/// The items that pass the filters, in their order.
pub open spec fn filtered_receipts(items: Seq<ReceiptListItem>, filters: ReceiptFilters) -> Seq<
    ReceiptListItem,
> {
    items.filter(|i: ReceiptListItem| receipt_matches(filters, i))
}

fn receipt_matches_exec(filters: &ReceiptFilters, item: &ReceiptListItem) -> (res: bool)
    ensures
        res == receipt_matches(*filters, *item),
{
    let decision_ok = match &filters.decision {
        Some(d) => str_eq(item.decision.as_str(), d.as_str()),
        None => true,
    };
    let digest_ok = match &filters.tool_digest {
        Some(t) => str_eq(item.tool_digest.as_str(), t.as_str()),
        None => true,
    };
    decision_ok && digest_ok
}

/// The receipts that pass the filters, newest first; receipts of the same
/// time keep their order.
pub fn select_receipts(items: Vec<ReceiptListItem>, filters: &ReceiptFilters) -> (res: Vec<
    ReceiptListItem,
>)
    ensures
        is_stable_sort_of(res@, filtered_receipts(items@, *filters)),
{
    let ghost pred = |i: ReceiptListItem| receipt_matches(*filters, i);
    let ghost all = items@;
    let n = items.len();
    let mut rest = items;
    let mut kept: Vec<ReceiptListItem> = Vec::new();
    let mut i: usize = 0;
    while i < n
        invariant
            n == all.len(),
            pred == (|i: ReceiptListItem| receipt_matches(*filters, i)),
            i <= n,
            rest@ == all.subrange(i as int, n as int),
            kept@ == all.take(i as int).filter(pred),
        decreases n - i,
    {
        let item = rest.remove(0);
        assert(item == all[i as int]);
        assert(all.take(i + 1) =~= all.take(i as int).push(item));
        proof {
            all.take(i as int).lemma_filter_push(item, pred);
        }
        if receipt_matches_exec(filters, &item) {
            kept.push(item);
        }
        assert(rest@ =~= all.subrange(i + 1, n as int));
        i = i + 1;
    }
    assert(all.take(n as int) =~= all);
    stable_sort(kept)
}

/// One recent run, as the provenance report shows it.
#[derive(Debug, Clone)]
pub struct ProvenanceRunSummary {
    pub id: String,
    pub timestamp: Timestamp,
    pub tool_digest: String,
    pub decision: String,
    pub reason: String,
    pub verification_status: VerificationStatus,
}

impl SortKey for ProvenanceRunSummary {
    /// Newer runs come first.
    open spec fn precedes(self, other: Self) -> bool {
        other.timestamp.before(self.timestamp)
    }

    proof fn lemma_precedes_irreflexive(a: Self) {
    }

    proof fn lemma_precedes_transitive(a: Self, b: Self, c: Self) {
    }

    proof fn lemma_precedes_chain(x: Self, a: Self, b: Self) {
    }

    fn precedes_exec(&self, other: &Self) -> (res: bool) {
        other.timestamp.is_before(&self.timestamp)
    }
}

/// The summary of an audit record.
pub open spec fn summary_of(r: AuditRecord) -> ProvenanceRunSummary {
    ProvenanceRunSummary {
        id: r.id,
        timestamp: r.timestamp,
        tool_digest: r.tool_digest,
        decision: r.decision,
        reason: r.reason,
        verification_status: r.verification_status,
    }
}

/// The summaries of the `last_n_runs` newest records, newest first; runs of
/// the same time keep their log order.
pub fn recent_runs(records: Vec<AuditRecord>, last_n_runs: usize) -> (res: Vec<
    ProvenanceRunSummary,
>)
    ensures
        exists|sorted: Seq<ProvenanceRunSummary>|
            is_stable_sort_of(sorted, records@.map_values(|r: AuditRecord| summary_of(r)))
                && res@ == sorted.take(
                if last_n_runs < sorted.len() {
                    last_n_runs as int
                } else {
                    sorted.len() as int
                },
            ),
{
    let ghost all = records@;
    let n = records.len();
    let mut rest = records;
    let mut summaries: Vec<ProvenanceRunSummary> = Vec::new();
    let mut i: usize = 0;
    while i < n
        invariant
            n == all.len(),
            i <= n,
            rest@ == all.subrange(i as int, n as int),
            summaries@ == all.take(i as int).map_values(|r: AuditRecord| summary_of(r)),
        decreases n - i,
    {
        let r = rest.remove(0);
        assert(r == all[i as int]);
        summaries.push(
            ProvenanceRunSummary {
                id: r.id,
                timestamp: r.timestamp,
                tool_digest: r.tool_digest,
                decision: r.decision,
                reason: r.reason,
                verification_status: r.verification_status,
            },
        );
        assert(all.take(i + 1).map_values(|r: AuditRecord| summary_of(r)) =~= all.take(
            i as int,
        ).map_values(|r: AuditRecord| summary_of(r)).push(summary_of(all[i as int])));
        assert(rest@ =~= all.subrange(i + 1, n as int));
        i = i + 1;
    }
    assert(all.take(n as int) =~= all);
    let ghost mapped = summaries@;
    let mut sorted = stable_sort(summaries);
    let ghost sorted_view = sorted@;
    if last_n_runs < sorted.len() {
        sorted.truncate(last_n_runs);
    }
    assert(is_stable_sort_of(sorted_view, mapped));
    assert(sorted@ =~= sorted_view.take(
        if last_n_runs < sorted_view.len() {
            last_n_runs as int
        } else {
            sorted_view.len() as int
        },
    ));
    sorted
}

/// A run counts toward the enforcement objective: it was allowed (with or
/// without warnings) and its provenance passed.
pub open spec fn run_compliant(r: AuditRecord) -> bool {
    "allow"@.is_prefix_of(r.decision@) && r.verification_status == VerificationStatus::Pass
}

/// The runs at or after the threshold, and how many of them are compliant.
pub open spec fn window_counts(records: Seq<AuditRecord>, threshold: Timestamp) -> (nat, nat)
    decreases records.len(),
{
    if records.len() == 0 {
        (0, 0)
    } else {
        let (t, c) = window_counts(records.drop_last(), threshold);
        let r = records.last();
        if r.timestamp.before(threshold) {
            (t, c)
        } else if run_compliant(r) {
            (t + 1, c + 1)
        } else {
            (t + 1, c)
        }
    }
}

proof fn lemma_window_counts_bounded(records: Seq<AuditRecord>, threshold: Timestamp)
    ensures
        window_counts(records, threshold).1 <= window_counts(records, threshold).0 <= records.len(),
    decreases records.len(),
{
    if records.len() > 0 {
        lemma_window_counts_bounded(records.drop_last(), threshold);
    }
}

/// How many records lie in the window that begins at the threshold, and
/// how many of those are compliant runs.
pub fn slo_counts(records: &Vec<AuditRecord>, threshold: Timestamp) -> (res: (usize, usize))
    ensures
        (res.0 as nat, res.1 as nat) == window_counts(records@, threshold),
{
    let n = records.len();
    let mut total: usize = 0;
    let mut compliant: usize = 0;
    let mut i: usize = 0;
    while i < n
        invariant
            n == records@.len(),
            i <= n,
            (total as nat, compliant as nat) == window_counts(records@.take(i as int), threshold),
        decreases n - i,
    {
        let r = &records[i];
        proof {
            assert(records@.take(i + 1).drop_last() =~= records@.take(i as int));
            lemma_window_counts_bounded(records@.take(i as int), threshold);
        }
        if !r.timestamp.is_before(&threshold) {
            total = total + 1;
            let allowed = starts_with(r.decision.as_str(), "allow");
            let passed = match r.verification_status {
                VerificationStatus::Pass => true,
                _ => false,
            };
            if allowed && passed {
                compliant = compliant + 1;
            }
        }
        i = i + 1;
    }
    assert(records@.take(n as int) =~= records@);
    (total, compliant)
}

/// The receipt list answers exactly the filters: every listed receipt is a
/// stored one whose decision and tool digest equal those asked for, where
/// they are; every stored receipt with that decision and digest is listed;
/// and the list runs from the newest receipt to the oldest.
pub proof fn law_receipt_list_matches_filters(
    items: Seq<ReceiptListItem>,
    filters: ReceiptFilters,
    listed: Seq<ReceiptListItem>,
)
    requires
        is_stable_sort_of(listed, filtered_receipts(items, filters)),
    ensures
        forall|k: int|
            0 <= k < listed.len() ==> items.contains(#[trigger] listed[k]) && (filters.decision matches Some(d)
                ==> listed[k].decision@ == d@) && (filters.tool_digest matches Some(t)
                ==> listed[k].tool_digest@ == t@),
        forall|i: int|
            0 <= i < items.len() && (filters.decision matches Some(d) ==> items[i].decision@ == d@)
                && (filters.tool_digest matches Some(t) ==> items[i].tool_digest@ == t@)
                ==> listed.contains(#[trigger] items[i]),
        forall|a: int, b: int|
            0 <= a < b < listed.len() ==> !(#[trigger] listed[a]).timestamp.before(
                (#[trigger] listed[b]).timestamp,
            ),
        listed.len() == items.filter(
            |x: ReceiptListItem|
                (filters.decision matches Some(d) ==> x.decision@ == d@) && (
                filters.tool_digest matches Some(t) ==> x.tool_digest@ == t@),
        ).len(),
{
    let pred = |i: ReceiptListItem| receipt_matches(filters, i);
    let explicit = |x: ReceiptListItem|
        (filters.decision matches Some(d) ==> x.decision@ == d@) && (filters.tool_digest matches Some(
            t,
        ) ==> x.tool_digest@ == t@);
    assert(pred =~= explicit);
    let filtered = items.filter(pred);
    assert(filtered == filtered_receipts(items, filters));
    crate::sort::lemma_stable_sort_items(listed, filtered);
    assert forall|k: int| 0 <= k < listed.len() implies items.contains(#[trigger] listed[k]) && (
    filters.decision matches Some(d) ==> listed[k].decision@ == d@) && (filters.tool_digest matches Some(
        t,
    ) ==> listed[k].tool_digest@ == t@) by {
        assert(filtered.contains(listed[k]));
        let j = choose|j: int| 0 <= j < filtered.len() && filtered[j] == listed[k];
        items.lemma_filter_pred(pred, j);
        items.lemma_filter_contains_rev(pred, listed[k]);
    }
    assert forall|i: int|
        0 <= i < items.len() && (filters.decision matches Some(d) ==> items[i].decision@ == d@)
            && (filters.tool_digest matches Some(t) ==> items[i].tool_digest@ == t@) implies listed.contains(
        #[trigger] items[i],
    ) by {
        assert(pred(items[i]));
        items.lemma_filter_contains(pred, i);
        let j = choose|j: int| 0 <= j < filtered.len() && filtered[j] == items[i];
        assert(listed.contains(filtered[j]));
    }
    let p = choose|p: Seq<int>| crate::sort::is_sort_witness(listed, filtered, p);
    assert forall|a: int, b: int| 0 <= a < b < listed.len() implies !(#[trigger] listed[a]).timestamp.before(
        (#[trigger] listed[b]).timestamp,
    ) by {
        assert(!listed[b].precedes(listed[a]));
    }
}

} // verus!
