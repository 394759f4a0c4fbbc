//! A stable sort by key, with a specification that fixes its result: the
//! output is the input rearranged by a permutation, ordered by key, and
//! items with equal keys keep their input order.
use vstd::prelude::*;

verus! {

/// A strict order by some key of the item (a strict weak order: items with
/// equal keys are equivalent).
pub trait SortKey: Sized {
    /// `self` comes strictly before `other`.
    spec fn precedes(self, other: Self) -> bool;

    proof fn lemma_precedes_irreflexive(a: Self)
        ensures
            !a.precedes(a),
    ;

    proof fn lemma_precedes_transitive(a: Self, b: Self, c: Self)
        requires
            a.precedes(b),
            b.precedes(c),
        ensures
            a.precedes(c),
    ;

    /// Where `x` comes before `a`, and `b` does not come before `a`, then `x`
    /// comes before `b`.
    proof fn lemma_precedes_chain(x: Self, a: Self, b: Self)
        requires
            x.precedes(a),
            !b.precedes(a),
        ensures
            x.precedes(b),
    ;

    /// Decides `precedes`.
    fn precedes_exec(&self, other: &Self) -> (res: bool)
        ensures
            res == self.precedes(*other),
    ;
}

/// Some position of `p` holds `k`.
pub open spec fn covers(p: Seq<int>, k: int) -> bool {
    exists|i: int| 0 <= i < p.len() && p[i] == k
}

/// `p` takes the positions of `out` to the positions of `inp` one for one,
/// `out` is ordered, and equivalent items keep their input order.
pub open spec fn is_sort_witness<T: SortKey>(out: Seq<T>, inp: Seq<T>, p: Seq<int>) -> bool {
    &&& out.len() == inp.len()
    &&& p.len() == inp.len()
    &&& forall|i: int| 0 <= i < out.len() ==> 0 <= #[trigger] p[i] < inp.len() && out[i] == inp[p[i]]
    &&& forall|i: int, j: int| 0 <= i < j < out.len() ==> #[trigger] p[i] != #[trigger] p[j]
    &&& forall|k: int| 0 <= k < inp.len() ==> #[trigger] covers(p, k)
    &&& forall|i: int, j: int|
        0 <= i < j < out.len() ==> !(#[trigger] out[j]).precedes(#[trigger] out[i])
    &&& forall|i: int, j: int|
        0 <= i < j < out.len() && !(#[trigger] out[i]).precedes(#[trigger] out[j]) ==> p[i] < p[j]
}

/// `out` is the stable sort of `inp`.
pub open spec fn is_stable_sort_of<T: SortKey>(out: Seq<T>, inp: Seq<T>) -> bool {
    exists|p: Seq<int>| is_sort_witness(out, inp, p)
}

/// Every item of a stable sort comes from the input, and every input item
/// turns up in it.
pub proof fn lemma_stable_sort_items<T: SortKey>(out: Seq<T>, inp: Seq<T>)
    requires
        is_stable_sort_of(out, inp),
    ensures
        out.len() == inp.len(),
        forall|i: int| 0 <= i < out.len() ==> inp.contains(#[trigger] out[i]),
        forall|k: int| 0 <= k < inp.len() ==> out.contains(#[trigger] inp[k]),
{
    let p = choose|p: Seq<int>| is_sort_witness(out, inp, p);
    assert forall|i: int| 0 <= i < out.len() implies inp.contains(#[trigger] out[i]) by {
        assert(0 <= p[i] < inp.len() && out[i] == inp[p[i]]);
    }
    assert forall|k: int| 0 <= k < inp.len() implies out.contains(#[trigger] inp[k]) by {
        assert(covers(p, k));
        let i = choose|i: int| 0 <= i < p.len() && p[i] == k;
        assert(out[i] == inp[p[i]]);
    }
}

/// Sorts stably by key (insertion sort), as `slice::sort_by` does for a
/// comparator that compares the keys.
pub fn stable_sort<T: SortKey>(v: Vec<T>) -> (out: Vec<T>)
    ensures
        is_stable_sort_of(out@, v@),
{
    let ghost inp = v@;
    let n = v.len();
    let mut rest = v;
    let mut out: Vec<T> = Vec::new();
    let ghost mut p: Seq<int> = Seq::empty();
    let mut k: usize = 0;
    while k < n
        invariant
            n == inp.len(),
            k <= n,
            rest@ == inp.subrange(k as int, n as int),
            is_sort_witness(out@, inp.subrange(0, k as int), p),
        decreases n - k,
    {
        let x = rest.remove(0);
        assert(x == inp[k as int]);
        // the first position whose item comes after `x`
        let mut pos: usize = 0;
        let len = out.len();
        while pos < len && !x.precedes_exec(&out[pos])
            invariant
                len == out@.len(),
                pos <= len,
                forall|i: int| 0 <= i < pos ==> !x.precedes(#[trigger] out@[i]),
            decreases len - pos,
        {
            pos = pos + 1;
        }
        let ghost old_out = out@;
        let ghost old_p = p;
        let ghost pre = inp.subrange(0, k as int);
        let ghost post = inp.subrange(0, k + 1);
        assert(post =~= pre.push(x));
        out.insert(pos, x);
        proof {
            p = old_p.insert(pos as int, k as int);
            // items from `pos` on come after `x`
            assert forall|j: int| pos <= j < len implies x.precedes(#[trigger] old_out[j]) by {
                if j > pos {
                    T::lemma_precedes_chain(x, old_out[pos as int], old_out[j]);
                }
            }
            assert(out@ == old_out.insert(pos as int, x));
            assert forall|i: int| 0 <= i < out@.len() implies 0 <= #[trigger] p[i] < post.len()
                && out@[i] == post[p[i]] by {
                if i < pos {
                    assert(out@[i] == old_out[i]);
                    assert(p[i] == old_p[i]);
                } else if i == pos {
                } else {
                    assert(out@[i] == old_out[i - 1]);
                    assert(p[i] == old_p[i - 1]);
                }
            }
            assert forall|i: int, j: int| 0 <= i < j < out@.len() implies #[trigger] p[i]
                != #[trigger] p[j] by {
                if i < pos && j < pos {
                    assert(old_p[i] != old_p[j]);
                } else if i < pos && j > pos {
                    assert(old_p[i] != old_p[j - 1]);
                } else if i > pos && j > pos {
                    assert(old_p[i - 1] != old_p[j - 1]);
                } else if i == pos {
                    assert(0 <= old_p[j - 1] < k);
                } else {
                    assert(0 <= old_p[i] < k);
                }
            }
            assert forall|m: int| 0 <= m < post.len() implies #[trigger] covers(p, m) by {
                if m == k {
                    assert(p[pos as int] == m);
                } else {
                    assert(covers(old_p, m));
                    let i0 = choose|i: int| 0 <= i < old_p.len() && old_p[i] == m;
                    if i0 < pos {
                        assert(p[i0] == m);
                    } else {
                        assert(p[i0 + 1] == m);
                    }
                }
            }
            assert forall|i: int, j: int| 0 <= i < j < out@.len() implies !(#[trigger] out@[j]).precedes(
                #[trigger] out@[i],
            ) by {
                if i < pos && j < pos {
                    assert(!old_out[j].precedes(old_out[i]));
                } else if i < pos && j == pos {
                } else if i < pos && j > pos {
                    assert(!old_out[j - 1].precedes(old_out[i]));
                } else if i == pos {
                    assert(x.precedes(old_out[j - 1]));
                    if old_out[j - 1].precedes(x) {
                        T::lemma_precedes_transitive(x, old_out[j - 1], x);
                        T::lemma_precedes_irreflexive(x);
                    }
                } else {
                    assert(!old_out[j - 1].precedes(old_out[i - 1]));
                }
            }
            assert forall|i: int, j: int| 0 <= i < j < out@.len() && !(#[trigger] out@[i]).precedes(
                #[trigger] out@[j],
            ) implies p[i] < p[j] by {
                if i < pos && j < pos {
                    assert(old_p[i] < old_p[j]);
                } else if i < pos && j == pos {
                    assert(0 <= old_p[i] < k);
                } else if i < pos && j > pos {
                    assert(old_p[i] < old_p[j - 1]);
                } else if i == pos {
                    assert(x.precedes(old_out[j - 1]));
                } else {
                    assert(old_p[i - 1] < old_p[j - 1]);
                }
            }
            assert(rest@ =~= inp.subrange(k + 1, n as int));
        }
        k = k + 1;
    }
    assert(inp.subrange(0, n as int) =~= inp);
    out
}

/// Taking the last input item out of a sort leaves a sort of the rest.
proof fn lemma_witness_remove_last<T: SortKey>(out: Seq<T>, inp: Seq<T>, p: Seq<int>, k: int)
    requires
        is_sort_witness(out, inp, p),
        inp.len() > 0,
        0 <= k < p.len(),
        p[k] == inp.len() - 1,
    ensures
        is_sort_witness(out.remove(k), inp.drop_last(), p.remove(k)),
{
    let n = inp.len();
    let o2 = out.remove(k);
    let p2 = p.remove(k);
    let i2 = inp.drop_last();
    assert forall|i: int| 0 <= i < o2.len() implies 0 <= #[trigger] p2[i] < i2.len() && o2[i] == i2[p2[i]] by {
        let src = if i < k { i } else { i + 1 };
        assert(p2[i] == p[src] && o2[i] == out[src]);
        if src < k {
            assert(p[src] != p[k]);
        } else {
            assert(p[k] != p[src]);
        }
    }
    assert forall|i: int, j: int| 0 <= i < j < o2.len() implies #[trigger] p2[i] != #[trigger] p2[j] by {
        let si = if i < k { i } else { i + 1 };
        let sj = if j < k { j } else { j + 1 };
        assert(p2[i] == p[si] && p2[j] == p[sj]);
        assert(si < sj);
    }
    assert forall|m: int| 0 <= m < i2.len() implies #[trigger] covers(p2, m) by {
        assert(covers(p, m));
        let i = choose|i: int| 0 <= i < p.len() && p[i] == m;
        assert(i != k);
        if i < k {
            assert(p2[i] == m);
        } else {
            assert(p2[i - 1] == m);
        }
    }
    assert forall|i: int, j: int| 0 <= i < j < o2.len() implies !(#[trigger] o2[j]).precedes(
        #[trigger] o2[i],
    ) by {
        let si = if i < k { i } else { i + 1 };
        let sj = if j < k { j } else { j + 1 };
        assert(o2[i] == out[si] && o2[j] == out[sj]);
    }
    assert forall|i: int, j: int| 0 <= i < j < o2.len() && !(#[trigger] o2[i]).precedes(
        #[trigger] o2[j],
    ) implies p2[i] < p2[j] by {
        let si = if i < k { i } else { i + 1 };
        let sj = if j < k { j } else { j + 1 };
        assert(o2[i] == out[si] && o2[j] == out[sj]);
        assert(p2[i] == p[si] && p2[j] == p[sj]);
    }
}

/// Where the last input item sits in a sort: every item before it is not
/// preceded by it, every item after it is.
proof fn lemma_last_item_position<T: SortKey>(out: Seq<T>, inp: Seq<T>, p: Seq<int>, k: int)
    requires
        is_sort_witness(out, inp, p),
        inp.len() > 0,
        0 <= k < p.len(),
        p[k] == inp.len() - 1,
    ensures
        out[k] == inp.last(),
        forall|i: int| 0 <= i < k ==> !inp.last().precedes(#[trigger] out[i]),
        forall|i: int| k < i < out.len() ==> inp.last().precedes(#[trigger] out[i]),
{
    assert forall|i: int| k < i < out.len() implies inp.last().precedes(#[trigger] out[i]) by {
        assert(0 <= p[i] < inp.len());
        assert(p[k] != p[i]);
        if !out[k].precedes(out[i]) {
            assert(p[k] < p[i]);
        }
    }
}

/// A stable sort is unique: two stable sorts of the same input are equal.
pub proof fn lemma_stable_sort_unique<T: SortKey>(a: Seq<T>, b: Seq<T>, inp: Seq<T>)
    requires
        is_stable_sort_of(a, inp),
        is_stable_sort_of(b, inp),
    ensures
        a == b,
    decreases inp.len(),
{
    let p = choose|p: Seq<int>| is_sort_witness(a, inp, p);
    let q = choose|q: Seq<int>| is_sort_witness(b, inp, q);
    let n = inp.len();
    if n == 0 {
        assert(a =~= b);
    } else {
        assert(covers(p, n - 1));
        assert(covers(q, n - 1));
        let ka = choose|i: int| 0 <= i < p.len() && p[i] == n - 1;
        let kb = choose|i: int| 0 <= i < q.len() && q[i] == n - 1;
        lemma_witness_remove_last(a, inp, p, ka);
        lemma_witness_remove_last(b, inp, q, kb);
        let a2 = a.remove(ka);
        let b2 = b.remove(kb);
        assert(is_sort_witness(a2, inp.drop_last(), p.remove(ka)));
        assert(is_sort_witness(b2, inp.drop_last(), q.remove(kb)));
        lemma_stable_sort_unique(a2, b2, inp.drop_last());
        lemma_last_item_position(a, inp, p, ka);
        lemma_last_item_position(b, inp, q, kb);
        let x = inp.last();
        if ka < kb {
            // position `ka` of the rest is after `x` in `a` and before it in `b`
            assert(a2[ka] == a[ka + 1]);
            assert(b2[ka] == b[ka]);
            assert(x.precedes(a[ka + 1]));
            assert(!x.precedes(b[ka]));
        } else if kb < ka {
            assert(b2[kb] == b[kb + 1]);
            assert(a2[kb] == a[kb]);
            assert(x.precedes(b[kb + 1]));
            assert(!x.precedes(a[kb]));
        }
        assert(a =~= a2.insert(ka, x));
        assert(b =~= b2.insert(kb, x));
    }
}

/// Appending an item that comes after every input item appends it to the sort.
pub proof fn lemma_stable_sort_push_greatest<T: SortKey>(s: Seq<T>, inp: Seq<T>, x: T)
    requires
        is_stable_sort_of(s, inp),
        forall|m: int| 0 <= m < inp.len() ==> (#[trigger] inp[m]).precedes(x),
    ensures
        is_stable_sort_of(s.push(x), inp.push(x)),
{
    let p = choose|p: Seq<int>| is_sort_witness(s, inp, p);
    let n = inp.len();
    let p2 = p.push(n as int);
    let s2 = s.push(x);
    let i2 = inp.push(x);
    assert forall|i: int| 0 <= i < s2.len() implies 0 <= #[trigger] p2[i] < i2.len() && s2[i] == i2[p2[i]] by {
        if i < n {
            assert(p2[i] == p[i]);
        }
    }
    assert forall|i: int, j: int| 0 <= i < j < s2.len() implies #[trigger] p2[i] != #[trigger] p2[j] by {
        if j < n {
            assert(p[i] != p[j]);
        } else {
            assert(p[i] < n);
        }
    }
    assert forall|m: int| 0 <= m < i2.len() implies #[trigger] covers(p2, m) by {
        if m == n {
            assert(p2[n as int] == m);
        } else {
            assert(covers(p, m));
            let i = choose|i: int| 0 <= i < p.len() && p[i] == m;
            assert(p2[i] == m);
        }
    }
    assert forall|i: int, j: int| 0 <= i < j < s2.len() implies !(#[trigger] s2[j]).precedes(
        #[trigger] s2[i],
    ) by {
        if j == n {
            assert(s[i] == inp[p[i]]);
            assert(inp[p[i]].precedes(x));
            if x.precedes(s[i]) {
                T::lemma_precedes_transitive(x, s[i], x);
                T::lemma_precedes_irreflexive(x);
            }
        } else {
            assert(s2[i] == s[i] && s2[j] == s[j]);
        }
    }
    assert forall|i: int, j: int| 0 <= i < j < s2.len() && !(#[trigger] s2[i]).precedes(
        #[trigger] s2[j],
    ) implies p2[i] < p2[j] by {
        if j == n {
            assert(s[i] == inp[p[i]]);
            assert(inp[p[i]].precedes(x));
        } else {
            assert(s2[i] == s[i] && s2[j] == s[j]);
        }
    }
    assert(is_sort_witness(s2, i2, p2));
}

} // verus!
