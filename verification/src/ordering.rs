//! Stable ordering of records by a numeric key, as the scheduler's listings
//! need it: pixels by index, transactions and rewards newest first.

use vstd::prelude::*;

verus! {

/// Position `i` comes before position `j` when records are ordered by
/// `keys` (ascending, or descending), equal keys keeping their positions'
/// order.
pub open spec fn precedes(keys: Seq<u64>, descending: bool, i: usize, j: usize) -> bool {
    if keys[i as int] == keys[j as int] {
        i < j
    } else if descending {
        keys[i as int] > keys[j as int]
    } else {
        keys[i as int] < keys[j as int]
    }
}

/// `order` lists every position of `keys` once, in increasing order of
/// `precedes`: the result of a stable sort by key.
pub open spec fn is_stable_order(keys: Seq<u64>, descending: bool, order: Seq<usize>) -> bool {
    &&& order.len() == keys.len()
    &&& forall|p: int| 0 <= p < order.len() ==> (#[trigger] order[p]) < keys.len()
    &&& forall|i: usize| i < keys.len() ==> #[trigger] order.contains(i)
    &&& forall|p: int, q: int|
        0 <= p < q < order.len() ==> precedes(keys, descending, #[trigger] order[p], #[trigger] order[q])
}

proof fn lemma_precedes_transitive(keys: Seq<u64>, descending: bool, a: usize, b: usize, c: usize)
    requires
        a < keys.len(),
        b < keys.len(),
        c < keys.len(),
        precedes(keys, descending, a, b),
        precedes(keys, descending, b, c),
    ensures
        precedes(keys, descending, a, c),
{
}

/// The positions `lo..hi` of `keys`, each once, in increasing order of
/// `precedes`.
pub open spec fn is_sorted_range(
    keys: Seq<u64>,
    descending: bool,
    lo: usize,
    hi: usize,
    order: Seq<usize>,
) -> bool {
    &&& order.len() == hi - lo
    &&& forall|p: int| 0 <= p < order.len() ==> lo <= #[trigger] order[p] < hi
    &&& forall|i: usize| lo <= i < hi ==> #[trigger] order.contains(i)
    &&& forall|p: int, q: int|
        0 <= p < q < order.len() ==> precedes(keys, descending, #[trigger] order[p], #[trigger] order[q])
}

fn precedes_exec(keys: &Vec<u64>, descending: bool, i: usize, j: usize) -> (r: bool)
    requires
        i < keys.len(),
        j < keys.len(),
    ensures
        r == precedes(keys@, descending, i, j),
{
    if keys[i] == keys[j] {
        i < j
    } else if descending {
        keys[i] > keys[j]
    } else {
        keys[i] < keys[j]
    }
}

fn merge(keys: &Vec<u64>, descending: bool, lo: usize, mid: usize, hi: usize, a: Vec<usize>, b: Vec<usize>) -> (out: Vec<usize>)
    requires
        lo <= mid <= hi <= keys.len(),
        is_sorted_range(keys@, descending, lo, mid, a@),
        is_sorted_range(keys@, descending, mid, hi, b@),
    ensures
        is_sorted_range(keys@, descending, lo, hi, out@),
{
    let mut out: Vec<usize> = Vec::new();
    let mut i: usize = 0;
    let mut j: usize = 0;
    while i < a.len() || j < b.len()
        invariant
            lo <= mid <= hi <= keys.len(),
            is_sorted_range(keys@, descending, lo, mid, a@),
            is_sorted_range(keys@, descending, mid, hi, b@),
            0 <= i <= a.len(),
            0 <= j <= b.len(),
            out.len() == i + j,
            forall|p: int| 0 <= p < out.len() ==> lo <= #[trigger] out@[p] < hi,
            forall|x: int| 0 <= x < i ==> out@.contains(#[trigger] a@[x]),
            forall|y: int| 0 <= y < j ==> out@.contains(#[trigger] b@[y]),
            forall|p: int, q: int|
                0 <= p < q < out.len() ==> precedes(keys@, descending, #[trigger] out@[p], #[trigger] out@[q]),
            forall|p: int|
                0 <= p < out.len() && i < a.len() ==> precedes(keys@, descending, #[trigger] out@[p], a@[i as int]),
            forall|p: int|
                0 <= p < out.len() && j < b.len() ==> precedes(keys@, descending, #[trigger] out@[p], b@[j as int]),
        decreases a.len() + b.len() - i - j,
    {
        let ghost before = out@;
        let take_a = if i < a.len() && j < b.len() {
            precedes_exec(keys, descending, a[i], b[j])
        } else {
            i < a.len()
        };
        let x = if take_a { a[i] } else { b[j] };
        proof {
            if take_a && j < b.len() {
                assert(precedes(keys@, descending, x, b@[j as int]));
            }
            if !take_a && i < a.len() {
                // b[j] comes before a[i]: the keys differ or b's position is lower
                assert(a@[i as int] < mid <= b@[j as int]);
                assert(precedes(keys@, descending, x, a@[i as int]));
            }
        }
        out.push(x);
        if take_a {
            i = i + 1;
        } else {
            j = j + 1;
        }
        proof {
            assert(out@[out.len() - 1] == x);
            assert forall|z: usize| before.contains(z) implies out@.contains(z) by {
                let w = choose|w: int| 0 <= w < before.len() && before[w] == z;
                assert(out@[w] == z);
            }
            assert forall|p: int| 0 <= p < out.len() && i < a.len() implies precedes(
                keys@,
                descending,
                #[trigger] out@[p],
                a@[i as int],
            ) by {
                if take_a {
                    assert(precedes(keys@, descending, a@[i - 1], a@[i as int]));
                    if p < out.len() - 1 {
                        lemma_precedes_transitive(keys@, descending, out@[p], a@[i - 1], a@[i as int]);
                    }
                }
            }
            assert forall|p: int| 0 <= p < out.len() && j < b.len() implies precedes(
                keys@,
                descending,
                #[trigger] out@[p],
                b@[j as int],
            ) by {
                if !take_a {
                    assert(precedes(keys@, descending, b@[j - 1], b@[j as int]));
                    if p < out.len() - 1 {
                        lemma_precedes_transitive(keys@, descending, out@[p], b@[j - 1], b@[j as int]);
                    }
                }
            }
        }
    }
    proof {
        assert forall|k: usize| lo <= k < hi implies #[trigger] out@.contains(k) by {
            if k < mid {
                assert(a@.contains(k));
                let w = choose|w: int| 0 <= w < a.len() && a@[w] == k;
                assert(out@.contains(a@[w]));
            } else {
                assert(b@.contains(k));
                let w = choose|w: int| 0 <= w < b.len() && b@[w] == k;
                assert(out@.contains(b@[w]));
            }
        }
    }
    out
}

fn sort_range(keys: &Vec<u64>, descending: bool, lo: usize, hi: usize) -> (out: Vec<usize>)
    requires
        lo <= hi <= keys.len(),
    ensures
        is_sorted_range(keys@, descending, lo, hi, out@),
    decreases hi - lo,
{
    if hi - lo == 0 {
        let out: Vec<usize> = Vec::new();
        return out;
    }
    if hi - lo == 1 {
        let mut out: Vec<usize> = Vec::new();
        out.push(lo);
        proof {
            assert forall|k: usize| lo <= k < hi implies #[trigger] out@.contains(k) by {
                assert(out@[0] == k);
            }
        }
        return out;
    }
    let mid = lo + (hi - lo) / 2;
    let a = sort_range(keys, descending, lo, mid);
    let b = sort_range(keys, descending, mid, hi);
    merge(keys, descending, lo, mid, hi, a, b)
}

/// The positions of `keys` in the order of a stable sort by key, ascending
/// or descending.
pub fn stable_order(keys: &Vec<u64>, descending: bool) -> (order: Vec<usize>)
    ensures
        is_stable_order(keys@, descending, order@),
{
    sort_range(keys, descending, 0, keys.len())
}

} // verus!
