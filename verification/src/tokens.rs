//! The token ledger's listings: its transactions and a worker's rewards,
//! newest first.

use crate::ordering::{is_stable_order, precedes, stable_order};
use vstd::prelude::*;

verus! {

broadcast use vstd::string::group_string_axioms;

/// `r` lists the `limit` newest of the records stamped `stamps` (all of
/// them where there are fewer), newest first, records of equal stamp in
/// their recorded order.
pub open spec fn is_newest_first(stamps: Seq<u64>, limit: usize, r: Seq<usize>) -> bool {
    &&& r.len() == (if limit < stamps.len() {
        limit as int
    } else {
        stamps.len() as int
    })
    &&& forall|p: int| 0 <= p < r.len() ==> (#[trigger] r[p]) < stamps.len()
    &&& forall|p: int, q: int|
        0 <= p < q < r.len() ==> precedes(stamps, true, #[trigger] r[p], #[trigger] r[q])
    &&& forall|p: int, i: usize|
        0 <= p < r.len() && i < stamps.len() && !r.contains(i) ==> #[trigger] precedes(
            stamps,
            true,
            r[p],
            i,
        )
}

/// The positions of the `limit` newest records stamped `timestamps`, newest
/// first (see `is_newest_first`).
pub fn newest_first(timestamps: &Vec<u64>, limit: usize) -> (r: Vec<usize>)
    ensures
        is_newest_first(timestamps@, limit, r@),
{
    let mut order = stable_order(timestamps, true);
    let ghost full = order@;
    order.truncate(limit);
    proof {
        assert(is_stable_order(timestamps@, true, full));
        assert forall|p: int, i: usize|
            0 <= p < order@.len() && i < timestamps@.len() && !order@.contains(i) implies #[trigger] precedes(
            timestamps@,
            true,
            order@[p],
            i,
        ) by {
            assert(full.contains(i));
            let q = choose|q: int| 0 <= q < full.len() && full[q] == i;
            if q < order@.len() {
                assert(order@[q] == i);
            }
            assert(full[p] == order@[p]);
        }
    }
    order
}

/// `r` lists, in order, the positions of `ids` that hold `id`.
pub open spec fn lists_matches(ids: Seq<String>, id: Seq<char>, r: Seq<usize>) -> bool {
    &&& forall|p: int| 0 <= p < r.len() ==> (#[trigger] r[p]) < ids.len() && ids[r[p] as int]@ == id
    &&& forall|p: int, q: int| 0 <= p < q < r.len() ==> (#[trigger] r[p]) < (#[trigger] r[q])
    &&& forall|j: usize| j < ids.len() && (#[trigger] ids[j as int])@ == id ==> r.contains(j)
}

/// The positions of `ids` that hold `id`, in order.
pub fn matching_positions(ids: &Vec<String>, id: &str) -> (r: Vec<usize>)
    ensures
        lists_matches(ids@, id@, r@),
{
    let target = id.to_string();
    let mut r: Vec<usize> = Vec::new();
    let mut j: usize = 0;
    while j < ids.len()
        invariant
            0 <= j <= ids.len(),
            target@ == id@,
            forall|p: int| 0 <= p < r.len() ==> (#[trigger] r@[p]) < j && ids@[r@[p] as int]@ == id@,
            forall|p: int, q: int| 0 <= p < q < r.len() ==> (#[trigger] r@[p]) < (#[trigger] r@[q]),
            forall|k: usize| k < j && (#[trigger] ids@[k as int])@ == id@ ==> r@.contains(k),
        decreases ids.len() - j,
    {
        let ghost before = r@;
        if ids[j] == target {
            r.push(j);
            assert(r@[r.len() - 1] == j);
        }
        assert forall|k: usize| before.contains(k) implies r@.contains(k) by {
            let w = choose|w: int| 0 <= w < before.len() && before[w] == k;
            assert(r@[w] == k);
        }
        j = j + 1;
    }
    r
}

} // verus!
