//! Adaptive chunking of a Monte-Carlo π job: how big a chunk a worker gets,
//! how the remaining points are cut into chunks, and the bounded histories
//! that the pacing is computed from.

use vstd::prelude::*;

verus! {

/// A chunk size within the configured bounds: `scaled_size` raised to
/// `min_chunk_size`, then cut to `max_chunk_size` and to the points that
/// remain; `min_chunk_size` itself where adaptive chunking is disabled.
pub open spec fn spec_bounded_chunk_size(
    enabled: bool,
    scaled_size: u64,
    min_chunk_size: u64,
    max_chunk_size: u64,
    remaining_points: u64,
) -> u64 {
    if !enabled {
        min_chunk_size
    } else {
        let a = if scaled_size > min_chunk_size {
            scaled_size
        } else {
            min_chunk_size
        };
        let b = if a < max_chunk_size {
            a
        } else {
            max_chunk_size
        };
        if b < remaining_points {
            b
        } else {
            remaining_points
        }
    }
}

/// The chunk size for a worker whose pace-based size is `scaled_size` (see
/// `spec_bounded_chunk_size`).
pub fn bounded_chunk_size(
    enabled: bool,
    scaled_size: u64,
    min_chunk_size: u64,
    max_chunk_size: u64,
    remaining_points: u64,
) -> (size: u64)
    ensures
        size == spec_bounded_chunk_size(
            enabled,
            scaled_size,
            min_chunk_size,
            max_chunk_size,
            remaining_points,
        ),
{
    if !enabled {
        return min_chunk_size;
    }
    let mut size = scaled_size;
    if size < min_chunk_size {
        size = min_chunk_size;
    }
    if size > max_chunk_size {
        size = max_chunk_size;
    }
    if size > remaining_points {
        size = remaining_points;
    }
    size
}

/// A run of points `start_point..end_point` handed out as one chunk.
#[derive(Clone, Copy, Debug)]
pub struct ChunkRange {
    pub chunk_id: u64,
    pub start_point: u64,
    pub end_point: u64,
}

/// `ranges` cut the points `0..end` into consecutive, non-empty chunks
/// numbered from `first_id` on.
pub open spec fn tiles_up_to(ranges: Seq<ChunkRange>, end: u64, first_id: u64) -> bool {
    &&& (ranges.len() == 0 <==> end == 0)
    &&& ranges.len() > 0 ==> ranges[0].start_point == 0 && ranges.last().end_point == end
    &&& forall|j: int|
        0 <= j < ranges.len() ==> (#[trigger] ranges[j]).start_point < ranges[j].end_point
            && ranges[j].chunk_id == first_id + j
    &&& forall|j: int|
        0 <= j < ranges.len() - 1 ==> (#[trigger] ranges[j]).end_point == ranges[j + 1].start_point
}

/// `ranges` cut the points `0..total` into consecutive, non-empty chunks
/// numbered from `first_id` on.
pub open spec fn tiles(ranges: Seq<ChunkRange>, total: u64, first_id: u64) -> bool {
    tiles_up_to(ranges, total, first_id)
}

/// `s` is a chunk size that `f` may answer for `left` points left.
pub open spec fn size_answer<F: Fn(u64) -> u64>(f: F, left: u64, s: u64) -> bool {
    f.ensures((left,), s)
}

/// `r` is as long as `f` answered `s` for the points left of `total` at
/// its start, and at most that many.
pub open spec fn cut_with<F: Fn(u64) -> u64>(f: F, r: ChunkRange, total: u64, s: u64) -> bool {
    let left = (total - r.start_point) as u64;
    &&& size_answer(f, left, s)
    &&& r.end_point - r.start_point == if s < left {
        s as int
    } else {
        left as int
    }
}

/// `r` is as long as `f` answers for the points left of `total` at its
/// start, and at most that many.
pub open spec fn cut_by<F: Fn(u64) -> u64>(f: F, r: ChunkRange, total: u64) -> bool {
    exists|s: u64| #[trigger] cut_with(f, r, total, s)
}

/// Cuts the points `0..remaining_points` into chunks numbered from
/// `first_chunk_id` on; each chunk is as long as `chunk_size_for` says for
/// the points still left when it is cut, and at most that many. `None`
/// where a chunk would have to be numbered `u64::MAX`, past which no number
/// is left for the chunk after it: the chunks cut until then, numbered up to
/// `u64::MAX - 1`, leave points over.
pub fn plan_chunk_ranges<F: Fn(u64) -> u64>(
    remaining_points: u64,
    first_chunk_id: u64,
    chunk_size_for: F,
) -> (r: Option<Vec<ChunkRange>>)
    requires
        forall|left: u64| 0 < left ==> chunk_size_for.requires((left,)),
        forall|left: u64, s: u64| 0 < left && chunk_size_for.ensures((left,), s) ==> s >= 1,
    ensures
        r matches Some(ranges) ==> {
            &&& tiles(ranges@, remaining_points, first_chunk_id)
            &&& first_chunk_id + ranges@.len() <= u64::MAX
            &&& forall|j: int|
                0 <= j < ranges@.len() ==> cut_by(chunk_size_for, #[trigger] ranges@[j], remaining_points)
        },
        r is None ==> exists|cut: Seq<ChunkRange>, end: u64|
            #![trigger tiles_up_to(cut, end, first_chunk_id)]
            {
                &&& tiles_up_to(cut, end, first_chunk_id)
                &&& end < remaining_points
                &&& cut.len() == u64::MAX - first_chunk_id
                &&& forall|j: int|
                    0 <= j < cut.len() ==> cut_by(chunk_size_for, #[trigger] cut[j], remaining_points)
            },
{
    let mut ranges: Vec<ChunkRange> = Vec::new();
    let mut current: u64 = 0;
    let mut id: u64 = first_chunk_id;
    while current < remaining_points
        invariant
            current <= remaining_points,
            forall|left: u64| 0 < left ==> chunk_size_for.requires((left,)),
            forall|left: u64, s: u64| 0 < left && chunk_size_for.ensures((left,), s) ==> s >= 1,
            id == first_chunk_id + ranges@.len(),
            tiles_up_to(ranges@, current, first_chunk_id),
            forall|j: int|
                0 <= j < ranges@.len() ==> cut_by(chunk_size_for, #[trigger] ranges@[j], remaining_points),
        decreases remaining_points - current,
    {
        if id == u64::MAX {
            assert(tiles_up_to(ranges@, current, first_chunk_id));
            return None;
        }
        let left = remaining_points - current;
        let size = chunk_size_for(left);
        let end = if size >= left {
            remaining_points
        } else {
            current + size
        };
        let ghost before = ranges@;
        ranges.push(ChunkRange { chunk_id: id, start_point: current, end_point: end });
        proof {
            assert forall|j: int| 0 <= j < ranges@.len() implies cut_by(chunk_size_for, #[trigger] ranges@[j], remaining_points) by {
                if j < before.len() {
                    assert(ranges@[j] == before[j]);
                } else {
                    assert(cut_with(chunk_size_for, ranges@[j], remaining_points, size));
                }
            }
            assert forall|j: int| 0 <= j < ranges@.len() - 1 implies (#[trigger] ranges@[j]).end_point == ranges@[j + 1].start_point by {
                if j + 1 < before.len() {
                    assert(ranges@[j] == before[j]);
                    assert(ranges@[j + 1] == before[j + 1]);
                } else {
                    assert(ranges@[j] == before.last());
                }
            }
        }
        current = end;
        id = id + 1;
    }
    Some(ranges)
}

/// `history` after `item` is appended and, where that makes it longer than
/// `limit`, its oldest entry dropped.
pub open spec fn pushed_bounded<T>(history: Seq<T>, item: T, limit: usize) -> Seq<T> {
    if history.len() + 1 > limit {
        history.push(item).drop_first()
    } else {
        history.push(item)
    }
}

/// Appends `item` to a history kept to `limit` entries, dropping the oldest
/// entry where the history grows past it.
pub fn push_bounded<T>(history: &mut Vec<T>, item: T, limit: usize)
    ensures
        final(history)@ == pushed_bounded(old(history)@, item, limit),
{
    history.push(item);
    if history.len() > limit {
        history.remove(0);
        proof {
            assert(history@ =~= old(history)@.push(item).drop_first());
        }
    }
}

} // verus!
