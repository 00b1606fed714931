//! The worker's side of the protocol: what a handed-out chunk asks it to
//! do, how chunk parameters and results travel as bytes, and how a rendered
//! Mandelbrot row is laid out.

use crate::job::{is_mandelbrot_task, is_pi_task, mandelbrot_task, pi_task, MandelPixel};
use vstd::bytes::{
    spec_u32_from_le_bytes, spec_u32_to_le_bytes, spec_u64_from_le_bytes, spec_u64_to_le_bytes,
    u32_from_le_bytes, u32_to_le_bytes, u64_from_le_bytes, u64_to_le_bytes,
};
use vstd::prelude::*;
use vstd::slice::slice_subrange;
use vstd::string::StrSliceExecFns;

verus! {

/// Points sampled by a π chunk whose parameters carry no count.
pub const DEFAULT_PI_CHUNK_POINTS: u64 = 1000;

/// The points a π chunk asks for: the little-endian count in its first
/// eight bytes, or `DEFAULT_PI_CHUNK_POINTS` where there are fewer.
pub open spec fn pi_chunk_points(data: Seq<u8>) -> u64 {
    if data.len() >= 8 {
        spec_u64_from_le_bytes(data.subrange(0, 8))
    } else {
        DEFAULT_PI_CHUNK_POINTS
    }
}

/// The row and resolution a Mandelbrot chunk asks for: two little-endian
/// 32-bit numbers; `None` where there are fewer than eight bytes.
pub open spec fn mandelbrot_chunk_params(data: Seq<u8>) -> Option<(u32, u32)> {
    if data.len() >= 8 {
        Some((spec_u32_from_le_bytes(data.subrange(0, 4)), spec_u32_from_le_bytes(data.subrange(4, 8))))
    } else {
        None
    }
}

/// The parameters of a π chunk: its point count.
pub fn encode_pi_chunk(points: u64) -> (data: Vec<u8>)
    ensures
        data@ == spec_u64_to_le_bytes(points),
{
    u64_to_le_bytes(points)
}

/// The parameters of a Mandelbrot chunk: its row, then the resolution.
pub fn encode_mandelbrot_chunk(row_index: u32, resolution: u32) -> (data: Vec<u8>)
    ensures
        data@ == spec_u32_to_le_bytes(row_index) + spec_u32_to_le_bytes(resolution),
{
    let mut data = u32_to_le_bytes(row_index);
    let mut tail = u32_to_le_bytes(resolution);
    data.append(&mut tail);
    data
}

/// Reads the point count of a π chunk (see `pi_chunk_points`).
pub fn parse_pi_chunk(chunk_data: &[u8]) -> (points: u64)
    ensures
        points == pi_chunk_points(chunk_data@),
{
    if chunk_data.len() >= 8 {
        u64_from_le_bytes(slice_subrange(chunk_data, 0, 8))
    } else {
        DEFAULT_PI_CHUNK_POINTS
    }
}

/// Reads the row and resolution of a Mandelbrot chunk (see
/// `mandelbrot_chunk_params`).
pub fn parse_mandelbrot_chunk(chunk_data: &[u8]) -> (params: Option<(u32, u32)>)
    ensures
        params == mandelbrot_chunk_params(chunk_data@),
{
    if chunk_data.len() >= 8 {
        let row = u32_from_le_bytes(slice_subrange(chunk_data, 0, 4));
        let resolution = u32_from_le_bytes(slice_subrange(chunk_data, 4, 8));
        Some((row, resolution))
    } else {
        None
    }
}

/// The count of points inside the circle that a π computation returns: the
/// little-endian number in its first eight bytes.
pub fn decode_pi_result(result: &[u8]) -> (count: u64)
    requires
        result@.len() >= 8,
    ensures
        count == spec_u64_from_le_bytes(result@.subrange(0, 8)),
{
    u64_from_le_bytes(slice_subrange(result, 0, 8))
}

/// How many of the draws in `outcomes` landed inside the circle.
pub open spec fn inside_count(outcomes: Seq<bool>) -> nat
    decreases outcomes.len(),
{
    if outcomes.len() == 0 {
        0
    } else {
        inside_count(outcomes.drop_last()) + if outcomes.last() {
            1nat
        } else {
            0nat
        }
    }
}

/// No more draws land inside than were drawn.
pub proof fn lemma_inside_count_bounded(outcomes: Seq<bool>)
    ensures
        inside_count(outcomes) <= outcomes.len(),
    decreases outcomes.len(),
{
    if outcomes.len() > 0 {
        lemma_inside_count_bounded(outcomes.drop_last());
    }
}

/// `count` is how many of `n` draws of `lands_inside` landed inside: some
/// `n` answers that `lands_inside` may give hold exactly `count` landings.
pub open spec fn sampled_count<S: Fn() -> bool>(lands_inside: S, n: nat, count: nat) -> bool {
    exists|outcomes: Seq<bool>|
        #![trigger inside_count(outcomes)]
        outcomes.len() == n && (forall|i: int|
            0 <= i < n ==> lands_inside.ensures((), #[trigger] outcomes[i])) && count
            == inside_count(outcomes)
}

/// Samples `n` random points of the unit square with `lands_inside`, which
/// draws one point and answers whether it lies in the quarter circle, and
/// counts the landings inside.
pub fn do_monte_carlo<S: Fn() -> bool>(n: u64, lands_inside: S) -> (count: u64)
    requires
        lands_inside.requires(()),
    ensures
        count <= n,
        sampled_count(lands_inside, n as nat, count as nat),
{
    let mut count: u64 = 0;
    let mut i: u64 = 0;
    let ghost mut outcomes: Seq<bool> = Seq::empty();
    while i < n
        invariant
            i <= n,
            lands_inside.requires(()),
            outcomes.len() == i,
            count == inside_count(outcomes),
            count <= i,
            forall|j: int| 0 <= j < i ==> lands_inside.ensures((), #[trigger] outcomes[j]),
        decreases n - i,
    {
        let inside = lands_inside();
        proof {
            let before = outcomes;
            outcomes = outcomes.push(inside);
            assert(outcomes.drop_last() =~= before);
        }
        if inside {
            count = count + 1;
        }
        i = i + 1;
    }
    proof {
        lemma_inside_count_bounded(outcomes);
    }
    count
}

/// Lays out row `row_index` of a `resolution`-wide Mandelbrot image: one
/// pixel per column, numbered row by row, coloured by `color_of(row, col)`.
pub fn compute_mandel_row<F: Fn(u32, u32) -> String>(row_index: u32, resolution: u32, color_of: F) -> (row:
    Vec<MandelPixel>)
    requires
        forall|r: u32, c: u32| color_of.requires((r, c)),
    ensures
        row@.len() == resolution,
        forall|c: int|
            0 <= c < resolution ==> {
                &&& (#[trigger] row@[c]).index == row_index * resolution + c
                &&& color_of.ensures((row_index, c as u32), row@[c].color)
            },
{
    let mut row: Vec<MandelPixel> = Vec::new();
    let mut col: u32 = 0;
    while col < resolution
        invariant
            col <= resolution,
            row@.len() == col,
            forall|r: u32, c: u32| color_of.requires((r, c)),
            forall|c: int|
                0 <= c < col ==> {
                    &&& (#[trigger] row@[c]).index == row_index * resolution + c
                    &&& color_of.ensures((row_index, c as u32), row@[c].color)
                },
        decreases resolution - col,
    {
        let r = row_index as u64;
        let w = resolution as u64;
        let c = col as u64;
        proof {
            assert(r * w + c <= u64::MAX) by (nonlinear_arith)
                requires
                    r <= u32::MAX,
                    w <= u32::MAX,
                    c < w,
            {
                assert(r * w <= u32::MAX * w);
            }
        }
        let color = color_of(row_index, col);
        row.push(MandelPixel { index: r * w + c, color });
        col = col + 1;
    }
    row
}

/// What a worker does with the answer to its request for work.
#[derive(Debug)]
pub enum ChunkWork {
    /// No chunk was handed out.
    Idle,
    /// Sample `points` points for chunk `chunk_index`.
    Pi { chunk_index: u64, points: u64 },
    /// Render row `row` of a `resolution`-wide image for chunk `chunk_index`.
    Mandelbrot { chunk_index: u64, row: u32, resolution: u32 },
    /// A task the worker does not know.
    Unknown,
}

/// What the answer to a request for work asks the worker to do.
pub fn plan_chunk_work(chunk_index: Option<u64>, chunk_size: u64, resolution: u32, task_type: &String) -> (w:
    ChunkWork)
    ensures
        match chunk_index {
            None => w is Idle,
            Some(i) => if task_type@ == pi_task() {
                w == (ChunkWork::Pi { chunk_index: i, points: chunk_size })
            } else if task_type@ == mandelbrot_task() {
                w == (ChunkWork::Mandelbrot { chunk_index: i, row: i as u32, resolution })
            } else {
                w is Unknown
            },
        },
{
    match chunk_index {
        None => ChunkWork::Idle,
        Some(i) => {
            if is_pi_task(task_type) {
                ChunkWork::Pi { chunk_index: i, points: chunk_size }
            } else if is_mandelbrot_task(task_type) {
                ChunkWork::Mandelbrot { chunk_index: i, row: i as u32, resolution }
            } else {
                ChunkWork::Unknown
            }
        },
    }
}

/// `pat` occurs in `s` at position `i`.
pub open spec fn occurs_at(s: Seq<char>, pat: Seq<char>, i: int) -> bool {
    &&& 0 <= i
    &&& i + pat.len() <= s.len()
    &&& s.subrange(i, i + pat.len()) == pat
}

/// The host of a scheduler on the worker's own machine.
pub open spec fn loopback_host() -> Seq<char> {
    seq!['1', '2', '7', '.', '0', '.', '0', '.', '1']
}

/// Whether the scheduler at `scheduler_url` runs on the worker's own
/// machine, where its self-signed certificate is accepted: the URL names the
/// loopback address.
pub fn is_local_scheduler(scheduler_url: &str) -> (local: bool)
    ensures
        local == exists|i: int| occurs_at(scheduler_url@, loopback_host(), i),
{
    let pat: [char; 9] = ['1', '2', '7', '.', '0', '.', '0', '.', '1'];
    proof {
        assert(pat@ == loopback_host());
    }
    let n = scheduler_url.unicode_len();
    let mut i: usize = 0;
    while n >= 9 && i <= n - 9
        invariant
            n == scheduler_url@.len(),
            i <= n,
            pat@ == loopback_host(),
            forall|j: int| 0 <= j < i ==> !occurs_at(scheduler_url@, loopback_host(), j),
        decreases n - i,
    {
        let mut k: usize = 0;
        let mut same = true;
        while k < 9 && same
            invariant
                n == scheduler_url@.len(),
                i + 9 <= n,
                k <= 9,
                pat@ == loopback_host(),
                forall|m: int| 0 <= m < k ==> scheduler_url@[i + m] == loopback_host()[m],
                !same ==> k < 9 && scheduler_url@[i + k] != loopback_host()[k as int],
            decreases 9 - k + (if same {
                1int
            } else {
                0int
            }),
        {
            if scheduler_url.get_char(i + k) != pat[k] {
                same = false;
            } else {
                k = k + 1;
            }
        }
        if same {
            proof {
                assert(scheduler_url@.subrange(i as int, i + 9) =~= loopback_host());
                assert(occurs_at(scheduler_url@, loopback_host(), i as int));
            }
            return true;
        }
        proof {
            let sub = scheduler_url@.subrange(i as int, i + 9);
            assert(sub[k as int] != loopback_host()[k as int]);
        }
        i = i + 1;
    }
    proof {
        assert forall|j: int| !occurs_at(scheduler_url@, loopback_host(), j) by {
            if j >= i {
                assert(n < 9 || i > n - 9);
            }
        }
    }
    false
}

} // verus!
