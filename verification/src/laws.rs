//! Properties of the scheduler and the worker that span several requests.

use crate::chunking::{spec_bounded_chunk_size, tiles, ChunkRange};
use crate::confidential::{
    aes256_gcm_open, aes256_gcm_seal, ComputeError, ConfidentialCompute, NONCE_LEN,
};
use crate::job::{
    mandelbrot_task, pi_task, saturating_diff, submitted_pixels, with_pixels, ChunkGrant,
    ChunkReceipt, JobInfo, JobStatus, MandelPixel, MANDELBROT_ROW_TIMEOUT_SECS,
};
use crate::scheduler::{
    is_job_slot, is_queue_slot, job_in_progress, job_slot, lemma_job_slot, lemma_some_job_slot,
    lemma_some_worker_slot, runnable, unique_job_ids, unique_worker_ids, without_first,
    worker_slot, Scheduler,
};
use crate::worker::{mandelbrot_chunk_params, pi_chunk_points};
use vstd::bytes::{
    lemma_auto_spec_u32_to_from_le_bytes, lemma_auto_spec_u64_to_from_le_bytes,
    spec_u32_to_le_bytes, spec_u64_from_le_bytes, spec_u64_to_le_bytes,
};
use vstd::arithmetic::div_mod::{
    lemma_fundamental_div_mod, lemma_fundamental_div_mod_converse_mod, lemma_mod_pos_bound,
};
use vstd::prelude::*;

verus! {

/// A chunk of a π job that was declared overdue is refused when it comes
/// back late: its points are never counted and the job does not change.
pub proof fn law_overdue_chunk_is_refused(
    pre: JobInfo,
    mid: JobInfo,
    post: JobInfo,
    now: u64,
    pi_time_limit: u64,
    chunk: u64,
    later: u64,
    points_in_circle: Option<u64>,
    chunk_points: u64,
    colors: Option<Vec<MandelPixel>>,
    r: ChunkReceipt,
)
    requires
        mid.reassigned_from(pre, now, pi_time_limit),
        pre.task_type@ != mandelbrot_task(),
        pre.overdue_chunks(now, pre.time_limit(pi_time_limit)).contains(chunk),
        post.answered(mid, chunk, points_in_circle, chunk_points, colors, later, r),
    ensures
        post == mid,
        !(r is Accepted),
{
    assert(mid.killed_chunks@.contains(chunk));
}

/// A chunk declared overdue is handed out again: the next chunk handed out
/// is at most the overdue chunk's index.
pub proof fn law_overdue_chunk_is_handed_out_again(
    pre: JobInfo,
    mid: JobInfo,
    post: JobInfo,
    now: u64,
    pi_time_limit: u64,
    chunk: u64,
    worker_id: String,
    later: u64,
    predicted_chunk: Option<u64>,
    g: ChunkGrant,
)
    requires
        mid.reassigned_from(pre, now, pi_time_limit),
        pre.overdue_chunks(now, pre.time_limit(pi_time_limit)).contains(chunk),
        post.granted(mid, worker_id, later, predicted_chunk, g),
        mid.points_total < mid.points,
    ensures
        g.chunk_index matches Some(i) && i <= chunk,
{
}

/// Two chunks handed out one after the other have different indices, the
/// later one higher.
pub proof fn law_chunks_handed_out_are_distinct(
    pre: JobInfo,
    mid: JobInfo,
    post: JobInfo,
    w1: String,
    t1: u64,
    p1: Option<u64>,
    g1: ChunkGrant,
    w2: String,
    t2: u64,
    p2: Option<u64>,
    g2: ChunkGrant,
)
    requires
        mid.granted(pre, w1, t1, p1, g1),
        post.granted(mid, w2, t2, p2, g2),
        g1.chunk_index is Some,
        g2.chunk_index is Some,
    ensures
        g1.chunk_index.unwrap() < g2.chunk_index.unwrap(),
{
}

/// A π chunk holds at least one point and no more than the points that
/// remain to be sampled.
pub proof fn law_pi_chunk_size_is_bounded(
    pre: JobInfo,
    post: JobInfo,
    worker_id: String,
    now: u64,
    predicted_chunk: Option<u64>,
    g: ChunkGrant,
)
    requires
        post.granted(pre, worker_id, now, predicted_chunk, g),
        pre.task_type@ == pi_task(),
        pre.points_total < pre.points,
    ensures
        1 <= g.chunk_size <= pre.points - pre.points_total,
{
}

/// Progress only grows: a returned chunk, a chunk handed out and a
/// reassignment of overdue chunks never lower the points counted.
pub proof fn law_progress_never_decreases(
    pre: JobInfo,
    post: JobInfo,
    chunk: u64,
    points_in_circle: Option<u64>,
    chunk_points: u64,
    colors: Option<Vec<MandelPixel>>,
    now: u64,
    r: ChunkReceipt,
)
    requires
        post.answered(pre, chunk, points_in_circle, chunk_points, colors, now, r),
    ensures
        post.points_total >= pre.points_total,
        post.points_in_circle >= pre.points_in_circle,
        post.completed_chunks >= pre.completed_chunks,
{
}

/// A job that a returned chunk finished refuses every chunk after it and
/// stays as it is.
pub proof fn law_finished_job_refuses_chunks(
    pre: JobInfo,
    mid: JobInfo,
    post: JobInfo,
    c1: u64,
    i1: Option<u64>,
    p1: u64,
    x1: Option<Vec<MandelPixel>>,
    t1: u64,
    r1: ChunkReceipt,
    c2: u64,
    i2: Option<u64>,
    p2: u64,
    x2: Option<Vec<MandelPixel>>,
    t2: u64,
    r2: ChunkReceipt,
)
    requires
        mid.answered(pre, c1, i1, p1, x1, t1, r1),
        r1 matches ChunkReceipt::Accepted { finished: true, .. },
        post.answered(mid, c2, i2, p2, x2, t2, r2),
    ensures
        mid.status == JobStatus::Finished,
        r2 == ChunkReceipt::JobAlreadyFinished,
        post == mid,
{
}

/// A job just created is found under its id, in progress, with no result
/// yet: a status request about it reports that.
pub proof fn law_created_job_is_in_progress(
    pre: Scheduler,
    post: Scheduler,
    job_id: String,
    task_type: Seq<char>,
    points: u64,
    resolution: u32,
    now: u64,
)
    requires
        post.created_job(pre, job_id, task_type, points, resolution, now),
    ensures
        job_slot(post.jobs(), job_id@) matches Some(k) && {
            &&& post.jobs()[k].status == JobStatus::InProgress
            &&& post.jobs()[k].result@ == Seq::<char>::empty()
            &&& post.jobs()[k].is_new_job(job_id@, task_type, points, resolution, now)
        },
{
    match job_slot(pre.jobs(), job_id@) {
        Some(i) => {
            assert(is_job_slot(pre.jobs(), job_id@, i));
            assert(is_job_slot(post.jobs(), job_id@, i)) by {
                assert forall|j: int| 0 <= j < i implies (#[trigger] post.jobs()[j]).job_id@ != job_id@ by {
                    assert(post.jobs()[j] == pre.jobs()[j]);
                    assert(pre.jobs()[j].job_id@ != job_id@);
                }
            }
            lemma_job_slot(post.jobs(), job_id@, i);
        },
        None => {
            let k = pre.jobs().len() as int;
            assert(is_job_slot(post.jobs(), job_id@, k)) by {
                assert forall|j: int| 0 <= j < k implies (#[trigger] post.jobs()[j]).job_id@ != job_id@ by {
                    assert(post.jobs()[j] == pre.jobs()[j]);
                    if pre.jobs()[j].job_id@ == job_id@ {
                        lemma_some_job_slot(pre.jobs(), job_id@, j);
                    }
                }
            }
            lemma_job_slot(post.jobs(), job_id@, k);
        },
    }
}

/// Registering a worker a second time changes nothing.
pub proof fn law_registering_twice_is_registering_once(
    pre: Scheduler,
    mid: Scheduler,
    post: Scheduler,
    worker_id: String,
)
    requires
        mid.registered(pre, worker_id),
        post.registered(mid, worker_id),
    ensures
        post.workers() == mid.workers(),
        post.jobs() == pre.jobs(),
{
    match worker_slot(pre.workers(), worker_id@) {
        Some(_) => {},
        None => {
            let k = pre.workers().len() as int;
            assert(mid.workers()[k].worker_id@ == worker_id@);
            lemma_some_worker_slot(mid.workers(), worker_id@, k);
        },
    }
}

/// Taking a job out of the run queue removes one entry where the queue
/// holds it, and none where it does not.
pub proof fn law_queue_removal_takes_one_entry(queue: Seq<String>, id: Seq<char>)
    ensures
        without_first(queue, id).len() == queue.len() - (if exists|p: int|
            0 <= p < queue.len() && (#[trigger] queue[p])@ == id {
            1int
        } else {
            0int
        }),
{
    if exists|p: int| 0 <= p < queue.len() && (#[trigger] queue[p])@ == id {
        let p = choose|p: int| 0 <= p < queue.len() && (#[trigger] queue[p])@ == id;
        lemma_some_queue_slot(queue, id, p);
    } else {
        if exists|p: int| is_queue_slot(queue, id, p) {
            let p = choose|p: int| is_queue_slot(queue, id, p);
            assert(queue[p]@ == id);
        }
    }
}

proof fn lemma_some_queue_slot(queue: Seq<String>, id: Seq<char>, j: int)
    requires
        0 <= j < queue.len(),
        queue[j]@ == id,
    ensures
        exists|p: int| is_queue_slot(queue, id, p),
    decreases j,
{
    if forall|k: int| 0 <= k < j ==> (#[trigger] queue[k])@ != id {
        assert(is_queue_slot(queue, id, j));
    } else {
        let k = choose|k: int| 0 <= k < j && (#[trigger] queue[k])@ == id;
        lemma_some_queue_slot(queue, id, k);
    }
}

/// The runnable job that the `k`-th request from now hands out, while the
/// runnable jobs stay the same.
pub open spec fn rotation_pick(s: Scheduler, k: int) -> int {
    ((s.round_counter() + k) as usize) as int % s.runnable_jobs().len() as int
}

/// Rotation reaches every runnable job: while the runnable jobs stay the
/// same, consecutive requests hand out each of them within as many
/// requests as there are runnable jobs.
pub proof fn law_rotation_reaches_every_job(s: Scheduler, j: int)
    requires
        0 <= j < s.runnable_jobs().len(),
        s.round_counter() + s.runnable_jobs().len() <= usize::MAX,
    ensures
        exists|k: int| 0 <= k < s.runnable_jobs().len() && #[trigger] rotation_pick(s, k) == j,
{
    let n = s.runnable_jobs().len() as int;
    let c = s.round_counter() as int;
    let q = c / n;
    let r = c % n;
    lemma_fundamental_div_mod(c, n);
    lemma_mod_pos_bound(c, n);
    let k = if j >= r {
        j - r
    } else {
        j - r + n
    };
    assert(0 <= k < n);
    if j >= r {
        assert(c + k == q * n + j) by (nonlinear_arith)
            requires
                c == n * q + r,
                k == j - r,
        ;
        lemma_fundamental_div_mod_converse_mod(c + k, n, q, j);
    } else {
        assert(c + k == (q + 1) * n + j) by (nonlinear_arith)
            requires
                c == n * q + r,
                k == j - r + n,
        ;
        lemma_fundamental_div_mod_converse_mod(c + k, n, q + 1, j);
    }
    assert(((c + k) as usize) as int == c + k);
    assert(rotation_pick(s, k) == j);
}

/// The chunks that a π job's remaining points are cut into hold every
/// point exactly once.
pub proof fn law_chunks_hold_each_point_once(ranges: Seq<ChunkRange>, total: u64, first_id: u64, p: u64)
    requires
        tiles(ranges, total, first_id),
        p < total,
    ensures
        exists|j: int| 0 <= j < ranges.len() && (#[trigger] ranges[j]).start_point <= p < ranges[j].end_point,
        forall|j: int, k: int|
            0 <= j < ranges.len() && 0 <= k < ranges.len() && (#[trigger] ranges[j]).start_point <= p
                < ranges[j].end_point && (#[trigger] ranges[k]).start_point <= p < ranges[k].end_point
                ==> j == k,
{
    lemma_ranges_ordered(ranges, total, first_id);
    lemma_point_in_prefix(ranges, total, first_id, p, ranges.len() as int);
}

proof fn lemma_ranges_ordered(ranges: Seq<ChunkRange>, total: u64, first_id: u64)
    requires
        tiles(ranges, total, first_id),
    ensures
        forall|j: int, k: int|
            0 <= j < k < ranges.len() ==> (#[trigger] ranges[j]).end_point <= (#[trigger] ranges[k]).start_point,
{
    assert forall|j: int, k: int|
        0 <= j < k < ranges.len() implies (#[trigger] ranges[j]).end_point <= (
        #[trigger] ranges[k]).start_point by {
        lemma_range_gap(ranges, total, first_id, j, k);
    }
}

proof fn lemma_range_gap(ranges: Seq<ChunkRange>, total: u64, first_id: u64, j: int, k: int)
    requires
        tiles(ranges, total, first_id),
        0 <= j < k < ranges.len(),
    ensures
        ranges[j].end_point <= ranges[k].start_point,
    decreases k - j,
{
    assert(ranges[k - 1].end_point == ranges[k].start_point);
    if j < k - 1 {
        lemma_range_gap(ranges, total, first_id, j, k - 1);
        assert(ranges[k - 1].start_point < ranges[k - 1].end_point);
    }
}

proof fn lemma_point_in_prefix(ranges: Seq<ChunkRange>, total: u64, first_id: u64, p: u64, n: int)
    requires
        tiles(ranges, total, first_id),
        0 < n <= ranges.len(),
        p < ranges[n - 1].end_point,
    ensures
        exists|j: int| 0 <= j < n && (#[trigger] ranges[j]).start_point <= p < ranges[j].end_point,
    decreases n,
{
    if ranges[n - 1].start_point <= p {
        assert(ranges[n - 1].start_point <= p < ranges[n - 1].end_point);
    } else {
        assert(n > 1);
        assert(ranges[n - 2].end_point == ranges[n - 1].start_point);
        lemma_point_in_prefix(ranges, total, first_id, p, n - 1);
    }
}

/// The point count a worker puts into a π chunk's parameters is the one
/// the chunk's computation reads back.
pub proof fn law_pi_chunk_parameters_round_trip(points: u64)
    ensures
        pi_chunk_points(spec_u64_to_le_bytes(points)) == points,
{
    lemma_auto_spec_u64_to_from_le_bytes();
    assert(spec_u64_to_le_bytes(points).subrange(0, 8) == spec_u64_to_le_bytes(points));
}

/// The row and resolution a worker puts into a Mandelbrot chunk's
/// parameters are the ones the chunk's computation reads back.
pub proof fn law_mandelbrot_chunk_parameters_round_trip(row: u32, resolution: u32)
    ensures
        mandelbrot_chunk_params(spec_u32_to_le_bytes(row) + spec_u32_to_le_bytes(resolution)) == Some(
            (row, resolution),
        ),
{
    lemma_auto_spec_u32_to_from_le_bytes();
    let data = spec_u32_to_le_bytes(row) + spec_u32_to_le_bytes(resolution);
    assert(data.subrange(0, 4) == spec_u32_to_le_bytes(row));
    assert(data.subrange(4, 8) == spec_u32_to_le_bytes(resolution));
}

/// The count of points in the circle that a π computation answers is the
/// one the worker reads back.
pub proof fn law_pi_result_round_trip(count: u64)
    ensures
        spec_u64_from_le_bytes(spec_u64_to_le_bytes(count).subrange(0, 8)) == count,
{
    lemma_auto_spec_u64_to_from_le_bytes();
    assert(spec_u64_to_le_bytes(count).subrange(0, 8) == spec_u64_to_le_bytes(count));
}

/// Decrypting what encryption answered gives the data back, with
/// encryption enabled or disabled.
pub proof fn law_encryption_round_trip(
    c: ConfidentialCompute,
    data: Seq<u8>,
    sealed: Result<Vec<u8>, ComputeError>,
    opened: Result<Vec<u8>, ComputeError>,
)
    requires
        c.encrypted_as(data, sealed),
        sealed matches Ok(s) && c.decrypted_as(s@, opened),
    ensures
        opened matches Ok(d) && d@ == data,
{
    if c.spec_config().encryption_enabled {
        let s = sealed->Ok_0@;
        let nonce = choose|nonce: Seq<u8>|
            #![trigger c.sealed_under(nonce, data)]
            nonce.len() == NONCE_LEN && s == c.sealed_under(nonce, data) && aes256_gcm_open(
                c.key(),
                nonce,
                aes256_gcm_seal(c.key(), nonce, data),
            ) == Some(data);
        assert(s.subrange(0, NONCE_LEN as int) =~= nonce);
        assert(s.subrange(NONCE_LEN as int, s.len() as int) =~= aes256_gcm_seal(c.key(), nonce, data));
    }
}

/// An adaptive chunk never exceeds the configured maximum or the points
/// that remain, and is at least the configured minimum wherever the minimum
/// fits under both.
pub proof fn law_chunk_size_respects_bounds(
    scaled_size: u64,
    min_chunk_size: u64,
    max_chunk_size: u64,
    remaining_points: u64,
)
    ensures
        ({
            let size = spec_bounded_chunk_size(
                true,
                scaled_size,
                min_chunk_size,
                max_chunk_size,
                remaining_points,
            );
            &&& size <= max_chunk_size
            &&& size <= remaining_points
            &&& (min_chunk_size <= max_chunk_size && min_chunk_size <= remaining_points)
                ==> min_chunk_size <= size
        }),
{
}

/// The scheduler keeps one record per job id and one per worker id, as
/// every request leaves it.
pub proof fn law_one_record_per_id(s: Scheduler)
    requires
        s.wf(),
    ensures
        unique_job_ids(s.jobs()),
        unique_worker_ids(s.workers()),
{
    s.lemma_wf_unique();
}

/// Rotation hands out only queued jobs that are in progress.
pub proof fn law_rotation_hands_out_jobs_in_progress(s: Scheduler, k: int)
    requires
        0 <= k < s.runnable_jobs().len(),
    ensures
        job_in_progress(s.jobs(), s.runnable_jobs()[k]@),
        s.run_queue().contains(s.runnable_jobs()[k]),
{
    lemma_runnable_members(s.jobs(), s.run_queue(), k);
}

proof fn lemma_runnable_members(jobs: Seq<JobInfo>, queue: Seq<String>, k: int)
    requires
        0 <= k < runnable(jobs, queue).len(),
    ensures
        job_in_progress(jobs, runnable(jobs, queue)[k]@),
        queue.contains(runnable(jobs, queue)[k]),
    decreases queue.len(),
{
    let rest = runnable(jobs, queue.drop_last());
    if job_in_progress(jobs, queue.last()@) && k == rest.len() {
        assert(runnable(jobs, queue)[k] == queue.last());
        assert(queue[queue.len() - 1] == queue.last());
    } else {
        assert(runnable(jobs, queue)[k] == rest[k]);
        lemma_runnable_members(jobs, queue.drop_last(), k);
        let w = choose|w: int| 0 <= w < queue.drop_last().len() && queue.drop_last()[w] == rest[k];
        assert(queue[w] == rest[k]);
    }
}

proof fn lemma_task_names_differ()
    ensures
        pi_task() != mandelbrot_task(),
{
    reveal_strlit("calculate_pi");
    reveal_strlit("calculate_mandelbrot");
    assert(pi_task().len() != mandelbrot_task().len());
}

/// The pixel indices that a submission carries.
pub open spec fn pixel_indices(px: Seq<MandelPixel>) -> Set<u64> {
    Set::new(|i: u64| exists|p: int| 0 <= p < px.len() && (#[trigger] px[p]).index == i)
}

proof fn lemma_written_pixel_indices(m: Map<u64, String>, px: Seq<MandelPixel>)
    ensures
        with_pixels(m, px).dom() == m.dom().union(pixel_indices(px)),
    decreases px.len(),
{
    if px.len() > 0 {
        let rest = px.drop_last();
        lemma_written_pixel_indices(m, rest);
        assert forall|i: u64| #[trigger] pixel_indices(px).contains(i) == (pixel_indices(
            rest,
        ).contains(i) || i == px.last().index) by {
            if pixel_indices(px).contains(i) {
                let p = choose|p: int| 0 <= p < px.len() && (#[trigger] px[p]).index == i;
                if p < rest.len() {
                    assert(rest[p] == px[p]);
                }
            }
            if pixel_indices(rest).contains(i) {
                let p = choose|p: int| 0 <= p < rest.len() && (#[trigger] rest[p]).index == i;
                assert(px[p] == rest[p]);
            }
            if i == px.last().index {
                assert(px[px.len() - 1].index == i);
            }
        }
        assert(with_pixels(m, px).dom() =~= m.dom().union(pixel_indices(px)));
    }
}

/// A Mandelbrot job that takes back a row holds every pixel index it held
/// and every index the row carried, and no other; the row finishes the job
/// exactly when the distinct pixel indices it then holds number
/// `resolution * resolution`.
pub proof fn law_mandelbrot_job_finishes_when_every_pixel_is_in(
    pre: JobInfo,
    post: JobInfo,
    chunk_index: u64,
    points_in_circle: Option<u64>,
    chunk_points: u64,
    colors: Option<Vec<MandelPixel>>,
    now: u64,
    r: ChunkReceipt,
)
    requires
        post.answered(pre, chunk_index, points_in_circle, chunk_points, colors, now, r),
        pre.task_type@ == mandelbrot_task(),
        pre.status != JobStatus::Finished,
        pre.status != JobStatus::Error,
        !pre.killed_chunks@.contains(chunk_index),
    ensures
        post.mandel_pixels@.dom() == pre.mandel_pixels@.dom().union(
            pixel_indices(submitted_pixels(colors)),
        ),
        r matches ChunkReceipt::Accepted { finished, .. } && (finished
            <==> post.mandel_pixels@.dom().len() == pre.resolution as int * pre.resolution as int),
        post.status == JobStatus::Finished <==> post.mandel_pixels@.dom().len() == pre.resolution as int
            * pre.resolution as int,
{
    lemma_task_names_differ();
    lemma_written_pixel_indices(pre.mandel_pixels@, submitted_pixels(colors));
}

/// A row that comes back a second time adds no pixel: a Mandelbrot job
/// that still missed pixels stays in progress with the same pixels.
pub proof fn law_resubmitted_row_leaves_job_unfinished(
    pre: JobInfo,
    post: JobInfo,
    chunk_index: u64,
    points_in_circle: Option<u64>,
    chunk_points: u64,
    colors: Option<Vec<MandelPixel>>,
    now: u64,
    r: ChunkReceipt,
)
    requires
        post.answered(pre, chunk_index, points_in_circle, chunk_points, colors, now, r),
        pre.task_type@ == mandelbrot_task(),
        pre.status == JobStatus::InProgress,
        !pre.killed_chunks@.contains(chunk_index),
        pixel_indices(submitted_pixels(colors)).subset_of(pre.mandel_pixels@.dom()),
        pre.mandel_pixels@.dom().len() != pre.resolution as int * pre.resolution as int,
    ensures
        r matches ChunkReceipt::Accepted { finished, .. } && !finished,
        post.status == JobStatus::InProgress,
        post.mandel_pixels@.dom() == pre.mandel_pixels@.dom(),
{
    law_mandelbrot_job_finishes_when_every_pixel_is_in(
        pre,
        post,
        chunk_index,
        points_in_circle,
        chunk_points,
        colors,
        now,
        r,
    );
    assert(post.mandel_pixels@.dom() =~= pre.mandel_pixels@.dom());
}

/// A π chunk follows the worker's pace: a predicted size between half and
/// twice the job's chunk size is handed out as it is; a smaller one gets
/// half the chunk size and a larger one twice it; with no pace known the
/// chunk size itself; each where that many points remain.
pub proof fn law_pi_chunk_follows_pace(
    pre: JobInfo,
    post: JobInfo,
    worker_id: String,
    now: u64,
    predicted_chunk: Option<u64>,
    g: ChunkGrant,
)
    requires
        post.granted(pre, worker_id, now, predicted_chunk, g),
        pre.task_type@ == pi_task(),
        pre.points_total < pre.points,
    ensures
        predicted_chunk matches Some(p) ==> (pre.chunk_size / 2 <= p <= pre.chunk_size * 2 && 1 <= p
            <= pre.points - pre.points_total ==> g.chunk_size == p),
        predicted_chunk matches Some(p) ==> (p < pre.chunk_size / 2 && pre.chunk_size / 2
            <= pre.points - pre.points_total ==> g.chunk_size == pre.chunk_size / 2),
        predicted_chunk matches Some(p) ==> (p > pre.chunk_size * 2 && 1 <= pre.chunk_size * 2
            <= pre.points - pre.points_total ==> g.chunk_size == pre.chunk_size * 2),
        predicted_chunk is None && 1 <= pre.chunk_size <= pre.points - pre.points_total
            ==> g.chunk_size == pre.chunk_size,
{
}

/// A reassignment takes back a Mandelbrot row exactly when it has been out
/// longer than `MANDELBROT_ROW_TIMEOUT_SECS`, whatever π time limit is
/// passed, and hands it out next where it is the lowest taken back; it takes
/// back a chunk of any other job exactly when it has been out longer than
/// the π time limit.
pub proof fn law_reassignment_takes_back_exactly_the_overdue(
    pre: JobInfo,
    post: JobInfo,
    now: u64,
    pi_time_limit: u64,
    chunk: u64,
)
    requires
        post.reassigned_from(pre, now, pi_time_limit),
        pre.chunks_in_progress@.contains_key(chunk),
    ensures
        pre.task_type@ == mandelbrot_task() ==> (!post.chunks_in_progress@.contains_key(chunk)
            <==> saturating_diff(now, pre.chunks_in_progress@[chunk].assigned_at)
            > MANDELBROT_ROW_TIMEOUT_SECS),
        pre.task_type@ != mandelbrot_task() ==> (!post.chunks_in_progress@.contains_key(chunk)
            <==> saturating_diff(now, pre.chunks_in_progress@[chunk].assigned_at) > pi_time_limit),
        !post.chunks_in_progress@.contains_key(chunk) ==> post.next_chunk <= chunk,
{
    let limit = pre.time_limit(pi_time_limit);
    let overdue = pre.overdue_chunks(now, limit);
    assert(overdue.contains(chunk) <==> saturating_diff(
        now,
        pre.chunks_in_progress@[chunk].assigned_at,
    ) > limit);
}

/// With adaptive chunking disabled every chunk has the configured minimum
/// size, whatever the pace-based size; enabled, a pace-based size within
/// the bounds and the points that remain is used as it is.
pub proof fn law_chunk_size_follows_configuration(
    scaled_size: u64,
    min_chunk_size: u64,
    max_chunk_size: u64,
    remaining_points: u64,
)
    ensures
        spec_bounded_chunk_size(false, scaled_size, min_chunk_size, max_chunk_size, remaining_points)
            == min_chunk_size,
        min_chunk_size <= scaled_size <= max_chunk_size && scaled_size <= remaining_points
            ==> spec_bounded_chunk_size(
            true,
            scaled_size,
            min_chunk_size,
            max_chunk_size,
            remaining_points,
        ) == scaled_size,
{
}

} // verus!
