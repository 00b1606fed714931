//! One job of the scheduler: its bookkeeping of chunks handed out, chunks
//! returned, pixels rendered and points sampled, and the transitions that the
//! scheduler's requests make on it.

use std::collections::{HashMap, HashSet};
use vstd::prelude::*;
use vstd::std_specs::iter::IteratorSpec;
use crate::ordering;

verus! {

broadcast use {vstd::std_specs::hash::group_hash_axioms, vstd::string::group_string_axioms};

/// Points per chunk that a Monte-Carlo π job starts from.
pub const PI_CHUNK_POINTS: u64 = 100_000;

/// Resolution given to a Mandelbrot job that asks for none.
pub const DEFAULT_RESOLUTION: u32 = 256;

/// Seconds after which an unanswered Mandelbrot row is handed out again.
pub const MANDELBROT_ROW_TIMEOUT_SECS: u64 = 5;

/// The task name of a Monte-Carlo π job.
pub open spec fn pi_task() -> Seq<char> {
    "calculate_pi"@
}

/// The task name of a Mandelbrot job.
pub open spec fn mandelbrot_task() -> Seq<char> {
    "calculate_mandelbrot"@
}

/// Whether `task` names the Monte-Carlo π task.
pub fn is_pi_task(task: &String) -> (r: bool)
    ensures
        r == (task@ == pi_task()),
{
    let name = "calculate_pi".to_string();
    *task == name
}

/// Whether `task` names the Mandelbrot task.
pub fn is_mandelbrot_task(task: &String) -> (r: bool)
    ensures
        r == (task@ == mandelbrot_task()),
{
    let name = "calculate_mandelbrot".to_string();
    *task == name
}

/// The life cycle of a job.
#[derive(PartialEq, Eq, Structural, Clone, Copy, Debug)]
pub enum JobStatus {
    InProgress,
    Paused,
    Finished,
    Error,
}

impl JobStatus {
    /// The status as the scheduler's clients read it.
    pub open spec fn spec_name(self) -> Seq<char> {
        match self {
            JobStatus::InProgress => "in-progress"@,
            JobStatus::Paused => "paused"@,
            JobStatus::Finished => "finished"@,
            JobStatus::Error => "error"@,
        }
    }

    /// The status as the scheduler's clients read it.
    pub fn name(&self) -> (s: String)
        ensures
            s@ == self.spec_name(),
    {
        match self {
            JobStatus::InProgress => "in-progress".to_string(),
            JobStatus::Paused => "paused".to_string(),
            JobStatus::Finished => "finished".to_string(),
            JobStatus::Error => "error".to_string(),
        }
    }
}


/// A chunk handed out and not yet returned: the worker that holds it and
/// when it was handed out.
#[derive(Clone, Debug)]
pub struct ChunkAssignment {
    pub worker_id: String,
    pub assigned_at: u64,
}

/// One rendered pixel of a Mandelbrot image.
#[derive(Clone, Debug)]
pub struct MandelPixel {
    pub index: u64,
    pub color: String,
}

/// Everything the scheduler keeps of one job.
#[derive(Debug)]
pub struct JobInfo {
    pub job_id: String,
    pub task_type: String,
    pub status: JobStatus,
    pub result: String,
    pub partial_result: String,
    pub points: u64,
    pub chunk_size: u64,
    pub completed_chunks: u64,
    pub total_chunks: u64,
    pub points_in_circle: u64,
    pub points_total: u64,
    pub resolution: u32,
    pub mandel_pixels: HashMap<u64, String>,
    pub created_at: u64,
    pub next_chunk: u64,
    pub chunks_in_progress: HashMap<u64, ChunkAssignment>,
    pub last_webapp_poll: u64,
    pub killed_chunks: HashSet<u64>,
}

/// `a - b`, or 0 where `b` exceeds `a`.
pub open spec fn saturating_diff(a: u64, b: u64) -> u64 {
    if a >= b {
        (a - b) as u64
    } else {
        0
    }
}

/// How many chunks of `PI_CHUNK_POINTS` cover `points` points.
pub open spec fn pi_chunk_count(points: u64) -> int {
    (points + PI_CHUNK_POINTS - 1) / PI_CHUNK_POINTS as int
}

/// The pixels of a submission, or none.
pub open spec fn submitted_pixels(colors: Option<Vec<MandelPixel>>) -> Seq<MandelPixel> {
    match colors {
        Some(v) => v@,
        None => Seq::empty(),
    }
}

/// The pixel map after writing `px` into `m` in order; a later pixel with the
/// same index overwrites an earlier one.
pub open spec fn with_pixels(m: Map<u64, String>, px: Seq<MandelPixel>) -> Map<u64, String>
    decreases px.len(),
{
    if px.len() == 0 {
        m
    } else {
        with_pixels(m, px.drop_last()).insert(px.last().index, px.last().color)
    }
}

/// A submission's count of points inside the circle, 0 where it gives none.
pub open spec fn circle_points(points_in_circle: Option<u64>) -> u64 {
    match points_in_circle {
        Some(n) => n,
        None => 0,
    }
}

impl JobInfo {
    /// The resolution a new job gets: a Mandelbrot job that asks for none
    /// gets `DEFAULT_RESOLUTION`; any other request is kept.
    pub open spec fn effective_resolution(task: Seq<char>, requested: u32) -> u32 {
        if task == mandelbrot_task() && requested < 1 {
            DEFAULT_RESOLUTION
        } else {
            requested
        }
    }

    /// `self` is the job that `create_job` makes of these arguments.
    pub open spec fn is_new_job(
        self,
        id: Seq<char>,
        task: Seq<char>,
        points: u64,
        requested_resolution: u32,
        now: u64,
    ) -> bool {
        let mandel = task == mandelbrot_task();
        let res = Self::effective_resolution(task, requested_resolution);
        &&& self.job_id@ == id
        &&& self.task_type@ == task
        &&& self.status == JobStatus::InProgress
        &&& self.result@ == Seq::<char>::empty()
        &&& self.partial_result@ == Seq::<char>::empty()
        &&& self.points == points
        &&& self.chunk_size == (if mandel { res as u64 } else { PI_CHUNK_POINTS })
        &&& self.total_chunks == (if mandel { res as int } else { pi_chunk_count(points) })
        &&& self.resolution == res
        &&& self.completed_chunks == 0
        &&& self.points_in_circle == 0
        &&& self.points_total == 0
        &&& self.mandel_pixels@ == Map::<u64, String>::empty()
        &&& self.created_at == now
        &&& self.next_chunk == 0
        &&& self.chunks_in_progress@ == Map::<u64, ChunkAssignment>::empty()
        &&& self.last_webapp_poll == now
        &&& self.killed_chunks@ == Set::<u64>::empty()
    }

    /// `self` is the record that marking an unknown job as failed leaves.
    pub open spec fn is_error_record(self, id: Seq<char>, now: u64) -> bool {
        &&& self.job_id@ == id
        &&& self.task_type@ == "unknown"@
        &&& self.status == JobStatus::Error
        &&& self.result@ == Seq::<char>::empty()
        &&& self.partial_result@ == Seq::<char>::empty()
        &&& self.points == 0
        &&& self.chunk_size == 0
        &&& self.completed_chunks == 0
        &&& self.total_chunks == 0
        &&& self.points_in_circle == 0
        &&& self.points_total == 0
        &&& self.resolution == 0
        &&& self.mandel_pixels@ == Map::<u64, String>::empty()
        &&& self.created_at == now
        &&& self.next_chunk == 0
        &&& self.chunks_in_progress@ == Map::<u64, ChunkAssignment>::empty()
        &&& self.last_webapp_poll == now
        &&& self.killed_chunks@ == Set::<u64>::empty()
    }

    /// A new job: Monte-Carlo π jobs are cut into chunks of
    /// `PI_CHUNK_POINTS` points, Mandelbrot jobs into one chunk per row.
    pub fn new_job(job_id: String, task_type: String, points: u64, resolution: u32, now: u64) -> (job:
        JobInfo)
        ensures
            job.is_new_job(job_id@, task_type@, points, resolution, now),
    {
        let mut total_chunks = points / PI_CHUNK_POINTS + if points % PI_CHUNK_POINTS != 0 {
            1
        } else {
            0
        };
        let mut chunk_size = PI_CHUNK_POINTS;
        let mut res = resolution;
        if is_mandelbrot_task(&task_type) {
            if res < 1 {
                res = DEFAULT_RESOLUTION;
            }
            chunk_size = res as u64;
            total_chunks = res as u64;
        }
        JobInfo {
            job_id,
            task_type,
            status: JobStatus::InProgress,
            result: String::new(),
            partial_result: String::new(),
            points,
            chunk_size,
            completed_chunks: 0,
            total_chunks,
            points_in_circle: 0,
            points_total: 0,
            resolution: res,
            mandel_pixels: HashMap::new(),
            created_at: now,
            next_chunk: 0,
            chunks_in_progress: HashMap::new(),
            last_webapp_poll: now,
            killed_chunks: HashSet::new(),
        }
    }

    /// The record left for a job that was marked as failed before it was
    /// ever created.
    pub fn error_record(job_id: String, now: u64) -> (job: JobInfo)
        ensures
            job.is_error_record(job_id@, now),
    {
        JobInfo {
            job_id,
            task_type: "unknown".to_string(),
            status: JobStatus::Error,
            result: String::new(),
            partial_result: String::new(),
            points: 0,
            chunk_size: 0,
            completed_chunks: 0,
            total_chunks: 0,
            points_in_circle: 0,
            points_total: 0,
            resolution: 0,
            mandel_pixels: HashMap::new(),
            created_at: now,
            next_chunk: 0,
            chunks_in_progress: HashMap::new(),
            last_webapp_poll: now,
            killed_chunks: HashSet::new(),
        }
    }
}

/// What a job answers to a returned chunk.
#[derive(PartialEq, Eq, Structural, Clone, Copy, Debug)]
pub enum ChunkReceipt {
    JobAlreadyFinished,
    JobInError,
    ChunkKilled,
    /// The chunk was taken: how long it was out, where it had been handed
    /// out, and whether it completed the job.
    Accepted { elapsed_secs: Option<u64>, finished: bool },
}

/// Writes `px` into `pixels` in order.
fn write_pixels(pixels: &mut HashMap<u64, String>, px: &Vec<MandelPixel>)
    ensures
        final(pixels)@ == with_pixels(old(pixels)@, px@),
{
    let ghost start = pixels@;
    let mut i: usize = 0;
    while i < px.len()
        invariant
            0 <= i <= px.len(),
            pixels@ == with_pixels(start, px@.take(i as int)),
        decreases px.len() - i,
    {
        proof {
            assert(px@.take(i + 1).drop_last() == px@.take(i as int));
        }
        pixels.insert(px[i].index, px[i].color.clone());
        i = i + 1;
    }
    proof {
        assert(px@.take(px.len() as int) == px@);
    }
}

impl JobInfo {
    /// A returned chunk is taken unless the job is over or the chunk was
    /// declared overdue.
    pub open spec fn accepts_chunk(self, chunk_index: u64) -> bool {
        &&& self.status != JobStatus::Finished
        &&& self.status != JobStatus::Error
        &&& !self.killed_chunks@.contains(chunk_index)
    }

    /// The job's counters can take one more chunk of this size.
    pub open spec fn has_room_for(self, points_in_circle: Option<u64>, chunk_points: u64) -> bool {
        if self.task_type@ == pi_task() {
            &&& self.completed_chunks < u64::MAX
            &&& self.points_in_circle + circle_points(points_in_circle) <= u64::MAX
            &&& self.points_total + chunk_points <= u64::MAX
        } else if self.task_type@ == mandelbrot_task() {
            &&& self.completed_chunks < u64::MAX
            &&& self.points_total + chunk_points <= u64::MAX
        } else {
            true
        }
    }

    /// The fields that only creation sets.
    pub open spec fn same_plan(self, other: Self) -> bool {
        &&& self.job_id == other.job_id
        &&& self.task_type == other.task_type
        &&& self.points == other.points
        &&& self.chunk_size == other.chunk_size
        &&& self.total_chunks == other.total_chunks
        &&& self.resolution == other.resolution
        &&& self.created_at == other.created_at
        &&& self.last_webapp_poll == other.last_webapp_poll
    }

    /// Whether the progress counted in `self` completes the job.
    pub open spec fn completes(self) -> bool {
        if self.task_type@ == pi_task() {
            self.points_total >= self.points
        } else if self.task_type@ == mandelbrot_task() {
            self.mandel_pixels@.len() == self.resolution as int * self.resolution as int
        } else {
            false
        }
    }

    /// `self` is `pre` after taking back chunk `chunk_index`: the chunk is
    /// no longer in progress and its points or pixels are counted. A π
    /// job's estimate text is written by the caller's formatter, so it is
    /// stated where the formatter is known (see `JobInfo::record_chunk`).
    pub open spec fn took_chunk(
        self,
        pre: Self,
        chunk_index: u64,
        points_in_circle: Option<u64>,
        chunk_points: u64,
        colors: Option<Vec<MandelPixel>>,
    ) -> bool {
        &&& self.same_plan(pre)
        &&& self.next_chunk == pre.next_chunk
        &&& self.killed_chunks@ == pre.killed_chunks@
        &&& self.chunks_in_progress@ == pre.chunks_in_progress@.remove(chunk_index)
        &&& if pre.task_type@ == pi_task() {
            &&& self.completed_chunks == pre.completed_chunks + 1
            &&& self.points_in_circle == pre.points_in_circle + circle_points(points_in_circle)
            &&& self.points_total == pre.points_total + chunk_points
            &&& self.mandel_pixels@ == pre.mandel_pixels@
            &&& if self.completes() {
                &&& self.status == JobStatus::Finished
                &&& self.result == self.partial_result
            } else {
                &&& self.status == pre.status
                &&& self.result == pre.result
            }
        } else if pre.task_type@ == mandelbrot_task() {
            &&& self.completed_chunks == pre.completed_chunks + 1
            &&& self.points_in_circle == pre.points_in_circle
            &&& self.points_total == pre.points_total + chunk_points
            &&& self.mandel_pixels@ == with_pixels(pre.mandel_pixels@, submitted_pixels(colors))
            &&& if self.completes() {
                &&& self.status == JobStatus::Finished
                &&& self.result@ == "Mandelbrot complete"@
                &&& self.partial_result@ == "Done"@
            } else {
                &&& self.status == pre.status
                &&& self.result == pre.result
                &&& self.partial_result == pre.partial_result
            }
        } else {
            &&& self.completed_chunks == pre.completed_chunks
            &&& self.points_in_circle == pre.points_in_circle
            &&& self.points_total == pre.points_total
            &&& self.mandel_pixels@ == pre.mandel_pixels@
            &&& self.status == pre.status
            &&& self.result == pre.result
            &&& self.partial_result == pre.partial_result
        }
    }

    /// How long chunk `chunk_index` has been out at time `now`, where it was
    /// handed out.
    pub open spec fn elapsed_for(self, chunk_index: u64, now: u64) -> Option<u64> {
        if self.chunks_in_progress@.contains_key(chunk_index) {
            Some(saturating_diff(now, self.chunks_in_progress@[chunk_index].assigned_at))
        } else {
            None
        }
    }

    /// `self` and `r` are what `pre` becomes and answers when chunk
    /// `chunk_index` comes back at time `now`.
    pub open spec fn answered(
        self,
        pre: Self,
        chunk_index: u64,
        points_in_circle: Option<u64>,
        chunk_points: u64,
        colors: Option<Vec<MandelPixel>>,
        now: u64,
        r: ChunkReceipt,
    ) -> bool {
        if pre.status == JobStatus::Finished {
            r == ChunkReceipt::JobAlreadyFinished && self == pre
        } else if pre.status == JobStatus::Error {
            r == ChunkReceipt::JobInError && self == pre
        } else if pre.killed_chunks@.contains(chunk_index) {
            r == ChunkReceipt::ChunkKilled && self == pre
        } else {
            &&& r == (ChunkReceipt::Accepted {
                elapsed_secs: pre.elapsed_for(chunk_index, now),
                finished: self.completes(),
            })
            &&& self.took_chunk(pre, chunk_index, points_in_circle, chunk_points, colors)
        }
    }

    /// Takes back chunk `chunk_index` of this job at time `now`.
    ///
    /// A finished or failed job, or a chunk declared overdue, is refused and
    /// the job is left as it was. Otherwise the chunk leaves the chunks in
    /// progress, and its points (π) or pixels (Mandelbrot) are counted; the
    /// π estimate for the new totals is written by `pi_text`. A π job is
    /// finished once its points are all sampled, a Mandelbrot job once every
    /// pixel of the image is rendered.
    pub fn record_chunk<F: Fn(u64, u64) -> String>(
        &mut self,
        chunk_index: u64,
        points_in_circle: Option<u64>,
        chunk_points: u64,
        colors: &Option<Vec<MandelPixel>>,
        now: u64,
        pi_text: F,
    ) -> (r: ChunkReceipt)
        requires
            forall|c: u64, t: u64| pi_text.requires((c, t)),
            old(self).accepts_chunk(chunk_index) ==> old(self).has_room_for(
                points_in_circle,
                chunk_points,
            ),
        ensures
            final(self).answered(*old(self), chunk_index, points_in_circle, chunk_points, *colors, now, r),
            old(self).accepts_chunk(chunk_index) && old(self).task_type@ == pi_task()
                ==> pi_text.ensures(
                (final(self).points_in_circle, final(self).points_total),
                final(self).partial_result,
            ),
    {
        match self.status {
            JobStatus::Finished => {
                return ChunkReceipt::JobAlreadyFinished;
            },
            JobStatus::Error => {
                return ChunkReceipt::JobInError;
            },
            _ => {},
        }
        if self.killed_chunks.contains(&chunk_index) {
            return ChunkReceipt::ChunkKilled;
        }
        let mut elapsed_secs: Option<u64> = None;
        if let Some(assignment) = self.chunks_in_progress.remove(&chunk_index) {
            elapsed_secs = Some(now.saturating_sub(assignment.assigned_at));
        }
        let mut finished = false;
        if is_pi_task(&self.task_type) {
            let inside = match points_in_circle {
                Some(n) => n,
                None => 0,
            };
            self.completed_chunks = self.completed_chunks + 1;
            self.points_in_circle = self.points_in_circle + inside;
            self.points_total = self.points_total + chunk_points;
            self.partial_result = pi_text(self.points_in_circle, self.points_total);
            if self.points_total >= self.points {
                self.status = JobStatus::Finished;
                self.result = self.partial_result.clone();
                finished = true;
            }
        } else if is_mandelbrot_task(&self.task_type) {
            self.completed_chunks = self.completed_chunks + 1;
            self.points_total = self.points_total + chunk_points;
            if let Some(px) = colors {
                write_pixels(&mut self.mandel_pixels, px);
            }
            let res = self.resolution as u64;
            proof {
                assert(res * res <= u64::MAX) by (nonlinear_arith)
                    requires
                        res <= u32::MAX,
                ;
            }
            let total_pixels = res * res;
            if self.mandel_pixels.len() as u64 == total_pixels {
                self.status = JobStatus::Finished;
                self.result = "Mandelbrot complete".to_string();
                self.partial_result = "Done".to_string();
                finished = true;
            }
        }
        ChunkReceipt::Accepted { elapsed_secs, finished }
    }
}

/// What a job answers to a worker asking for work.
#[derive(Clone, Debug)]
pub struct ChunkGrant {
    /// The chunk handed out, or `None` where the job is complete.
    pub chunk_index: Option<u64>,
    pub chunk_size: u64,
    pub job_status: JobStatus,
    pub resolution: u32,
    pub task_type: String,
}

/// A π chunk sized to the worker's measured pace: the pace-based size
/// `predicted`, kept between half and twice the job's chunk size; the job's
/// chunk size where no pace is known.
pub open spec fn paced_size(chunk_size: u64, predicted: Option<u64>) -> int {
    match predicted {
        None => chunk_size as int,
        Some(p) => if p < chunk_size / 2 {
            (chunk_size / 2) as int
        } else if p > chunk_size * 2 {
            chunk_size * 2
        } else {
            p as int
        },
    }
}

/// The size of a π chunk: the paced size, cut to the points that remain,
/// and at least one point.
pub open spec fn pi_grant_size(chunk_size: u64, predicted: Option<u64>, remaining: int) -> int {
    let d = paced_size(chunk_size, predicted);
    let d2 = if d > remaining {
        remaining
    } else {
        d
    };
    if d2 < 1 {
        1
    } else {
        d2
    }
}

impl JobInfo {
    /// The fields that only taking back chunks changes.
    pub open spec fn same_progress(self, other: Self) -> bool {
        &&& self.completed_chunks == other.completed_chunks
        &&& self.points_in_circle == other.points_in_circle
        &&& self.points_total == other.points_total
        &&& self.mandel_pixels@ == other.mandel_pixels@
    }

    /// The size of the next chunk handed out.
    pub open spec fn grant_size(self, predicted: Option<u64>) -> int {
        if self.task_type@ == pi_task() {
            pi_grant_size(self.chunk_size, predicted, self.points - self.points_total)
        } else if self.task_type@ == mandelbrot_task() {
            self.resolution as int
        } else {
            self.chunk_size as int
        }
    }

    /// The chunk counter and the chunk size leave room for handing out one
    /// more chunk.
    pub open spec fn can_grant(self, predicted: Option<u64>) -> bool {
        self.points_total < self.points ==> {
            &&& self.next_chunk < u64::MAX
            &&& (self.task_type@ == pi_task() && predicted is Some) ==> self.chunk_size
                <= u64::MAX / 2
        }
    }

    /// `self` and `g` are what `pre` becomes and answers when it hands a
    /// chunk to `worker_id` at time `now`, the worker's pace being
    /// `predicted`.
    pub open spec fn granted(
        self,
        pre: Self,
        worker_id: String,
        now: u64,
        predicted_chunk: Option<u64>,
        g: ChunkGrant,
    ) -> bool {
        &&& self.same_plan(pre)
        &&& self.same_progress(pre)
        &&& self.partial_result == pre.partial_result
        &&& self.killed_chunks@ == pre.killed_chunks@
        &&& g.resolution == pre.resolution
        &&& g.task_type == pre.task_type
        &&& if pre.points_total >= pre.points {
            &&& g.chunk_index is None
            &&& g.chunk_size == 0
            &&& g.job_status == JobStatus::Finished
            &&& self.status == JobStatus::Finished
            &&& self.result == pre.partial_result
            &&& self.next_chunk == pre.next_chunk
            &&& self.chunks_in_progress@ == pre.chunks_in_progress@
        } else {
            &&& g.chunk_index == Some(pre.next_chunk)
            &&& g.chunk_size == pre.grant_size(predicted_chunk)
            &&& g.job_status == pre.status
            &&& self.status == pre.status
            &&& self.result == pre.result
            &&& self.next_chunk == pre.next_chunk + 1
            &&& self.chunks_in_progress@ == pre.chunks_in_progress@.insert(
                pre.next_chunk,
                ChunkAssignment { worker_id, assigned_at: now },
            )
        }
    }

    /// Hands the next chunk of this job to `worker_id` at time `now`.
    ///
    /// Where every point is sampled the job is finished instead, its result
    /// is its latest estimate, and no chunk is handed out. Otherwise the next
    /// chunk index is recorded as held by the worker; a π chunk is sized to
    /// the worker's pace `predicted_chunk` (see `pi_grant_size`), a
    /// Mandelbrot chunk is one row.
    pub fn grant_chunk(&mut self, worker_id: String, now: u64, predicted_chunk: Option<u64>) -> (g:
        ChunkGrant)
        requires
            old(self).can_grant(predicted_chunk),
        ensures
            final(self).granted(*old(self), worker_id, now, predicted_chunk, g),
    {
        if self.points_total >= self.points {
            self.status = JobStatus::Finished;
            self.result = self.partial_result.clone();
            return ChunkGrant {
                chunk_index: None,
                chunk_size: 0,
                job_status: JobStatus::Finished,
                resolution: self.resolution,
                task_type: self.task_type.clone(),
            };
        }
        let index = self.next_chunk;
        self.next_chunk = self.next_chunk + 1;
        self.chunks_in_progress.insert(index, ChunkAssignment { worker_id, assigned_at: now });
        let remaining = self.points - self.points_total;
        let mut size = self.chunk_size;
        if is_pi_task(&self.task_type) {
            if let Some(p) = predicted_chunk {
                if p < self.chunk_size / 2 {
                    size = self.chunk_size / 2;
                } else if p > self.chunk_size * 2 {
                    size = self.chunk_size * 2;
                } else {
                    size = p;
                }
            }
            if size > remaining {
                size = remaining;
            }
            if size < 1 {
                size = 1;
            }
        } else if is_mandelbrot_task(&self.task_type) {
            size = self.resolution as u64;
        }
        ChunkGrant {
            chunk_index: Some(index),
            chunk_size: size,
            job_status: self.status,
            resolution: self.resolution,
            task_type: self.task_type.clone(),
        }
    }

    /// How long a chunk of this job may stay out: a Mandelbrot row
    /// `MANDELBROT_ROW_TIMEOUT_SECS`, any other chunk `pi_time_limit`.
    pub open spec fn time_limit(self, pi_time_limit: u64) -> u64 {
        if self.task_type@ == mandelbrot_task() {
            MANDELBROT_ROW_TIMEOUT_SECS
        } else {
            pi_time_limit
        }
    }

    /// The chunks in progress that have been out longer than `limit`
    /// seconds at time `now`.
    pub open spec fn overdue_chunks(self, now: u64, limit: u64) -> Set<u64> {
        self.chunks_in_progress@.dom().filter(
            |k: u64| saturating_diff(now, self.chunks_in_progress@[k].assigned_at) > limit,
        )
    }

    /// `self` is `pre` after its overdue chunks were taken back for
    /// reassignment.
    pub open spec fn reassigned_from(self, pre: Self, now: u64, pi_time_limit: u64) -> bool {
        let overdue = pre.overdue_chunks(now, pre.time_limit(pi_time_limit));
        &&& self.same_plan(pre)
        &&& self.same_progress(pre)
        &&& self.status == pre.status
        &&& self.result == pre.result
        &&& self.partial_result == pre.partial_result
        &&& self.chunks_in_progress@ == pre.chunks_in_progress@.remove_keys(overdue)
        &&& self.killed_chunks@ == (if pre.task_type@ == mandelbrot_task() {
            pre.killed_chunks@
        } else {
            pre.killed_chunks@.union(overdue)
        })
        &&& self.next_chunk <= pre.next_chunk
        &&& forall|k: u64| #[trigger] overdue.contains(k) ==> self.next_chunk <= k
        &&& self.next_chunk == pre.next_chunk || overdue.contains(self.next_chunk)
    }
}

proof fn lemma_push_to_set<A>(s: Seq<A>, x: A)
    ensures
        s.push(x).to_set() == s.to_set().insert(x),
{
    assert forall|a: A| #[trigger] s.push(x).contains(a) == s.to_set().insert(x).contains(a) by {
        if s.push(x).contains(a) {
            let w = choose|w: int| 0 <= w < s.push(x).len() && s.push(x)[w] == a;
            if w < s.len() {
                assert(s[w] == a);
            }
        }
        if s.contains(a) {
            let w = choose|w: int| 0 <= w < s.len() && s[w] == a;
            assert(s.push(x)[w] == a);
        }
        assert(s.push(x)[s.len() as int] == x);
    }
    assert(s.push(x).to_set() =~= s.to_set().insert(x));
}

/// The keys of `m` whose chunk has been out longer than `limit` seconds at
/// time `now`.
fn overdue_keys(m: &HashMap<u64, ChunkAssignment>, now: u64, limit: u64) -> (r: Vec<u64>)
    ensures
        forall|j: int|
            0 <= j < r.len() ==> m@.contains_key(#[trigger] r@[j]) && saturating_diff(
                now,
                m@[r@[j]].assigned_at,
            ) > limit,
        forall|k: u64|
            m@.contains_key(k) && saturating_diff(now, m@[k].assigned_at) > limit ==> r@.contains(
                k,
            ),
{
    let mut out: Vec<u64> = Vec::new();
    for kv in it: m.iter()
        invariant
            it.seq() == m.iter().remaining(),
            forall|j: int|
                0 <= j < out.len() ==> m@.contains_key(#[trigger] out@[j]) && saturating_diff(
                    now,
                    m@[out@[j]].assigned_at,
                ) > limit,
            forall|j: int|
                0 <= j < it.index() ==> (saturating_diff(
                    now,
                    m@[*(#[trigger] it.seq()[j]).0].assigned_at,
                ) > limit ==> out@.contains(*it.seq()[j].0)),
    {
        let (k, a) = kv;
        proof {
            assert(m@.contains_key(*k));
            assert(kv == it.seq()[it.index()]);
        }
        let ghost before = out@;
        if now.saturating_sub(a.assigned_at) > limit {
            out.push(*k);
            assert(out@[out.len() - 1] == *k);
        }
        assert forall|x: u64| before.contains(x) implies out@.contains(x) by {
            let j = choose|j: int| 0 <= j < before.len() && before[j] == x;
            assert(out@[j] == x);
        }
    }
    proof {
        let s = m.iter().remaining();
        assert forall|k: u64|
            m@.contains_key(k) && saturating_diff(now, m@[k].assigned_at) > limit implies out@.contains(
            k,
        ) by {
            assert(s.contains((&k, &m@[k])));
        }
    }
    out
}

/// Takes back the chunks of `job` that are overdue at time `now`, so that
/// they are handed out again.
///
/// A chunk is overdue once it has been out longer than the job's time limit
/// (see `JobInfo::time_limit`). Each overdue chunk leaves the chunks in
/// progress and the next chunk index is lowered to it where it is lower;
/// except for a Mandelbrot row, it is also declared killed, so that a late
/// answer for it is refused.
pub fn chunk_reassign(job: &mut JobInfo, now: u64, pi_time_limit: u64)
    ensures
        final(job).reassigned_from(*old(job), now, pi_time_limit),
{
    let mandel = is_mandelbrot_task(&job.task_type);
    let limit = if mandel {
        MANDELBROT_ROW_TIMEOUT_SECS
    } else {
        pi_time_limit
    };
    let overdue = overdue_keys(&job.chunks_in_progress, now, limit);
    let ghost pre = *job;
    let ghost od = pre.overdue_chunks(now, limit);
    let mut i: usize = 0;
    while i < overdue.len()
        invariant
            0 <= i <= overdue.len(),
            mandel == (pre.task_type@ == mandelbrot_task()),
            forall|j: int|
                0 <= j < overdue.len() ==> pre.chunks_in_progress@.contains_key(
                    #[trigger] overdue@[j],
                ) && saturating_diff(now, pre.chunks_in_progress@[overdue@[j]].assigned_at)
                    > limit,
            job.same_plan(pre),
            job.same_progress(pre),
            job.status == pre.status,
            job.result == pre.result,
            job.partial_result == pre.partial_result,
            job.chunks_in_progress@ == pre.chunks_in_progress@.remove_keys(
                overdue@.take(i as int).to_set(),
            ),
            job.killed_chunks@ == (if mandel {
                pre.killed_chunks@
            } else {
                pre.killed_chunks@.union(overdue@.take(i as int).to_set())
            }),
            job.next_chunk <= pre.next_chunk,
            forall|j: int| 0 <= j < i ==> job.next_chunk <= #[trigger] overdue@[j],
            job.next_chunk == pre.next_chunk || overdue@.take(i as int).contains(job.next_chunk),
        decreases overdue.len() - i,
    {
        let k = overdue[i];
        let ghost done = overdue@.take(i as int);
        proof {
            assert(overdue@.take(i + 1) == done.push(k));
            lemma_push_to_set(done, k);
        }
        job.chunks_in_progress.remove(&k);
        if !mandel {
            job.killed_chunks.insert(k);
        }
        if k < job.next_chunk {
            job.next_chunk = k;
        }
        i = i + 1;
        proof {
            let now_done = overdue@.take(i as int);
            assert(pre.chunks_in_progress@.remove_keys(now_done.to_set()) =~= pre.chunks_in_progress@.remove_keys(
                done.to_set(),
            ).remove(k));
            assert(pre.killed_chunks@.union(now_done.to_set()) =~= pre.killed_chunks@.union(
                done.to_set(),
            ).insert(k));
            if job.next_chunk != pre.next_chunk {
                if job.next_chunk == k {
                    assert(now_done[i - 1] == k);
                } else {
                    let w = choose|w: int| 0 <= w < done.len() && done[w] == job.next_chunk;
                    assert(now_done[w] == job.next_chunk);
                }
            }
        }
    }
    proof {
        assert(overdue@.take(overdue.len() as int) == overdue@);
        assert(overdue@.to_set() =~= od);
        assert(limit == pre.time_limit(pi_time_limit));
        assert forall|k: u64| #[trigger] od.contains(k) implies job.next_chunk <= k by {
            assert(overdue@.contains(k));
            let w = choose|w: int| 0 <= w < overdue.len() && overdue@[w] == k;
            assert(job.next_chunk <= overdue@[w]);
        }
    }
}

/// What a job has to show of its progress so far.
#[derive(Debug)]
pub enum JobHistory {
    /// A π job: its estimates over time, which the caller keeps.
    Samples,
    /// A Mandelbrot job: the pixels rendered so far, by index.
    Pixels(Vec<MandelPixel>),
    /// Any other job: nothing.
    Empty,
}

/// `v` lists the pixels of `m`, each once, in order of index.
pub open spec fn lists_pixels(v: Seq<MandelPixel>, m: Map<u64, String>) -> bool {
    &&& v.len() == m.len()
    &&& forall|p: int|
        0 <= p < v.len() ==> m.contains_key((#[trigger] v[p]).index) && m[v[p].index] == v[p].color
    &&& forall|k: u64| m.contains_key(k) ==> exists|p: int| 0 <= p < v.len() && (#[trigger] v[p]).index == k
    &&& forall|p: int, q: int| 0 <= p < q < v.len() ==> (#[trigger] v[p]).index <= (#[trigger] v[q]).index
}

/// The pixels of `m`, in order of index.
pub fn sorted_pixels(m: &HashMap<u64, String>) -> (v: Vec<MandelPixel>)
    ensures
        lists_pixels(v@, m@),
{
    let mut all: Vec<MandelPixel> = Vec::new();
    let mut keys: Vec<u64> = Vec::new();
    for kv in it: m.iter()
        invariant
            it.seq() == m.iter().remaining(),
            all.len() == it.index(),
            keys.len() == all.len(),
            forall|p: int|
                0 <= p < all.len() ==> (#[trigger] all@[p]).index == *it.seq()[p].0 && all@[p].color
                    == *it.seq()[p].1 && keys@[p] == all@[p].index,
    {
        let (k, c) = kv;
        proof {
            assert(kv == it.seq()[it.index()]);
        }
        all.push(MandelPixel { index: *k, color: c.clone() });
        keys.push(*k);
    }
    let ghost seq = m.iter().remaining();
    assert(all.len() == seq.len());
    let order = ordering::stable_order(&keys, false);
    let mut out: Vec<MandelPixel> = Vec::new();
    let mut p: usize = 0;
    while p < order.len()
        invariant
            0 <= p <= order.len(),
            order.len() == keys.len(),
            keys.len() == all.len(),
            ordering::is_stable_order(keys@, false, order@),
            out.len() == p,
            forall|r: int|
                0 <= r < p ==> (#[trigger] out@[r]).index == all@[order@[r] as int].index && out@[r].color
                    == all@[order@[r] as int].color,
        decreases order.len() - p,
    {
        let q = order[p];
        out.push(MandelPixel { index: all[q].index, color: all[q].color.clone() });
        p = p + 1;
    }
    proof {
        assert forall|r: int| 0 <= r < out.len() implies m@.contains_key((#[trigger] out@[r]).index)
            && m@[out@[r].index] == out@[r].color by {
            let q = order@[r] as int;
            assert(all@[q].index == *seq[q].0);
        }
        assert forall|k: u64| m@.contains_key(k) implies exists|r: int|
            0 <= r < out.len() && (#[trigger] out@[r]).index == k by {
            assert(seq.contains((&k, &m@[k])));
            let s = choose|s: int| 0 <= s < seq.len() && seq[s] == (&k, &m@[k]);
            assert(all@[s].index == k);
            assert(order@.contains(s as usize));
            let r = choose|r: int| 0 <= r < order.len() && order@[r] == s as usize;
            assert(out@[r].index == k);
        }
        assert forall|r1: int, r2: int| 0 <= r1 < r2 < out.len() implies (#[trigger] out@[r1]).index
            <= (#[trigger] out@[r2]).index by {
            assert(ordering::precedes(keys@, false, order@[r1], order@[r2]));
        }
    }
    out
}

impl JobInfo {
    /// `h` is what the job has to show: a π job its estimates (kept by the
    /// caller), a Mandelbrot job its pixels in order of index, any other job
    /// nothing.
    pub open spec fn shows(self, h: JobHistory) -> bool {
        if self.task_type@ == pi_task() {
            h is Samples
        } else if self.task_type@ == mandelbrot_task() {
            h matches JobHistory::Pixels(v) && lists_pixels(v@, self.mandel_pixels@)
        } else {
            h is Empty
        }
    }

    /// What the job has to show of its progress.
    pub fn history(&self) -> (h: JobHistory)
        ensures
            self.shows(h),
    {
        if is_pi_task(&self.task_type) {
            JobHistory::Samples
        } else if is_mandelbrot_task(&self.task_type) {
            JobHistory::Pixels(sorted_pixels(&self.mandel_pixels))
        } else {
            JobHistory::Empty
        }
    }
}

impl JobInfo {
    /// A π job in progress with points sampled takes estimate samples.
    pub open spec fn spec_is_sampled(self) -> bool {
        &&& self.status == JobStatus::InProgress
        &&& self.task_type@ == pi_task()
        &&& self.points_total > 0
    }

    /// Whether the job's estimate is sampled over time.
    pub fn is_sampled(&self) -> (r: bool)
        ensures
            r == self.spec_is_sampled(),
    {
        self.status == JobStatus::InProgress && is_pi_task(&self.task_type) && self.points_total > 0
    }
}

/// A new estimate sample is taken where there is none yet, or where the
/// whole percentage done has grown past the last sample's.
pub open spec fn spec_sample_due(current_percent: u32, last_percent: Option<u32>) -> bool {
    match last_percent {
        None => true,
        Some(last) => current_percent > last,
    }
}

/// Whether a new estimate sample is taken (see `spec_sample_due`).
pub fn sample_due(current_percent: u32, last_percent: Option<u32>) -> (r: bool)
    ensures
        r == spec_sample_due(current_percent, last_percent),
{
    match last_percent {
        None => true,
        Some(last) => current_percent > last,
    }
}

} // verus!
