//! The scheduler's state: its jobs, its workers and its run queue, and the
//! requests that read and change them.

use crate::job::{chunk_reassign, ChunkGrant, ChunkReceipt, JobHistory, JobInfo, JobStatus, MandelPixel};
use vstd::prelude::*;

verus! {

broadcast use vstd::string::group_string_axioms;

/// What the scheduler counts of one worker.
#[derive(Debug)]
pub struct WorkerStats {
    pub worker_id: String,
    /// Chunks returned by the worker.
    pub total_compute: u64,
    /// Chunks whose timing was measured.
    pub measure_count: u64,
}

// ---------------------------------------------------------------------------
// Finding records by id: the first record with the id counts.
// ---------------------------------------------------------------------------

/// `i` is the first position of `jobs` that holds job `id`.
pub open spec fn is_job_slot(jobs: Seq<JobInfo>, id: Seq<char>, i: int) -> bool {
    &&& 0 <= i < jobs.len()
    &&& jobs[i].job_id@ == id
    &&& forall|j: int| 0 <= j < i ==> (#[trigger] jobs[j]).job_id@ != id
}

/// The first position of `jobs` that holds job `id`, if any.
pub open spec fn job_slot(jobs: Seq<JobInfo>, id: Seq<char>) -> Option<int> {
    if exists|i: int| is_job_slot(jobs, id, i) {
        Some(choose|i: int| is_job_slot(jobs, id, i))
    } else {
        None
    }
}

/// `i` is the first position of `workers` that holds worker `id`.
pub open spec fn is_worker_slot(workers: Seq<WorkerStats>, id: Seq<char>, i: int) -> bool {
    &&& 0 <= i < workers.len()
    &&& workers[i].worker_id@ == id
    &&& forall|j: int| 0 <= j < i ==> (#[trigger] workers[j]).worker_id@ != id
}

/// The first position of `workers` that holds worker `id`, if any.
pub open spec fn worker_slot(workers: Seq<WorkerStats>, id: Seq<char>) -> Option<int> {
    if exists|i: int| is_worker_slot(workers, id, i) {
        Some(choose|i: int| is_worker_slot(workers, id, i))
    } else {
        None
    }
}

/// `p` is the first position of `queue` that holds `id`.
pub open spec fn is_queue_slot(queue: Seq<String>, id: Seq<char>, p: int) -> bool {
    &&& 0 <= p < queue.len()
    &&& queue[p]@ == id
    &&& forall|j: int| 0 <= j < p ==> (#[trigger] queue[j])@ != id
}

/// `queue` without its first entry `id`; unchanged where `id` is absent.
pub open spec fn without_first(queue: Seq<String>, id: Seq<char>) -> Seq<String> {
    if exists|p: int| is_queue_slot(queue, id, p) {
        queue.remove(choose|p: int| is_queue_slot(queue, id, p))
    } else {
        queue
    }
}

pub(crate) proof fn lemma_job_slot(jobs: Seq<JobInfo>, id: Seq<char>, i: int)
    requires
        is_job_slot(jobs, id, i),
    ensures
        job_slot(jobs, id) == Some(i),
{
    let c = choose|c: int| is_job_slot(jobs, id, c);
    if c < i {
        assert(jobs[c].job_id@ != id);
    } else if i < c {
        assert(jobs[i].job_id@ != id);
    }
}

proof fn lemma_worker_slot(workers: Seq<WorkerStats>, id: Seq<char>, i: int)
    requires
        is_worker_slot(workers, id, i),
    ensures
        worker_slot(workers, id) == Some(i),
{
    let c = choose|c: int| is_worker_slot(workers, id, c);
    if c < i {
        assert(workers[c].worker_id@ != id);
    } else if i < c {
        assert(workers[i].worker_id@ != id);
    }
}

proof fn lemma_queue_slot(queue: Seq<String>, id: Seq<char>, p: int)
    requires
        is_queue_slot(queue, id, p),
    ensures
        without_first(queue, id) == queue.remove(p),
{
    let c = choose|c: int| is_queue_slot(queue, id, c);
    if c < p {
        assert(queue[c]@ != id);
    } else if p < c {
        assert(queue[p]@ != id);
    }
}

/// No two jobs share an id.
pub open spec fn unique_job_ids(jobs: Seq<JobInfo>) -> bool {
    forall|i: int, j: int|
        0 <= i < j < jobs.len() ==> (#[trigger] jobs[i]).job_id@ != (#[trigger] jobs[j]).job_id@
}

/// No two workers share an id.
pub open spec fn unique_worker_ids(workers: Seq<WorkerStats>) -> bool {
    forall|i: int, j: int|
        0 <= i < j < workers.len() ==> (#[trigger] workers[i]).worker_id@ != (
        #[trigger] workers[j]).worker_id@
}

/// Where some job holds `id`, a first one does.
pub(crate) proof fn lemma_some_job_slot(jobs: Seq<JobInfo>, id: Seq<char>, j: int)
    requires
        0 <= j < jobs.len(),
        jobs[j].job_id@ == id,
    ensures
        job_slot(jobs, id) is Some,
    decreases j,
{
    if forall|k: int| 0 <= k < j ==> (#[trigger] jobs[k]).job_id@ != id {
        assert(is_job_slot(jobs, id, j));
    } else {
        let k = choose|k: int| 0 <= k < j && (#[trigger] jobs[k]).job_id@ == id;
        lemma_some_job_slot(jobs, id, k);
    }
}

/// Where some worker holds `id`, a first one does.
pub(crate) proof fn lemma_some_worker_slot(workers: Seq<WorkerStats>, id: Seq<char>, j: int)
    requires
        0 <= j < workers.len(),
        workers[j].worker_id@ == id,
    ensures
        worker_slot(workers, id) is Some,
    decreases j,
{
    if forall|k: int| 0 <= k < j ==> (#[trigger] workers[k]).worker_id@ != id {
        assert(is_worker_slot(workers, id, j));
    } else {
        let k = choose|k: int| 0 <= k < j && (#[trigger] workers[k]).worker_id@ == id;
        lemma_some_worker_slot(workers, id, k);
    }
}

/// Appending a job whose id no job holds keeps ids unique.
proof fn lemma_push_new_job(jobs: Seq<JobInfo>, job: JobInfo)
    requires
        unique_job_ids(jobs),
        job_slot(jobs, job.job_id@) is None,
    ensures
        unique_job_ids(jobs.push(job)),
{
    assert forall|i: int, j: int| 0 <= i < j < jobs.push(job).len() implies (#[trigger] jobs.push(
        job,
    )[i]).job_id@ != (#[trigger] jobs.push(job)[j]).job_id@ by {
        if j == jobs.len() && jobs[i].job_id@ == job.job_id@ {
            lemma_some_job_slot(jobs, job.job_id@, i);
        }
    }
}

/// Appending a worker whose id no worker holds keeps ids unique.
proof fn lemma_push_new_worker(workers: Seq<WorkerStats>, w: WorkerStats)
    requires
        unique_worker_ids(workers),
        worker_slot(workers, w.worker_id@) is None,
    ensures
        unique_worker_ids(workers.push(w)),
{
    assert forall|i: int, j: int| 0 <= i < j < workers.push(w).len() implies (
    #[trigger] workers.push(w)[i]).worker_id@ != (#[trigger] workers.push(w)[j]).worker_id@ by {
        if j == workers.len() && workers[i].worker_id@ == w.worker_id@ {
            lemma_some_worker_slot(workers, w.worker_id@, i);
        }
    }
}

/// Replacing a job by one of the same id keeps ids unique.
proof fn lemma_update_same_id(jobs: Seq<JobInfo>, i: int, job: JobInfo)
    requires
        unique_job_ids(jobs),
        0 <= i < jobs.len(),
        job.job_id@ == jobs[i].job_id@,
    ensures
        unique_job_ids(jobs.update(i, job)),
{
    assert forall|a: int, b: int| 0 <= a < b < jobs.update(i, job).len() implies (
    #[trigger] jobs.update(i, job)[a]).job_id@ != (#[trigger] jobs.update(i, job)[b]).job_id@ by {
        assert(jobs[a].job_id@ != jobs[b].job_id@);
    }
}

/// The position of job `id` in `jobs`.
fn find_job(jobs: &Vec<JobInfo>, id: &String) -> (r: Option<usize>)
    ensures
        match r {
            Some(i) => job_slot(jobs@, id@) == Some(i as int),
            None => job_slot(jobs@, id@) is None,
        },
{
    let mut i: usize = 0;
    while i < jobs.len()
        invariant
            0 <= i <= jobs.len(),
            forall|j: int| 0 <= j < i ==> (#[trigger] jobs@[j]).job_id@ != id@,
        decreases jobs.len() - i,
    {
        if jobs[i].job_id == *id {
            proof {
                lemma_job_slot(jobs@, id@, i as int);
            }
            return Some(i);
        }
        i = i + 1;
    }
    None
}

/// The position of worker `id` in `workers`.
fn find_worker(workers: &Vec<WorkerStats>, id: &String) -> (r: Option<usize>)
    ensures
        match r {
            Some(i) => worker_slot(workers@, id@) == Some(i as int),
            None => worker_slot(workers@, id@) is None,
        },
{
    let mut i: usize = 0;
    while i < workers.len()
        invariant
            0 <= i <= workers.len(),
            forall|j: int| 0 <= j < i ==> (#[trigger] workers@[j]).worker_id@ != id@,
        decreases workers.len() - i,
    {
        if workers[i].worker_id == *id {
            proof {
                lemma_worker_slot(workers@, id@, i as int);
            }
            return Some(i);
        }
        i = i + 1;
    }
    None
}

/// Takes the first entry `job_id` out of the run queue; a queue without it
/// is left as it is.
pub fn remove_from_queue(queue: &mut Vec<String>, job_id: &str)
    ensures
        final(queue)@ == without_first(old(queue)@, job_id@),
{
    let target = job_id.to_string();
    let mut i: usize = 0;
    while i < queue.len()
        invariant
            0 <= i <= queue.len(),
            target@ == job_id@,
            *queue == *old(queue),
            forall|j: int| 0 <= j < i ==> (#[trigger] queue@[j])@ != job_id@,
        decreases queue.len() - i,
    {
        if queue[i] == target {
            proof {
                lemma_queue_slot(queue@, job_id@, i as int);
            }
            queue.remove(i);
            return;
        }
        i = i + 1;
    }
}

/// The scheduler: its jobs, its workers, the queue of jobs to hand out and
/// the counter that rotates through them.
pub struct Scheduler {
    jobs: Vec<JobInfo>,
    workers: Vec<WorkerStats>,
    run_queue: Vec<String>,
    round_counter: u64,
}

/// What a status request answers about a job.
#[derive(Debug)]
pub struct JobStatusReport {
    pub status: JobStatus,
    pub result: String,
    pub partial_result: String,
}

impl Scheduler {
    /// The jobs, in the order they were first created.
    pub closed spec fn jobs(&self) -> Seq<JobInfo> {
        self.jobs@
    }

    /// The workers, in the order they registered.
    pub closed spec fn workers(&self) -> Seq<WorkerStats> {
        self.workers@
    }

    /// The jobs waiting to be worked on, in order of creation.
    pub closed spec fn run_queue(&self) -> Seq<String> {
        self.run_queue@
    }

    /// How many jobs have been handed out by rotation.
    pub closed spec fn round_counter(&self) -> u64 {
        self.round_counter
    }

    /// Every job's chunk size fits in 32 bits, as creation makes it.
    pub closed spec fn wf(&self) -> bool {
        &&& forall|i: int| 0 <= i < self.jobs@.len() ==> (#[trigger] self.jobs@[i]).chunk_size <= u32::MAX
        &&& unique_job_ids(self.jobs@)
        &&& unique_worker_ids(self.workers@)
    }

    /// A well-formed scheduler holds one record per job id and per worker
    /// id.
    pub(crate) proof fn lemma_wf_unique(self)
        requires
            self.wf(),
        ensures
            unique_job_ids(self.jobs()),
            unique_worker_ids(self.workers()),
    {
    }

    /// A scheduler with no jobs and no workers.
    pub fn new() -> (s: Scheduler)
        ensures
            s.wf(),
            s.jobs() == Seq::<JobInfo>::empty(),
            s.workers() == Seq::<WorkerStats>::empty(),
            s.run_queue() == Seq::<String>::empty(),
            s.round_counter() == 0,
    {
        Scheduler { jobs: Vec::new(), workers: Vec::new(), run_queue: Vec::new(), round_counter: 0 }
    }

    /// The job with id `job_id`, if any.
    pub fn job(&self, job_id: &String) -> (r: Option<&JobInfo>)
        ensures
            match job_slot(self.jobs(), job_id@) {
                Some(i) => r == Some(&self.jobs()[i]),
                None => r is None,
            },
    {
        match find_job(&self.jobs, job_id) {
            Some(i) => Some(&self.jobs[i]),
            None => None,
        }
    }

    /// The ids of all jobs, in order.
    pub fn job_ids(&self) -> (ids: Vec<String>)
        ensures
            ids@.len() == self.jobs().len(),
            forall|i: int| 0 <= i < ids@.len() ==> (#[trigger] ids@[i]) == self.jobs()[i].job_id,
    {
        let mut ids: Vec<String> = Vec::new();
        let mut i: usize = 0;
        while i < self.jobs.len()
            invariant
                0 <= i <= self.jobs@.len(),
                ids@.len() == i,
                forall|j: int| 0 <= j < i ==> (#[trigger] ids@[j]) == self.jobs@[j].job_id,
            decreases self.jobs@.len() - i,
        {
            ids.push(self.jobs[i].job_id.clone());
            i = i + 1;
        }
        ids
    }

    /// The worker with id `worker_id`, if registered.
    pub fn worker(&self, worker_id: &String) -> (r: Option<&WorkerStats>)
        ensures
            match worker_slot(self.workers(), worker_id@) {
                Some(i) => r == Some(&self.workers()[i]),
                None => r is None,
            },
    {
        match find_worker(&self.workers, worker_id) {
            Some(i) => Some(&self.workers[i]),
            None => None,
        }
    }

    /// The job ids waiting to be worked on.
    pub fn queued_jobs(&self) -> (q: &Vec<String>)
        ensures
            q@ == self.run_queue(),
    {
        &self.run_queue
    }

    /// `self` is `pre` after `create_job` made job `job_id`.
    pub open spec fn created_job(
        self,
        pre: Self,
        job_id: String,
        task_type: Seq<char>,
        points: u64,
        resolution: u32,
        now: u64,
    ) -> bool {
        &&& self.workers() == pre.workers()
        &&& self.round_counter() == pre.round_counter()
        &&& self.run_queue() == pre.run_queue().push(job_id)
        &&& match job_slot(pre.jobs(), job_id@) {
            Some(i) => {
                &&& self.jobs() == pre.jobs().update(i, self.jobs()[i])
                &&& self.jobs()[i].is_new_job(job_id@, task_type, points, resolution, now)
            },
            None => {
                &&& self.jobs().drop_last() == pre.jobs()
                &&& self.jobs().len() == pre.jobs().len() + 1
                &&& self.jobs().last().is_new_job(job_id@, task_type, points, resolution, now)
            },
        }
    }

    /// Creates job `job_id` at time `now` and queues it; a job with the same
    /// id is replaced (see `JobInfo::new_job`).
    pub fn create_job(&mut self, job_id: String, task_type: String, points: u64, resolution: u32, now: u64)
        requires
            old(self).wf(),
        ensures
            final(self).wf(),
            final(self).created_job(*old(self), job_id, task_type@, points, resolution, now),
    {
        let queued = job_id.clone();
        let slot = find_job(&self.jobs, &job_id);
        let job = JobInfo::new_job(job_id, task_type, points, resolution, now);
        match slot {
            Some(i) => {
                proof {
                    lemma_update_same_id(self.jobs@, i as int, job);
                }
                self.jobs.set(i, job);
            },
            None => {
                proof {
                    lemma_push_new_job(self.jobs@, job);
                }
                self.jobs.push(job);
                proof {
                    assert(self.jobs@.drop_last() == old(self).jobs@);
                }
            },
        }
        self.run_queue.push(queued);
    }

    /// What a status request answers about job `job_id` at time `now`; the
    /// request is recorded as the job's latest poll.
    pub fn get_job_status(&mut self, job_id: &String, now: u64) -> (r: Option<JobStatusReport>)
        requires
            old(self).wf(),
        ensures
            final(self).wf(),
            final(self).workers() == old(self).workers(),
            final(self).run_queue() == old(self).run_queue(),
            final(self).round_counter() == old(self).round_counter(),
            match job_slot(old(self).jobs(), job_id@) {
                Some(i) => {
                    &&& r == Some(
                        JobStatusReport {
                            status: old(self).jobs()[i].status,
                            result: old(self).jobs()[i].result,
                            partial_result: old(self).jobs()[i].partial_result,
                        },
                    )
                    &&& final(self).jobs() == old(self).jobs().update(
                        i,
                        JobInfo { last_webapp_poll: now, ..old(self).jobs()[i] },
                    )
                },
                None => r is None && final(self).jobs() == old(self).jobs(),
            },
    {
        match find_job(&self.jobs, job_id) {
            Some(i) => {
                self.jobs[i].last_webapp_poll = now;
                Some(
                    JobStatusReport {
                        status: self.jobs[i].status,
                        result: self.jobs[i].result.clone(),
                        partial_result: self.jobs[i].partial_result.clone(),
                    },
                )
            },
            None => None,
        }
    }

    /// `self` is `pre` after worker `worker_id` registered.
    pub open spec fn registered(self, pre: Self, worker_id: String) -> bool {
        &&& self.jobs() == pre.jobs()
        &&& self.run_queue() == pre.run_queue()
        &&& self.round_counter() == pre.round_counter()
        &&& match worker_slot(pre.workers(), worker_id@) {
            Some(_) => self.workers() == pre.workers(),
            None => self.workers() == pre.workers().push(
                WorkerStats { worker_id, total_compute: 0, measure_count: 0 },
            ),
        }
    }

    /// Registers worker `worker_id`; a worker registered before keeps its
    /// counts.
    pub fn register_worker(&mut self, worker_id: String)
        requires
            old(self).wf(),
        ensures
            final(self).wf(),
            final(self).registered(*old(self), worker_id),
    {
        if find_worker(&self.workers, &worker_id).is_none() {
            let w = WorkerStats { worker_id, total_compute: 0, measure_count: 0 };
            proof {
                lemma_push_new_worker(self.workers@, w);
            }
            self.workers.push(w);
        }
    }

    /// Marks job `job_id` as failed and takes it out of the run queue; an
    /// unknown job is recorded as a failed job of unknown task (see
    /// `JobInfo::error_record`).
    pub fn mark_job_error(&mut self, job_id: String, now: u64)
        requires
            old(self).wf(),
        ensures
            final(self).wf(),
            final(self).workers() == old(self).workers(),
            final(self).round_counter() == old(self).round_counter(),
            final(self).run_queue() == without_first(old(self).run_queue(), job_id@),
            match job_slot(old(self).jobs(), job_id@) {
                Some(i) => final(self).jobs() == old(self).jobs().update(
                    i,
                    JobInfo { status: JobStatus::Error, ..old(self).jobs()[i] },
                ),
                None => {
                    &&& final(self).jobs().drop_last() == old(self).jobs()
                    &&& final(self).jobs().len() == old(self).jobs().len() + 1
                    &&& final(self).jobs().last().is_error_record(job_id@, now)
                },
            },
    {
        match find_job(&self.jobs, &job_id) {
            Some(i) => {
                proof {
                    lemma_update_same_id(
                        self.jobs@,
                        i as int,
                        JobInfo { status: JobStatus::Error, ..self.jobs@[i as int] },
                    );
                }
                self.jobs[i].status = JobStatus::Error;
            },
            None => {
                let record = JobInfo::error_record(job_id.clone(), now);
                proof {
                    lemma_push_new_job(self.jobs@, record);
                }
                self.jobs.push(record);
                proof {
                    assert(self.jobs@.drop_last() == old(self).jobs@);
                }
            },
        }
        remove_from_queue(&mut self.run_queue, job_id.as_str());
    }
}

/// A chunk returned by a worker.
#[derive(Debug)]
pub struct SubmitChunkRequest {
    pub worker_id: String,
    pub job_id: String,
    pub chunk_index: u64,
    pub points_in_circle: Option<u64>,
    pub chunk_points: u64,
    pub mandelbrot_colors: Option<Vec<MandelPixel>>,
}

/// What the scheduler answers to a returned chunk.
#[derive(Debug)]
pub enum SubmitOutcome {
    NotFound,
    /// The job's answer, and what was counted for the worker: its new chunk
    /// total (0 for an unregistered worker or a refused chunk), whether the
    /// chunk's timing was measured, and whether that was its first
    /// measurement.
    Answered { receipt: ChunkReceipt, updated_worker_total: u64, measured: bool, first_measure: bool },
}

impl SubmitOutcome {
    /// The status the scheduler reports for this outcome.
    pub open spec fn spec_status(self) -> Seq<char> {
        match self {
            SubmitOutcome::NotFound => "not_found"@,
            SubmitOutcome::Answered { receipt, .. } => match receipt {
                ChunkReceipt::JobAlreadyFinished => "job_already_finished"@,
                ChunkReceipt::JobInError => "job_in_error"@,
                ChunkReceipt::ChunkKilled => "chunk_killed"@,
                ChunkReceipt::Accepted { .. } => "chunk_submitted"@,
            },
        }
    }

    /// The status the scheduler reports for this outcome.
    pub fn status(&self) -> (s: String)
        ensures
            s@ == self.spec_status(),
    {
        match self {
            SubmitOutcome::NotFound => "not_found".to_string(),
            SubmitOutcome::Answered { receipt, .. } => match receipt {
                ChunkReceipt::JobAlreadyFinished => "job_already_finished".to_string(),
                ChunkReceipt::JobInError => "job_in_error".to_string(),
                ChunkReceipt::ChunkKilled => "chunk_killed".to_string(),
                ChunkReceipt::Accepted { .. } => "chunk_submitted".to_string(),
            },
        }
    }
}

/// A returned chunk's timing is measured where it was out a positive
/// number of seconds and held points.
pub open spec fn is_measured(elapsed: Option<u64>, chunk_points: u64) -> bool {
    match elapsed {
        Some(e) => e > 0 && chunk_points > 0,
        None => false,
    }
}

/// Whether job `id` is in `jobs` and in progress.
pub open spec fn job_in_progress(jobs: Seq<JobInfo>, id: Seq<char>) -> bool {
    match job_slot(jobs, id) {
        Some(i) => jobs[i].status == JobStatus::InProgress,
        None => false,
    }
}

/// The entries of `queue` whose job is in progress, in queue order.
pub open spec fn runnable(jobs: Seq<JobInfo>, queue: Seq<String>) -> Seq<String>
    decreases queue.len(),
{
    if queue.len() == 0 {
        Seq::empty()
    } else {
        let rest = runnable(jobs, queue.drop_last());
        if job_in_progress(jobs, queue.last()@) {
            rest.push(queue.last())
        } else {
            rest
        }
    }
}

impl Scheduler {
    /// Counting `req` overflows none of the job's or the worker's counters.
    pub open spec fn submit_fits(&self, req: SubmitChunkRequest, now: u64) -> bool {
        match job_slot(self.jobs(), req.job_id@) {
            Some(i) => {
                let job = self.jobs()[i];
                job.accepts_chunk(req.chunk_index) ==> {
                    &&& job.has_room_for(req.points_in_circle, req.chunk_points)
                    &&& match worker_slot(self.workers(), req.worker_id@) {
                        Some(w) => {
                            &&& self.workers()[w].total_compute < u64::MAX
                            &&& is_measured(job.elapsed_for(req.chunk_index, now), req.chunk_points)
                                ==> self.workers()[w].measure_count < u64::MAX
                        },
                        None => true,
                    }
                }
            },
            None => true,
        }
    }

    /// Whether counting `req` at time `now` overflows no counter.
    pub fn submission_fits(&self, req: &SubmitChunkRequest, now: u64) -> (r: bool)
        ensures
            r == self.submit_fits(*req, now),
    {
        match find_job(&self.jobs, &req.job_id) {
            None => true,
            Some(i) => {
                let job = &self.jobs[i];
                if job.status == JobStatus::Finished || job.status == JobStatus::Error
                    || job.killed_chunks.contains(&req.chunk_index) {
                    return true;
                }
                let inside = match req.points_in_circle {
                    Some(n) => n,
                    None => 0,
                };
                let room = if crate::job::is_pi_task(&job.task_type) {
                    job.completed_chunks < u64::MAX && job.points_in_circle <= u64::MAX - inside
                        && job.points_total <= u64::MAX - req.chunk_points
                } else if crate::job::is_mandelbrot_task(&job.task_type) {
                    job.completed_chunks < u64::MAX && job.points_total <= u64::MAX
                        - req.chunk_points
                } else {
                    true
                };
                if !room {
                    return false;
                }
                match find_worker(&self.workers, &req.worker_id) {
                    None => true,
                    Some(w) => {
                        let measured = match job.chunks_in_progress.get(&req.chunk_index) {
                            Some(a) => now.saturating_sub(a.assigned_at) > 0 && req.chunk_points > 0,
                            None => false,
                        };
                        self.workers[w].total_compute < u64::MAX && (!measured
                            || self.workers[w].measure_count < u64::MAX)
                    },
                }
            },
        }
    }

    /// Takes back a chunk returned by a worker at time `now`.
    ///
    /// An unknown job answers `NotFound` and nothing changes. Otherwise the
    /// job answers as `JobInfo::record_chunk` says, with `pi_text` writing a
    /// π job's estimate; a job that this chunk finishes leaves the run
    /// queue. For a taken chunk a registered worker's chunk total grows by
    /// one, and where the chunk's timing is measured (see `is_measured`) so
    /// does its measurement count.
    pub fn submit_chunk<F: Fn(u64, u64) -> String>(
        &mut self,
        req: SubmitChunkRequest,
        now: u64,
        pi_text: F,
    ) -> (r: SubmitOutcome)
        requires
            old(self).wf(),
            old(self).submit_fits(req, now),
            forall|c: u64, t: u64| pi_text.requires((c, t)),
        ensures
            final(self).wf(),
            final(self).round_counter() == old(self).round_counter(),
            match job_slot(old(self).jobs(), req.job_id@) {
                None => {
                    &&& r is NotFound
                    &&& final(self).jobs() == old(self).jobs()
                    &&& final(self).workers() == old(self).workers()
                    &&& final(self).run_queue() == old(self).run_queue()
                },
                Some(i) => {
                    let pre = old(self).jobs()[i];
                    let post = final(self).jobs()[i];
                    &&& final(self).jobs() == old(self).jobs().update(i, post)
                    &&& r matches SubmitOutcome::Answered {
                        receipt,
                        updated_worker_total,
                        measured,
                        first_measure,
                    } && {
                        &&& post.answered(
                            pre,
                            req.chunk_index,
                            req.points_in_circle,
                            req.chunk_points,
                            req.mandelbrot_colors,
                            now,
                            receipt,
                        )
                        &&& pre.accepts_chunk(req.chunk_index) && pre.task_type@
                            == crate::job::pi_task() ==> pi_text.ensures(
                            (post.points_in_circle, post.points_total),
                            post.partial_result,
                        )
                        &&& final(self).run_queue() == (if receipt matches ChunkReceipt::Accepted {
                            finished: true,
                            ..
                        } {
                            without_first(old(self).run_queue(), req.job_id@)
                        } else {
                            old(self).run_queue()
                        })
                        &&& match (receipt, worker_slot(old(self).workers(), req.worker_id@)) {
                            (ChunkReceipt::Accepted { elapsed_secs, .. }, Some(w)) => {
                                let before = old(self).workers()[w];
                                let m = is_measured(elapsed_secs, req.chunk_points);
                                &&& measured == m
                                &&& first_measure == (m && before.measure_count == 0)
                                &&& updated_worker_total == before.total_compute + 1
                                &&& final(self).workers() == old(self).workers().update(
                                    w,
                                    WorkerStats {
                                        total_compute: (before.total_compute + 1) as u64,
                                        measure_count: (before.measure_count + if m {
                                            1int
                                        } else {
                                            0int
                                        }) as u64,
                                        ..before
                                    },
                                )
                            },
                            _ => {
                                &&& !measured
                                &&& !first_measure
                                &&& updated_worker_total == 0
                                &&& final(self).workers() == old(self).workers()
                            },
                        }
                    }
                },
            },
    {
        let i = match find_job(&self.jobs, &req.job_id) {
            Some(i) => i,
            None => {
                return SubmitOutcome::NotFound;
            },
        };
        let receipt = self.jobs[i].record_chunk(
            req.chunk_index,
            req.points_in_circle,
            req.chunk_points,
            &req.mandelbrot_colors,
            now,
            pi_text,
        );
        let elapsed = match receipt {
            ChunkReceipt::Accepted { elapsed_secs, finished } => {
                if finished {
                    remove_from_queue(&mut self.run_queue, req.job_id.as_str());
                }
                elapsed_secs
            },
            _ => {
                return SubmitOutcome::Answered {
                    receipt,
                    updated_worker_total: 0,
                    measured: false,
                    first_measure: false,
                };
            },
        };
        match find_worker(&self.workers, &req.worker_id) {
            Some(w) => {
                let measured = match elapsed {
                    Some(e) => e > 0 && req.chunk_points > 0,
                    None => false,
                };
                let first_measure = measured && self.workers[w].measure_count == 0;
                self.workers[w].total_compute = self.workers[w].total_compute + 1;
                if measured {
                    self.workers[w].measure_count = self.workers[w].measure_count + 1;
                }
                SubmitOutcome::Answered {
                    receipt,
                    updated_worker_total: self.workers[w].total_compute,
                    measured,
                    first_measure,
                }
            },
            None => SubmitOutcome::Answered {
                receipt,
                updated_worker_total: 0,
                measured: false,
                first_measure: false,
            },
        }
    }

    /// The queued jobs that are in progress, in queue order.
    pub open spec fn runnable_jobs(&self) -> Seq<String> {
        runnable(self.jobs(), self.run_queue())
    }

    /// The rotation counter has room for one more turn where a job can be
    /// handed out.
    pub open spec fn rotation_fits(&self) -> bool {
        self.runnable_jobs().len() > 0 ==> self.round_counter() < u64::MAX
    }

    /// Whether handing out a job by rotation overflows no counter.
    pub fn can_rotate(&self) -> (r: bool)
        ensures
            r == self.rotation_fits(),
    {
        self.round_counter < u64::MAX || self.collect_runnable().len() == 0
    }

    fn collect_runnable(&self) -> (r: Vec<String>)
        ensures
            r@ == self.runnable_jobs(),
    {
        let mut out: Vec<String> = Vec::new();
        let mut p: usize = 0;
        while p < self.run_queue.len()
            invariant
                0 <= p <= self.run_queue@.len(),
                out@ == runnable(self.jobs@, self.run_queue@.take(p as int)),
            decreases self.run_queue@.len() - p,
        {
            proof {
                assert(self.run_queue@.take(p + 1).drop_last() == self.run_queue@.take(p as int));
            }
            let keep = match find_job(&self.jobs, &self.run_queue[p]) {
                Some(i) => self.jobs[i].status == JobStatus::InProgress,
                None => false,
            };
            if keep {
                out.push(self.run_queue[p].clone());
            }
            p = p + 1;
        }
        proof {
            assert(self.run_queue@.take(self.run_queue@.len() as int) == self.run_queue@);
        }
        out
    }

    /// A job for a worker to work on: the queued jobs in progress are taken
    /// in turn, by a counter that advances with each job handed out.
    pub fn available_job(&mut self) -> (r: Option<String>)
        requires
            old(self).wf(),
            old(self).rotation_fits(),
        ensures
            final(self).wf(),
            final(self).jobs() == old(self).jobs(),
            final(self).workers() == old(self).workers(),
            final(self).run_queue() == old(self).run_queue(),
            old(self).runnable_jobs().len() == 0 ==> r is None && final(self).round_counter()
                == old(self).round_counter(),
            old(self).runnable_jobs().len() > 0 ==> {
                &&& r == Some(
                    old(self).runnable_jobs()[(old(self).round_counter() as usize) as int
                        % old(self).runnable_jobs().len() as int],
                )
                &&& final(self).round_counter() == old(self).round_counter() + 1
            },
    {
        let in_progress = self.collect_runnable();
        if in_progress.len() == 0 {
            return None;
        }
        let idx = (self.round_counter as usize) % in_progress.len();
        self.round_counter = self.round_counter + 1;
        Some(in_progress[idx].clone())
    }

    /// Handing a chunk of job `job_id` out overflows no counter.
    pub open spec fn assign_fits(&self, job_id: Seq<char>) -> bool {
        match job_slot(self.jobs(), job_id) {
            Some(i) => self.jobs()[i].points_total < self.jobs()[i].points ==> self.jobs()[i].next_chunk
                < u64::MAX,
            None => true,
        }
    }

    /// Whether handing a chunk of job `job_id` out overflows no counter.
    pub fn assignment_fits(&self, job_id: &String) -> (r: bool)
        ensures
            r == self.assign_fits(job_id@),
    {
        match find_job(&self.jobs, job_id) {
            Some(i) => self.jobs[i].points_total >= self.jobs[i].points || self.jobs[i].next_chunk
                < u64::MAX,
            None => true,
        }
    }

    /// Hands the next chunk of job `job_id` to `worker_id` at time `now`;
    /// `predicted_chunk` is the size the worker's measured pace calls for,
    /// where it is known. `None` for an unknown job; otherwise the job
    /// answers as `JobInfo::grant_chunk` says, and a job that turns out
    /// complete leaves the run queue.
    pub fn assign_chunk(
        &mut self,
        job_id: &String,
        worker_id: String,
        now: u64,
        predicted_chunk: Option<u64>,
    ) -> (r: Option<ChunkGrant>)
        requires
            old(self).wf(),
            old(self).assign_fits(job_id@),
        ensures
            final(self).wf(),
            final(self).workers() == old(self).workers(),
            final(self).round_counter() == old(self).round_counter(),
            match job_slot(old(self).jobs(), job_id@) {
                None => {
                    &&& r is None
                    &&& final(self).jobs() == old(self).jobs()
                    &&& final(self).run_queue() == old(self).run_queue()
                },
                Some(i) => {
                    let post = final(self).jobs()[i];
                    &&& final(self).jobs() == old(self).jobs().update(i, post)
                    &&& r matches Some(g) && post.granted(
                        old(self).jobs()[i],
                        worker_id,
                        now,
                        predicted_chunk,
                        g,
                    ) && final(self).run_queue() == (if g.chunk_index is None {
                        without_first(old(self).run_queue(), job_id@)
                    } else {
                        old(self).run_queue()
                    })
                },
            },
    {
        let i = match find_job(&self.jobs, job_id) {
            Some(i) => i,
            None => {
                return None;
            },
        };
        proof {
            assert(self.jobs@[i as int].chunk_size <= u32::MAX);
        }
        let g = self.jobs[i].grant_chunk(worker_id, now, predicted_chunk);
        if g.chunk_index.is_none() {
            remove_from_queue(&mut self.run_queue, job_id.as_str());
        }
        Some(g)
    }

    /// What job `job_id` has to show (see `JobInfo::history`); `None` for an
    /// unknown job.
    pub fn get_job_history(&self, job_id: &String) -> (r: Option<JobHistory>)
        ensures
            match job_slot(self.jobs(), job_id@) {
                Some(i) => r matches Some(h) && self.jobs()[i].shows(h),
                None => r is None,
            },
    {
        match find_job(&self.jobs, job_id) {
            Some(i) => Some(self.jobs[i].history()),
            None => None,
        }
    }

    /// One pass of the scheduler's clean-up at time `now`: every job in
    /// progress hands its overdue chunks out again (see `chunk_reassign`),
    /// with `pi_time_limit` giving a job's time limit in whole seconds.
    pub fn cleanup_inactive_jobs<F: Fn(&String) -> u64>(&mut self, now: u64, pi_time_limit: F)
        requires
            old(self).wf(),
            forall|id: &String| pi_time_limit.requires((id,)),
        ensures
            final(self).wf(),
            final(self).workers() == old(self).workers(),
            final(self).run_queue() == old(self).run_queue(),
            final(self).round_counter() == old(self).round_counter(),
            final(self).jobs().len() == old(self).jobs().len(),
            forall|i: int|
                0 <= i < old(self).jobs().len() ==> {
                    let pre = #[trigger] old(self).jobs()[i];
                    let post = final(self).jobs()[i];
                    if pre.status == JobStatus::InProgress {
                        exists|limit: u64|
                            pi_time_limit.ensures((&pre.job_id,), limit) && post.reassigned_from(
                                pre,
                                now,
                                limit,
                            )
                    } else {
                        post == pre
                    }
                },
    {
        let mut i: usize = 0;
        while i < self.jobs.len()
            invariant
                0 <= i <= self.jobs@.len(),
                self.jobs@.len() == old(self).jobs@.len(),
                self.workers@ == old(self).workers@,
                self.run_queue@ == old(self).run_queue@,
                self.round_counter == old(self).round_counter,
                forall|id: &String| pi_time_limit.requires((id,)),
                forall|j: int| i <= j < self.jobs@.len() ==> self.jobs@[j] == old(self).jobs@[j],
                forall|j: int|
                    0 <= j < self.jobs@.len() ==> (#[trigger] self.jobs@[j]).job_id == old(
                        self,
                    ).jobs@[j].job_id,
                forall|j: int|
                    0 <= j < i ==> {
                        let pre = #[trigger] old(self).jobs@[j];
                        let post = self.jobs@[j];
                        if pre.status == JobStatus::InProgress {
                            exists|limit: u64|
                                pi_time_limit.ensures((&pre.job_id,), limit)
                                    && post.reassigned_from(pre, now, limit)
                        } else {
                            post == pre
                        }
                    },
                old(self).wf(),
            decreases self.jobs@.len() - i,
        {
            if self.jobs[i].status == JobStatus::InProgress {
                let limit = pi_time_limit(&self.jobs[i].job_id);
                chunk_reassign(&mut self.jobs[i], now, limit);
            }
            i = i + 1;
        }
        proof {
            assert forall|j: int| 0 <= j < self.jobs@.len() implies (#[trigger] self.jobs@[j]).chunk_size
                <= u32::MAX by {
                assert(old(self).jobs@[j].chunk_size <= u32::MAX);
            }
            assert(unique_job_ids(self.jobs@)) by {
                assert forall|a: int, b: int| 0 <= a < b < self.jobs@.len() implies (
                #[trigger] self.jobs@[a]).job_id@ != (#[trigger] self.jobs@[b]).job_id@ by {
                    assert(old(self).jobs@[a].job_id@ != old(self).jobs@[b].job_id@);
                }
            }
        }
    }
}

} // verus!
