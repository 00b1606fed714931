use hydra::job::{sample_due, ChunkReceipt, JobHistory, JobStatus, MandelPixel};
use hydra::scheduler::{remove_from_queue, Scheduler, SubmitChunkRequest, SubmitOutcome};

fn pi_text(c: u64, t: u64) -> String {
    format!("{:.6}", 4.0 * (c as f64 / t as f64))
}

fn s(x: &str) -> String {
    x.to_string()
}

fn submit(job: &str, worker: &str, index: u64, inside: Option<u64>, points: u64) -> SubmitChunkRequest {
    SubmitChunkRequest {
        worker_id: s(worker),
        job_id: s(job),
        chunk_index: index,
        points_in_circle: inside,
        chunk_points: points,
        mandelbrot_colors: None,
    }
}

fn receipt(o: &SubmitOutcome) -> ChunkReceipt {
    match o {
        SubmitOutcome::Answered { receipt, .. } => *receipt,
        SubmitOutcome::NotFound => panic!("job not found"),
    }
}

#[test]
fn create_pi_job_cuts_points_into_chunks() {
    let mut sched = Scheduler::new();
    sched.create_job(s("j1"), s("calculate_pi"), 250_000, 0, 10);
    let job = sched.job(&s("j1")).unwrap();
    assert_eq!(job.total_chunks, 3);
    assert_eq!(job.chunk_size, 100_000);
    assert_eq!(job.status, JobStatus::InProgress);
    assert_eq!(job.created_at, 10);
    assert_eq!(job.last_webapp_poll, 10);
    assert_eq!(job.result, "");
    assert_eq!(sched.queued_jobs(), &vec![s("j1")]);
}

#[test]
fn create_pi_job_with_exact_multiple_of_chunk() {
    let mut sched = Scheduler::new();
    sched.create_job(s("j1"), s("calculate_pi"), 200_000, 0, 0);
    assert_eq!(sched.job(&s("j1")).unwrap().total_chunks, 2);
    sched.create_job(s("j2"), s("calculate_pi"), 0, 0, 0);
    assert_eq!(sched.job(&s("j2")).unwrap().total_chunks, 0);
}

#[test]
fn create_mandelbrot_job_defaults_resolution() {
    let mut sched = Scheduler::new();
    sched.create_job(s("m"), s("calculate_mandelbrot"), 65_536, 0, 0);
    let job = sched.job(&s("m")).unwrap();
    assert_eq!(job.resolution, 256);
    assert_eq!(job.chunk_size, 256);
    assert_eq!(job.total_chunks, 256);
    sched.create_job(s("m2"), s("calculate_mandelbrot"), 16, 4, 0);
    let job = sched.job(&s("m2")).unwrap();
    assert_eq!(job.resolution, 4);
    assert_eq!(job.total_chunks, 4);
}

#[test]
fn create_job_again_replaces_it_and_queues_it_twice() {
    let mut sched = Scheduler::new();
    sched.create_job(s("j"), s("calculate_pi"), 100, 0, 0);
    sched.create_job(s("j"), s("calculate_pi"), 500, 0, 3);
    assert_eq!(sched.job_ids(), vec![s("j")]);
    assert_eq!(sched.job(&s("j")).unwrap().points, 500);
    assert_eq!(sched.queued_jobs(), &vec![s("j"), s("j")]);
}

#[test]
fn status_request_records_poll() {
    let mut sched = Scheduler::new();
    sched.create_job(s("j"), s("calculate_pi"), 100, 0, 1);
    let report = sched.get_job_status(&s("j"), 42).unwrap();
    assert_eq!(report.status, JobStatus::InProgress);
    assert_eq!(report.result, "");
    assert_eq!(sched.job(&s("j")).unwrap().last_webapp_poll, 42);
    assert!(sched.get_job_status(&s("nope"), 42).is_none());
}

#[test]
fn registering_twice_keeps_counts() {
    let mut sched = Scheduler::new();
    sched.register_worker(s("w"));
    sched.create_job(s("j"), s("calculate_pi"), 1_000_000, 0, 0);
    let _ = sched.assign_chunk(&s("j"), s("w"), 0, None);
    let _ = sched.submit_chunk(submit("j", "w", 0, Some(7), 10), 5, pi_text);
    sched.register_worker(s("w"));
    let w = sched.worker(&s("w")).unwrap();
    assert_eq!(w.total_compute, 1);
    assert_eq!(w.measure_count, 1);
}

#[test]
fn pi_chunks_are_sized_to_the_worker_pace() {
    let mut sched = Scheduler::new();
    sched.create_job(s("j"), s("calculate_pi"), 10_000_000, 0, 0);
    let g = sched.assign_chunk(&s("j"), s("w"), 0, None).unwrap();
    assert_eq!(g.chunk_index, Some(0));
    assert_eq!(g.chunk_size, 100_000);
    let g = sched.assign_chunk(&s("j"), s("w"), 0, Some(10)).unwrap();
    assert_eq!(g.chunk_index, Some(1));
    assert_eq!(g.chunk_size, 50_000);
    let g = sched.assign_chunk(&s("j"), s("w"), 0, Some(900_000)).unwrap();
    assert_eq!(g.chunk_size, 200_000);
    let g = sched.assign_chunk(&s("j"), s("w"), 0, Some(123_456)).unwrap();
    assert_eq!(g.chunk_size, 123_456);
    assert_eq!(g.job_status, JobStatus::InProgress);
    assert_eq!(g.task_type, "calculate_pi");
    assert_eq!(sched.job(&s("j")).unwrap().next_chunk, 4);
}

#[test]
fn pi_chunk_is_cut_to_remaining_points() {
    let mut sched = Scheduler::new();
    sched.create_job(s("j"), s("calculate_pi"), 30, 0, 0);
    let g = sched.assign_chunk(&s("j"), s("w"), 0, None).unwrap();
    assert_eq!(g.chunk_size, 30);
}

#[test]
fn mandelbrot_chunk_is_one_row() {
    let mut sched = Scheduler::new();
    sched.create_job(s("m"), s("calculate_mandelbrot"), 9, 3, 0);
    let g = sched.assign_chunk(&s("m"), s("w"), 0, Some(5)).unwrap();
    assert_eq!(g.chunk_size, 3);
    assert_eq!(g.resolution, 3);
}

#[test]
fn assigning_a_complete_job_finishes_it() {
    let mut sched = Scheduler::new();
    sched.create_job(s("j"), s("calculate_pi"), 0, 0, 0);
    let g = sched.assign_chunk(&s("j"), s("w"), 0, None).unwrap();
    assert_eq!(g.chunk_index, None);
    assert_eq!(g.chunk_size, 0);
    assert_eq!(g.job_status, JobStatus::Finished);
    assert!(sched.queued_jobs().is_empty());
    assert!(sched.assign_chunk(&s("none"), s("w"), 0, None).is_none());
}

#[test]
fn pi_job_finishes_when_all_points_are_in() {
    let mut sched = Scheduler::new();
    sched.register_worker(s("w"));
    sched.create_job(s("j"), s("calculate_pi"), 200, 0, 0);
    let _ = sched.assign_chunk(&s("j"), s("w"), 100, None);
    let _ = sched.assign_chunk(&s("j"), s("w"), 100, None);
    let o = sched.submit_chunk(submit("j", "w", 0, Some(80), 100), 104, pi_text);
    match o {
        SubmitOutcome::Answered { receipt, updated_worker_total, measured, first_measure } => {
            assert_eq!(receipt, ChunkReceipt::Accepted { elapsed_secs: Some(4), finished: false });
            assert_eq!(updated_worker_total, 1);
            assert!(measured);
            assert!(first_measure);
        }
        SubmitOutcome::NotFound => panic!(),
    }
    assert_eq!(o.status(), "chunk_submitted");
    let job = sched.job(&s("j")).unwrap();
    assert_eq!(job.partial_result, "3.200000");
    assert_eq!(job.status, JobStatus::InProgress);
    let o = sched.submit_chunk(submit("j", "w", 1, Some(77), 100), 100, pi_text);
    assert_eq!(receipt(&o), ChunkReceipt::Accepted { elapsed_secs: Some(0), finished: true });
    match o {
        SubmitOutcome::Answered { measured, first_measure, updated_worker_total, .. } => {
            assert!(!measured);
            assert!(!first_measure);
            assert_eq!(updated_worker_total, 2);
        }
        SubmitOutcome::NotFound => panic!(),
    }
    let job = sched.job(&s("j")).unwrap();
    assert_eq!(job.status, JobStatus::Finished);
    assert_eq!(job.result, "3.140000");
    assert_eq!(job.points_in_circle, 157);
    assert_eq!(job.completed_chunks, 2);
    assert!(sched.queued_jobs().is_empty());
    assert_eq!(sched.worker(&s("w")).unwrap().measure_count, 1);
}

#[test]
fn submissions_to_finished_failed_or_unknown_jobs_are_refused() {
    let mut sched = Scheduler::new();
    sched.create_job(s("done"), s("calculate_pi"), 10, 0, 0);
    let _ = sched.submit_chunk(submit("done", "w", 0, Some(8), 10), 0, pi_text);
    let o = sched.submit_chunk(submit("done", "w", 1, Some(8), 10), 0, pi_text);
    assert_eq!(receipt(&o), ChunkReceipt::JobAlreadyFinished);
    assert_eq!(o.status(), "job_already_finished");
    assert_eq!(sched.job(&s("done")).unwrap().points_total, 10);
    sched.create_job(s("bad"), s("calculate_pi"), 10, 0, 0);
    sched.mark_job_error(s("bad"), 0);
    let o = sched.submit_chunk(submit("bad", "w", 0, Some(8), 10), 0, pi_text);
    assert_eq!(receipt(&o), ChunkReceipt::JobInError);
    assert_eq!(o.status(), "job_in_error");
    let o = sched.submit_chunk(submit("ghost", "w", 0, Some(8), 10), 0, pi_text);
    assert!(matches!(o, SubmitOutcome::NotFound));
    assert_eq!(o.status(), "not_found");
}

#[test]
fn unregistered_worker_gets_no_total() {
    let mut sched = Scheduler::new();
    sched.create_job(s("j"), s("calculate_pi"), 1000, 0, 0);
    let o = sched.submit_chunk(submit("j", "stranger", 0, Some(8), 10), 0, pi_text);
    match o {
        SubmitOutcome::Answered { updated_worker_total, measured, .. } => {
            assert_eq!(updated_worker_total, 0);
            assert!(!measured);
        }
        SubmitOutcome::NotFound => panic!(),
    }
}

#[test]
fn overdue_pi_chunk_is_killed_and_reassigned() {
    let mut sched = Scheduler::new();
    sched.create_job(s("j"), s("calculate_pi"), 1_000_000, 0, 0);
    let _ = sched.assign_chunk(&s("j"), s("w"), 0, None);
    let _ = sched.assign_chunk(&s("j"), s("w"), 90, None);
    let _ = sched.assign_chunk(&s("j"), s("w"), 100, None);
    sched.cleanup_inactive_jobs(100, |_id: &String| 50);
    let job = sched.job(&s("j")).unwrap();
    assert!(job.killed_chunks.contains(&0));
    assert!(!job.killed_chunks.contains(&1));
    assert!(!job.chunks_in_progress.contains_key(&0));
    assert!(job.chunks_in_progress.contains_key(&1));
    assert_eq!(job.next_chunk, 0);
    let o = sched.submit_chunk(submit("j", "w", 0, Some(8), 10), 101, pi_text);
    assert_eq!(receipt(&o), ChunkReceipt::ChunkKilled);
    assert_eq!(o.status(), "chunk_killed");
    assert_eq!(sched.job(&s("j")).unwrap().points_total, 0);
    let g = sched.assign_chunk(&s("j"), s("w"), 102, None).unwrap();
    assert_eq!(g.chunk_index, Some(0));
}

#[test]
fn overdue_mandelbrot_row_is_reassigned_not_killed() {
    let mut sched = Scheduler::new();
    sched.create_job(s("m"), s("calculate_mandelbrot"), 4, 2, 0);
    let _ = sched.assign_chunk(&s("m"), s("w"), 0, None);
    let _ = sched.assign_chunk(&s("m"), s("w"), 0, None);
    sched.cleanup_inactive_jobs(5, |_id: &String| 0);
    assert_eq!(sched.job(&s("m")).unwrap().chunks_in_progress.len(), 2);
    sched.cleanup_inactive_jobs(6, |_id: &String| 0);
    let job = sched.job(&s("m")).unwrap();
    assert!(job.chunks_in_progress.is_empty());
    assert!(job.killed_chunks.is_empty());
    assert_eq!(job.next_chunk, 0);
}

#[test]
fn cleanup_leaves_finished_jobs_alone() {
    let mut sched = Scheduler::new();
    sched.create_job(s("j"), s("calculate_pi"), 1_000, 0, 0);
    let _ = sched.assign_chunk(&s("j"), s("w"), 0, None);
    sched.mark_job_error(s("j"), 0);
    sched.cleanup_inactive_jobs(1_000, |_id: &String| 1);
    assert!(sched.job(&s("j")).unwrap().chunks_in_progress.contains_key(&0));
}

#[test]
fn mandelbrot_job_finishes_with_every_pixel() {
    let mut sched = Scheduler::new();
    sched.create_job(s("m"), s("calculate_mandelbrot"), 4, 2, 0);
    let px = |i: u64, c: &str| MandelPixel { index: i, color: s(c) };
    let mut req = submit("m", "w", 1, None, 2);
    req.mandelbrot_colors = Some(vec![px(3, "#000003"), px(2, "#000002")]);
    let o = sched.submit_chunk(req, 0, pi_text);
    assert_eq!(receipt(&o), ChunkReceipt::Accepted { elapsed_secs: None, finished: false });
    let mut req = submit("m", "w", 0, None, 2);
    req.mandelbrot_colors = Some(vec![px(1, "#000001"), px(0, "#000000"), px(1, "#0000FF")]);
    let o = sched.submit_chunk(req, 0, pi_text);
    assert_eq!(receipt(&o), ChunkReceipt::Accepted { elapsed_secs: None, finished: true });
    let job = sched.job(&s("m")).unwrap();
    assert_eq!(job.status, JobStatus::Finished);
    assert_eq!(job.result, "Mandelbrot complete");
    assert_eq!(job.partial_result, "Done");
    assert_eq!(job.points_total, 4);
    match sched.get_job_history(&s("m")).unwrap() {
        JobHistory::Pixels(v) => {
            let idx: Vec<u64> = v.iter().map(|p| p.index).collect();
            assert_eq!(idx, vec![0, 1, 2, 3]);
            assert_eq!(v[1].color, "#0000FF");
            assert_eq!(v[3].color, "#000003");
        }
        _ => panic!("expected pixels"),
    }
}

#[test]
fn history_by_task() {
    let mut sched = Scheduler::new();
    sched.create_job(s("p"), s("calculate_pi"), 4, 0, 0);
    sched.mark_job_error(s("x"), 0);
    assert!(matches!(sched.get_job_history(&s("p")), Some(JobHistory::Samples)));
    assert!(matches!(sched.get_job_history(&s("x")), Some(JobHistory::Empty)));
    assert!(sched.get_job_history(&s("none")).is_none());
}

#[test]
fn available_job_rotates_over_jobs_in_progress() {
    let mut sched = Scheduler::new();
    assert_eq!(sched.available_job(), None);
    sched.create_job(s("a"), s("calculate_pi"), 100, 0, 0);
    sched.create_job(s("b"), s("calculate_pi"), 100, 0, 0);
    sched.create_job(s("c"), s("calculate_pi"), 100, 0, 0);
    sched.mark_job_error(s("b"), 0);
    assert_eq!(sched.available_job(), Some(s("a")));
    assert_eq!(sched.available_job(), Some(s("c")));
    assert_eq!(sched.available_job(), Some(s("a")));
    assert_eq!(sched.available_job(), Some(s("c")));
}

#[test]
fn marking_unknown_job_records_failure() {
    let mut sched = Scheduler::new();
    sched.mark_job_error(s("ghost"), 9);
    let job = sched.job(&s("ghost")).unwrap();
    assert_eq!(job.status, JobStatus::Error);
    assert_eq!(job.task_type, "unknown");
    assert_eq!(job.created_at, 9);
    assert!(sched.queued_jobs().is_empty());
}

#[test]
fn remove_from_queue_takes_first_entry_only() {
    let mut q = vec![s("a"), s("b"), s("a")];
    remove_from_queue(&mut q, "a");
    assert_eq!(q, vec![s("b"), s("a")]);
    remove_from_queue(&mut q, "z");
    assert_eq!(q, vec![s("b"), s("a")]);
}

#[test]
fn overflow_checks() {
    let mut sched = Scheduler::new();
    sched.create_job(s("j"), s("calculate_pi"), u64::MAX, 0, 0);
    let req = submit("j", "w", 0, Some(1), 10);
    assert!(sched.submission_fits(&req, 0));
    let _ = sched.submit_chunk(req, 0, pi_text);
    let big = submit("j", "w", 1, Some(1), u64::MAX);
    assert!(!sched.submission_fits(&big, 0));
    assert!(sched.assignment_fits(&s("j")));
    assert!(sched.can_rotate());
}

#[test]
fn sampling_rules() {
    let mut sched = Scheduler::new();
    sched.create_job(s("j"), s("calculate_pi"), 100, 0, 0);
    assert!(!sched.job(&s("j")).unwrap().is_sampled());
    let _ = sched.submit_chunk(submit("j", "w", 0, Some(1), 10), 0, pi_text);
    assert!(sched.job(&s("j")).unwrap().is_sampled());
    assert!(sample_due(10, None));
    assert!(sample_due(11, Some(10)));
    assert!(!sample_due(10, Some(10)));
}
