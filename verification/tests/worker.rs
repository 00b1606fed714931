use hydra::worker::{
    compute_mandel_row, decode_pi_result, do_monte_carlo, encode_mandelbrot_chunk, encode_pi_chunk, is_local_scheduler,
    parse_mandelbrot_chunk, parse_pi_chunk, plan_chunk_work, ChunkWork,
};

#[test]
fn pi_chunk_parameters_round_trip() {
    for n in [0u64, 1, 1000, 123_456_789, u64::MAX] {
        let data = encode_pi_chunk(n);
        assert_eq!(data, n.to_le_bytes().to_vec());
        assert_eq!(parse_pi_chunk(&data), n);
    }
}

#[test]
fn short_pi_parameters_default_to_a_thousand_points() {
    assert_eq!(parse_pi_chunk(&[]), 1000);
    assert_eq!(parse_pi_chunk(&[1, 2, 3, 4, 5, 6, 7]), 1000);
    assert_eq!(parse_pi_chunk(&[1, 0, 0, 0, 0, 0, 0, 0, 9, 9]), 1);
}

#[test]
fn mandelbrot_chunk_parameters_round_trip() {
    let data = encode_mandelbrot_chunk(7, 256);
    assert_eq!(data, vec![7, 0, 0, 0, 0, 1, 0, 0]);
    assert_eq!(parse_mandelbrot_chunk(&data), Some((7, 256)));
    assert_eq!(parse_mandelbrot_chunk(&data[..7]), None);
}

#[test]
fn pi_result_is_read_back() {
    assert_eq!(decode_pi_result(&785u64.to_le_bytes()), 785);
    assert_eq!(decode_pi_result(&[1, 1, 0, 0, 0, 0, 0, 0, 5]), 257);
}

#[test]
fn mandelbrot_row_numbers_pixels_row_by_row() {
    let row = compute_mandel_row(2, 3, |r: u32, c: u32| format!("{}:{}", r, c));
    let idx: Vec<u64> = row.iter().map(|p| p.index).collect();
    assert_eq!(idx, vec![6, 7, 8]);
    assert_eq!(row[1].color, "2:1");
    assert!(compute_mandel_row(0, 0, |_r: u32, _c: u32| String::new()).is_empty());
    let last = compute_mandel_row(u32::MAX, 2, |_r: u32, _c: u32| String::new());
    assert_eq!(last[1].index, (u32::MAX as u64) * 2 + 1);
}

#[test]
fn plan_follows_task_type() {
    let pi = "calculate_pi".to_string();
    let mandel = "calculate_mandelbrot".to_string();
    assert!(matches!(plan_chunk_work(None, 5, 0, &pi), ChunkWork::Idle));
    assert!(matches!(
        plan_chunk_work(Some(3), 5000, 0, &pi),
        ChunkWork::Pi { chunk_index: 3, points: 5000 }
    ));
    assert!(matches!(
        plan_chunk_work(Some(4), 256, 256, &mandel),
        ChunkWork::Mandelbrot { chunk_index: 4, row: 4, resolution: 256 }
    ));
    assert!(matches!(
        plan_chunk_work(Some((1u64 << 32) + 5), 256, 256, &mandel),
        ChunkWork::Mandelbrot { row: 5, .. }
    ));
    assert!(matches!(plan_chunk_work(Some(1), 1, 1, &"other".to_string()), ChunkWork::Unknown));
}

#[test]
fn local_scheduler_is_recognised_by_loopback_address() {
    assert!(is_local_scheduler("http://127.0.0.1:8443"));
    assert!(is_local_scheduler("127.0.0.1"));
    assert!(!is_local_scheduler("https://scheduler.hydracompute.com"));
    assert!(!is_local_scheduler("http://127.0.0.2:8443"));
    assert!(!is_local_scheduler("127.0.0."));
    assert!(!is_local_scheduler(""));
    assert!(is_local_scheduler("héllo://1127.0.0.1"));
}

#[test]
fn monte_carlo_counts_landings_inside() {
    assert_eq!(do_monte_carlo(0, || true), 0);
    assert_eq!(do_monte_carlo(10, || true), 10);
    assert_eq!(do_monte_carlo(10, || false), 0);
    let drawn = std::cell::Cell::new(0u64);
    let count = do_monte_carlo(9, || {
        drawn.set(drawn.get() + 1);
        drawn.get() % 3 == 0
    });
    assert_eq!((count, drawn.get()), (3, 9));
}
