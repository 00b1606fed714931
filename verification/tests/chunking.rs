use hydra::chunking::{bounded_chunk_size, plan_chunk_ranges, push_bounded};

#[test]
fn chunk_size_stays_within_bounds() {
    assert_eq!(bounded_chunk_size(false, 5000, 100, 10_000, 1_000_000), 100);
    assert_eq!(bounded_chunk_size(true, 5000, 100, 10_000, 1_000_000), 5000);
    assert_eq!(bounded_chunk_size(true, 50, 100, 10_000, 1_000_000), 100);
    assert_eq!(bounded_chunk_size(true, 50_000, 100, 10_000, 1_000_000), 10_000);
    assert_eq!(bounded_chunk_size(true, 5000, 100, 10_000, 700), 700);
    assert_eq!(bounded_chunk_size(true, 5000, 100, 10_000, 0), 0);
}

#[test]
fn ranges_cover_the_points_in_order() {
    let ranges = plan_chunk_ranges(10, 7, |left: u64| if left > 4 { 4 } else { 3 }).unwrap();
    let spans: Vec<(u64, u64, u64)> = ranges.iter().map(|r| (r.chunk_id, r.start_point, r.end_point)).collect();
    assert_eq!(spans, vec![(7, 0, 4), (8, 4, 8), (9, 8, 10)]);
    assert!(plan_chunk_ranges(0, 0, |_left: u64| 1).unwrap().is_empty());
    let one = plan_chunk_ranges(5, 0, |_left: u64| 1000).unwrap();
    assert_eq!(one.len(), 1);
    assert_eq!((one[0].start_point, one[0].end_point), (0, 5));
}

#[test]
fn history_keeps_newest_entries() {
    let mut h: Vec<u32> = Vec::new();
    for i in 0..5 {
        push_bounded(&mut h, i, 3);
    }
    assert_eq!(h, vec![2, 3, 4]);
    let mut none: Vec<u32> = Vec::new();
    push_bounded(&mut none, 1, 0);
    assert!(none.is_empty());
}

#[test]
fn chunk_numbers_must_not_run_out() {
    let last = plan_chunk_ranges(3, u64::MAX - 3, |_left: u64| 1).unwrap();
    assert_eq!(last.iter().map(|r| r.chunk_id).collect::<Vec<u64>>(), vec![u64::MAX - 3, u64::MAX - 2, u64::MAX - 1]);
    assert!(plan_chunk_ranges(4, u64::MAX - 3, |_left: u64| 1).is_none());
    assert!(plan_chunk_ranges(1, u64::MAX, |_left: u64| 1).is_none());
    assert_eq!(plan_chunk_ranges(u64::MAX, 5, |_left: u64| u64::MAX).unwrap().len(), 1);
}
