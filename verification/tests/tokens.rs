use hydra::ordering::stable_order;
use hydra::tokens::{matching_positions, newest_first};

#[test]
fn newest_first_is_stable_and_limited() {
    let stamps = vec![5u64, 9, 5, 1, 9];
    assert_eq!(newest_first(&stamps, 10), vec![1, 4, 0, 2, 3]);
    assert_eq!(newest_first(&stamps, 2), vec![1, 4]);
    assert!(newest_first(&stamps, 0).is_empty());
    assert!(newest_first(&Vec::new(), 3).is_empty());
}

#[test]
fn matches_are_listed_in_order() {
    let ids: Vec<String> = ["a", "b", "a", "c", "a"].iter().map(|s| s.to_string()).collect();
    assert_eq!(matching_positions(&ids, "a"), vec![0, 2, 4]);
    assert!(matching_positions(&ids, "z").is_empty());
}

#[test]
fn stable_order_ascending_keeps_ties() {
    let keys = vec![3u64, 1, 2, 1, 3];
    assert_eq!(stable_order(&keys, false), vec![1, 3, 2, 0, 4]);
    assert_eq!(stable_order(&keys, true), vec![0, 4, 2, 1, 3]);
    let many: Vec<u64> = (0..1000u64).map(|i| (i * 7919) % 1000).collect();
    let order = stable_order(&many, false);
    for w in order.windows(2) {
        assert!(many[w[0]] <= many[w[1]]);
    }
}
