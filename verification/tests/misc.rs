use hydra::clock::current_timestamp;
use hydra::tiling::AdaptiveTiling;

#[test]
fn clock_reads_seconds_since_epoch() {
    let t = current_timestamp();
    assert!(t > 1_600_000_000);
    assert!(current_timestamp() >= t);
}

#[test]
fn tiling_is_created() {
    let _t = AdaptiveTiling::new(256);
}
