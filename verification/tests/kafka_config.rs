use pq::kafka_config::{auto_offset_reset, consumer_group_id, fallback_offset, FallbackOffset};

#[test]
fn offset_reset_follows_the_beginning_flag() {
    assert_eq!(auto_offset_reset(true), "earliest");
    assert_eq!(auto_offset_reset(false), "latest");
}

#[test]
fn fallback_offset_follows_the_beginning_flag() {
    assert_eq!(fallback_offset(true), FallbackOffset::Earliest);
    assert_eq!(fallback_offset(false), FallbackOffset::Latest);
}

#[test]
fn group_id_names_version_process_and_start() {
    assert_eq!(consumer_group_id("1.4.0", 305, 0), "pq-1.4.0-pid-305-starttime-0");
    assert_eq!(
        consumer_group_id("x", 0, 1_700_000_000_123),
        "pq-x-pid-0-starttime-1700000000123"
    );
    assert_eq!(
        consumer_group_id("", u32::MAX, u128::MAX),
        format!("pq--pid-{}-starttime-{}", u32::MAX, u128::MAX)
    );
    for pid in [1u32, 9, 10, 99, 100, 4096, 65535] {
        assert_eq!(consumer_group_id("v", pid, 10), format!("pq-v-pid-{}-starttime-10", pid));
    }
}
