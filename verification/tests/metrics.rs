use env_awareness::metrics::{sorted_copy, summarize, LatencySummary};

#[test]
fn empty_log_summarizes_to_zero() {
    assert_eq!(
        summarize(&vec![]),
        LatencySummary { count: 0, mean: 0, min: 0, max: 0, p50: 0, p95: 0, p99: 0 }
    );
}

#[test]
fn single_entry_is_every_statistic() {
    assert_eq!(
        summarize(&vec![7]),
        LatencySummary { count: 1, mean: 7_000_000, min: 7, max: 7, p50: 7, p95: 7, p99: 7 }
    );
}

#[test]
fn percentiles_are_nearest_rank() {
    // 1..=100 shuffled: index 50 holds 51, index 95 holds 96, index 99 holds 100.
    let mut log: Vec<u64> = (1..=100).collect();
    log.reverse();
    log.swap(3, 77);
    let summary = summarize(&log);
    assert_eq!(summary.count, 100);
    assert_eq!(summary.min, 1);
    assert_eq!(summary.max, 100);
    assert_eq!(summary.p50, 51);
    assert_eq!(summary.p95, 96);
    assert_eq!(summary.p99, 100);
    assert_eq!(summary.mean, 50_500_000);
    // The log itself is left in its order.
    assert_eq!(log[0], 100);
}

#[test]
fn percentiles_of_a_short_log() {
    let summary = summarize(&vec![30, 10, 20]);
    // Indices 1, 2 and 2 of [10, 20, 30].
    assert_eq!((summary.p50, summary.p95, summary.p99), (20, 30, 30));
    assert_eq!((summary.min, summary.max), (10, 30));
    assert_eq!(summary.mean, 20_000_000);
    let summary = summarize(&vec![5, 4]);
    assert_eq!((summary.p50, summary.p95, summary.p99), (5, 5, 5));
    assert_eq!(summary.mean, 4_500_000);
    let summary = summarize(&vec![1, 1, 2]);
    assert_eq!(summary.mean, 1_333_333);
}

#[test]
fn percentiles_are_ordered() {
    let mut seed: u64 = 0x2545_F491_4F6C_DD1D;
    for len in 1..60usize {
        let mut log = Vec::new();
        for _ in 0..len {
            seed ^= seed << 13;
            seed ^= seed >> 7;
            seed ^= seed << 17;
            log.push(seed % 1000);
        }
        let s = summarize(&log);
        assert!(s.min <= s.p50 && s.p50 <= s.p95 && s.p95 <= s.p99 && s.p99 <= s.max);
        let mut expected = log.clone();
        expected.sort_unstable();
        assert_eq!(sorted_copy(&log), expected);
        assert_eq!(s.p50, expected[len / 2]);
        assert_eq!(s.p95, expected[len * 95 / 100]);
        assert_eq!(s.p99, expected[len * 99 / 100]);
    }
}

#[test]
fn large_latencies_do_not_overflow() {
    let summary = summarize(&vec![u64::MAX, u64::MAX, u64::MAX - 1]);
    assert_eq!(summary.max, u64::MAX);
    assert_eq!(summary.min, u64::MAX - 1);
    assert_eq!(summary.mean, ((u64::MAX as u128) * 3 - 1) * 1_000_000 / 3);
}
