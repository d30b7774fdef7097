use hdrhistogram::Histogram;
use speedt::stats::LatencySummary;

fn reference(samples: &[u64]) -> Histogram<u64> {
    let mut h: Histogram<u64> = Histogram::new(3).unwrap();
    for v in samples {
        h.record((*v).max(1)).unwrap();
    }
    h
}

fn agrees(samples: Vec<u64>) {
    let h = reference(&samples);
    let s = LatencySummary::from_micros(&samples);
    assert_eq!(s.count, h.len());
    assert_eq!(s.min_us, h.min());
    assert_eq!(s.max_us, h.max());
    assert_eq!(s.mean_us_bits, h.mean().to_bits());
    assert_eq!(s.jitter_us_bits, h.stdev().to_bits());
    assert_eq!(s.p50_us, h.value_at_quantile(0.50));
    assert_eq!(s.p90_us, h.value_at_quantile(0.90));
    assert_eq!(s.p95_us, h.value_at_quantile(0.95));
    assert_eq!(s.p99_us, h.value_at_quantile(0.99));
    assert_eq!(s.raw_samples_us, samples);
}

/// The least value in the bucket of `v`, and how many values share the bucket.
fn bucket(v: u64) -> (u64, u64) {
    let mut width = 1u64;
    let mut x = v;
    while x >= 2048 {
        x /= 2;
        width *= 2;
    }
    (v - v % width, width)
}

fn ceiling(v: u64) -> u64 {
    let (floor, width) = bucket(v);
    floor.checked_add(width).map_or(u64::MAX - 1, |end| end - 1)
}

fn spread(n: u64) -> Vec<u64> {
    (0..n).map(|i| (i * 2_654_435_761) % 400_000).collect()
}

#[test]
fn latency_summary_of_nothing() {
    let s = LatencySummary::from_micros(&vec![]);
    assert_eq!(s.count, 0);
    assert_eq!((s.min_us, s.max_us, s.p50_us, s.p90_us, s.p95_us, s.p99_us), (0, 0, 0, 0, 0, 0));
    assert_eq!(f64::from_bits(s.mean_us_bits), 0.0);
    assert_eq!(f64::from_bits(s.jitter_us_bits), 0.0);
    assert!(s.raw_samples_us.is_empty());
}

#[test]
fn latency_summary_of_three_samples() {
    let s = LatencySummary::from_micros(&vec![3000, 1000, 2000]);
    assert_eq!(s.count, 3);
    assert_eq!(s.min_us, 1000);
    assert_eq!(s.p50_us, 2000);
    // From 2048 on, two neighbouring values share a bucket.
    assert_eq!(s.p90_us, 3001);
    assert_eq!(s.p99_us, 3001);
    assert_eq!(s.max_us, 3001);
    assert!((f64::from_bits(s.mean_us_bits) - 6001.0 / 3.0).abs() < 1e-9);
    assert!((f64::from_bits(s.jitter_us_bits) - 816.9).abs() < 0.1);
    assert_eq!(s.raw_samples_us, vec![3000, 1000, 2000]);
}

#[test]
fn a_round_trip_of_zero_counts_as_one() {
    let s = LatencySummary::from_micros(&vec![0]);
    assert_eq!((s.count, s.min_us, s.max_us, s.p50_us), (1, 1, 1, 1));
    assert_eq!(s.raw_samples_us, vec![0]);
}

#[test]
fn latency_summary_agrees_with_the_histogram() {
    agrees(vec![1]);
    agrees(vec![15_012, 15_498, 14_871, 16_203, 90_417]);
    agrees(spread(1));
    agrees(spread(100));
    agrees(spread(4000));
    agrees(vec![u64::MAX, 5]);
}

#[test]
fn the_greatest_round_trip() {
    let s = LatencySummary::from_micros(&vec![u64::MAX]);
    assert_eq!(s.min_us, u64::MAX);
    assert_eq!(s.max_us, u64::MAX);
    assert_eq!(s.p50_us, u64::MAX - 1);
}

#[test]
fn extremes_are_the_ends_of_their_buckets() {
    for samples in [vec![2047, 2048, 2049], vec![123_457, 99_999], spread(500), vec![1 << 40, 9]] {
        let s = LatencySummary::from_micros(&samples);
        let recorded: Vec<u64> = samples.iter().map(|v| (*v).max(1)).collect();
        let least = *recorded.iter().min().unwrap();
        let greatest = *recorded.iter().max().unwrap();
        assert_eq!(s.min_us, bucket(least).0);
        assert_eq!(s.max_us, ceiling(greatest));
    }
}

#[test]
fn percentiles_split_the_samples() {
    for n in [1u64, 2, 3, 10, 20, 99, 100, 101, 1000] {
        let samples = spread(n);
        let recorded: Vec<u64> = samples.iter().map(|v| (*v).max(1)).collect();
        let s = LatencySummary::from_micros(&samples);
        for (pct, r) in [(50u64, s.p50_us), (90, s.p90_us), (95, s.p95_us), (99, s.p99_us)] {
            let through = recorded.iter().filter(|v| bucket(**v).0 <= bucket(r).0).count() as u64;
            let below = recorded.iter().filter(|v| **v < bucket(r).0).count() as u64;
            assert!(pct * n <= 100 * through, "{} {}", n, pct);
            assert!(100 * below < pct * n, "{} {}", n, pct);
            assert!(recorded.iter().any(|v| ceiling(bucket(*v).0) == r));
        }
    }
}

#[test]
fn the_median_of_two_is_the_lesser() {
    let s = LatencySummary::from_micros(&vec![2000, 1000]);
    assert_eq!(s.p50_us, 1000);
    assert_eq!(s.p90_us, 2000);
}

#[test]
fn latency_percentiles_are_in_order() {
    let s = LatencySummary::from_micros(&spread(777));
    assert!(s.min_us <= s.p50_us && s.p50_us <= s.p90_us && s.p90_us <= s.p95_us);
    assert!(s.p95_us <= s.p99_us && s.p99_us <= s.max_us);
}

#[test]
fn latency_figures_show_the_samples_of_their_rank() {
    for n in [1u64, 2, 10, 100, 101, 777, 3000] {
        let samples = spread(n);
        let mut ranked: Vec<u64> = samples.iter().map(|v| (*v).max(1)).collect();
        ranked.sort();
        let s = LatencySummary::from_micros(&samples);
        for (pct, r) in [(50u64, s.p50_us), (90, s.p90_us), (95, s.p95_us), (99, s.p99_us)] {
            let x = ranked[((pct * n).div_ceil(100) - 1) as usize];
            assert!(x <= r && 1024 * (r - x) <= x, "{} {} {} {}", n, pct, x, r);
        }
        let (least, greatest) = (ranked[0], ranked[ranked.len() - 1]);
        assert!(0 < s.min_us && s.min_us <= least && 1024 * (least - s.min_us) <= least);
        assert!(greatest <= s.max_us && 1024 * (s.max_us - greatest) <= greatest);
    }
}

#[test]
fn ranks_are_exact_where_they_are_whole() {
    for k in 1..200u64 {
        let n = 100 * k;
        let h = reference(&(1..=n).collect::<Vec<u64>>());
        for pct in [50u64, 90, 95, 99] {
            let r = h.value_at_percentile(pct as f64);
            assert_eq!(r, ceiling(bucket(pct * k).0), "{} {}", n, pct);
        }
    }
}

#[test]
fn latency_summary_does_not_depend_on_the_order() {
    let a = LatencySummary::from_micros(&vec![9000, 100, 0, 5000, 100]);
    let b = LatencySummary::from_micros(&vec![100, 5000, 100, 9000, 0]);
    assert_eq!((a.count, a.min_us, a.max_us), (b.count, b.min_us, b.max_us));
    assert_eq!((a.mean_us_bits, a.jitter_us_bits), (b.mean_us_bits, b.jitter_us_bits));
    assert_eq!((a.p50_us, a.p90_us, a.p95_us, a.p99_us), (b.p50_us, b.p90_us, b.p95_us, b.p99_us));
    assert_ne!(a.raw_samples_us, b.raw_samples_us);
}
