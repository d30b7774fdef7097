use speedt::order::{percentile, quantile, sorted};
use speedt::stats::{bufferbloat, bytes_to_mbps, BufferbloatGrade, Ratio, Summary};
use speedt::wide::Wide;

fn over(scaled: u128, den: u128) -> Ratio {
    Ratio { whole: scaled / den, num: scaled % den, den }
}

fn hundredths(scaled: u128) -> Ratio {
    over(scaled, 100)
}

fn scaled(r: Ratio) -> u128 {
    r.whole * r.den + r.num
}

#[test]
fn sorting_keeps_every_sample() {
    assert_eq!(sorted(&vec![5, 1, 4, 1, 3]), vec![1, 1, 3, 4, 5]);
    assert_eq!(sorted(&vec![]), Vec::<u128>::new());
    assert_eq!(sorted(&vec![u128::MAX, 0]), vec![0, u128::MAX]);
    let mut xs: Vec<u128> = (0..1000u128).map(|i| i * 7919 % 1009).collect();
    let ours = sorted(&xs);
    xs.sort();
    assert_eq!(ours, xs);
}

#[test]
fn percentiles_interpolate_between_neighbours() {
    let xs = vec![10, 20, 40];
    assert_eq!(percentile(&xs, 0), hundredths(1000));
    assert_eq!(percentile(&xs, 50), hundredths(2000));
    assert_eq!(percentile(&xs, 75), hundredths(3000));
    assert_eq!(percentile(&xs, 25), hundredths(1500));
    assert_eq!(percentile(&xs, 100), hundredths(4000));
    assert_eq!(percentile(&vec![], 50), hundredths(0));
    assert_eq!(percentile(&vec![7], 99), hundredths(700));
}

#[test]
fn percentiles_follow_the_floating_point_formula() {
    let xs: Vec<u128> = (0..37u128).map(|i| i * i * 1000 + 3).collect();
    for pct in 0..=100u64 {
        let rank = (pct as f64 / 100.0) * (xs.len() - 1) as f64;
        let (lo, hi) = (rank.floor() as usize, rank.ceil() as usize);
        let expected = if lo == hi {
            xs[lo] as f64
        } else {
            xs[lo] as f64 + (xs[hi] as f64 - xs[lo] as f64) * (rank - lo as f64)
        };
        let ours = scaled(percentile(&xs, pct)) as f64 / 100.0;
        assert!((ours - expected).abs() < 1e-6, "{} {} {}", pct, ours, expected);
    }
}

#[test]
fn quantiles_at_any_fraction() {
    let xs = vec![1, 2, 3, 4];
    assert_eq!(percentile(&xs, 50), hundredths(250));
    assert_eq!(quantile(&xs, 1, 2), over(5, 2));
    assert_eq!(quantile(&xs, 0, 7), over(7, 7));
    assert_eq!(quantile(&xs, 7, 7), over(28, 7));
    // 12.5 percent, and the same fraction in other terms.
    assert_eq!(quantile(&xs, 125, 1000), over(1375, 1000));
    assert_eq!(quantile(&xs, 1, 8), over(11, 8));
    assert_eq!(quantile(&vec![], 1, 3), over(0, 3));
    let ends = vec![0, u128::MAX];
    assert_eq!(
        quantile(&ends, 1, 2),
        Ratio { whole: u128::MAX / 2, num: 1, den: 2 }
    );
    assert_eq!(
        quantile(&ends, u64::MAX, u64::MAX),
        Ratio { whole: u128::MAX, num: 0, den: u64::MAX as u128 }
    );
    let mut last = 0;
    for num in 0..=997u64 {
        let q = scaled(quantile(&vec![3, 3, 10, 500], num, 997));
        assert!(last <= q);
        last = q;
    }
}

#[test]
fn quantiles_do_not_need_ordered_samples() {
    let xs = vec![9, 2, 7, 7, 1];
    let once = sorted(&xs);
    assert_eq!(sorted(&once), once);
    assert_eq!(quantile(&sorted(&xs), 2, 3), quantile(&once, 2, 3));
}

#[test]
fn summary_of_four_samples() {
    let s = Summary::from_samples(&vec![4, 1, 3, 2]);
    assert_eq!(s.count, 4);
    assert_eq!(s.min, 1);
    assert_eq!(s.max, 4);
    assert_eq!(s.mean, over(10, 4));
    assert_eq!(s.stdev, 1);
    assert_eq!(s.p50, hundredths(250));
    assert_eq!(s.p75, hundredths(325));
    assert_eq!(s.p90, hundredths(370));
    assert_eq!(s.p95, hundredths(385));
    assert_eq!(s.p99, hundredths(397));
}

#[test]
fn summary_of_nothing_is_zero() {
    let s = Summary::from_samples(&vec![]);
    assert_eq!(s.count, 0);
    assert_eq!((s.min, s.max, s.stdev), (0, 0, 0));
    assert_eq!(s.mean, Ratio { whole: 0, num: 0, den: 1 });
    assert_eq!(s.p50, hundredths(0));
    assert_eq!(s.p99, hundredths(0));
}

#[test]
fn standard_deviation_is_rounded_down() {
    assert_eq!(Summary::from_samples(&vec![0, 100]).stdev, 50);
    assert_eq!(Summary::from_samples(&vec![1_000_000_000, 3_000_000_000]).stdev, 1_000_000_000);
    // The variance of 1, 2, 3 is 2/3.
    assert_eq!(Summary::from_samples(&vec![1, 2, 3]).stdev, 0);
    // The variance of 10, 20, 30 is 200/3, its root about 8.16.
    assert_eq!(Summary::from_samples(&vec![10, 20, 30]).stdev, 8);
    assert_eq!(Summary::from_samples(&vec![0, u64::MAX as u128]).stdev, u64::MAX as u128 / 2);
    assert_eq!(Summary::from_samples(&vec![0, u128::MAX]).stdev, u128::MAX / 2);
    assert_eq!(Summary::from_samples(&vec![u128::MAX, u128::MAX]).stdev, 0);
    // The variance of 1, 1, 2 is 2/9; a million times as far apart, its root is 471404.5.
    assert_eq!(Summary::from_samples(&vec![1, 1, 2]).stdev, 0);
    assert_eq!(Summary::from_samples(&vec![1_000_000, 1_000_000, 2_000_000]).stdev, 471_404);
}

#[test]
fn figures_of_a_summary_are_in_order() {
    let s = Summary::from_samples(&vec![90, 3, 77, 12, 12, 54, 8, 61]);
    let figures = [
        s.min * 100,
        scaled(s.p50),
        scaled(s.p75),
        scaled(s.p90),
        scaled(s.p95),
        scaled(s.p99),
        s.max * 100,
    ];
    assert!(figures.windows(2).all(|w| w[0] <= w[1]));
    assert!(s.min * s.mean.den <= scaled(s.mean) && scaled(s.mean) <= s.max * s.mean.den);
}

#[test]
fn deviations_follow_the_floating_point_formula() {
    let xs: Vec<u128> = (0..500u128).map(|i| i * i * 7919 % 1_000_003 * 1_000_000).collect();
    let n = xs.len() as f64;
    let mean = xs.iter().map(|x| *x as f64).sum::<f64>() / n;
    let variance = xs.iter().map(|x| (*x as f64 - mean).powi(2)).sum::<f64>() / n;
    let s = Summary::from_samples(&xs);
    assert!((s.stdev as f64 - variance.sqrt()).abs() < 2.0);
    assert!((scaled(s.mean) as f64 / n - mean).abs() < 1.0);
}

#[test]
fn summary_does_not_depend_on_the_order() {
    let a = Summary::from_samples(&vec![5, 9, 1, 1, 7]);
    let b = Summary::from_samples(&vec![1, 7, 5, 1, 9]);
    assert_eq!(a, b);
}

#[test]
fn equal_samples_have_no_spread() {
    let s = Summary::from_samples(&vec![42, 42, 42]);
    assert_eq!((s.min, s.max, s.stdev), (42, 42, 0));
    assert_eq!(s.mean, over(126, 3));
    assert_eq!(s.p50, hundredths(4200));
    assert_eq!(s.p99, hundredths(4200));
}

#[test]
fn wide_arithmetic() {
    let w = Wide::product(u128::MAX, u128::MAX);
    assert_eq!((w.hi, w.lo), (u128::MAX - 1, 1));
    let one = Wide { hi: 0, lo: 1 };
    let sum = Wide { hi: 0, lo: u128::MAX }.plus(one);
    assert_eq!((sum.hi, sum.lo), (1, 0));
    let back = sum.minus(one);
    assert_eq!((back.hi, back.lo), (0, u128::MAX));
    assert!(back.at_most(sum) && sum.at_most(sum) && !sum.at_most(back));
    let (q, r) = Wide { hi: u128::MAX, lo: u128::MAX }.divided(10);
    let (ten_times, _) = Wide { hi: 0, lo: 10 }.divided(1);
    assert_eq!((ten_times.lo, r), (10, 5));
    assert_eq!(q.hi, u128::MAX / 10);
    let (q, r) = Wide { hi: 1, lo: 7 }.divided(u64::MAX);
    assert_eq!((q, r), (Wide { hi: 0, lo: (1 << 64) + 1 }, 8));
    assert_eq!(Wide::zero(), Wide { hi: 0, lo: 0 });
}

#[test]
fn mean_rate_of_a_transfer() {
    // 1.25 MB in one second is 10 Mbit/s.
    let r = bytes_to_mbps(1_250_000, 1_000_000_000);
    assert_eq!(r.num / r.den, 10);
    assert_eq!(r, Ratio { whole: 0, num: 10_000_000_000, den: 1_000_000_000 });
    assert_eq!(bytes_to_mbps(5, 0), Ratio { whole: 0, num: 0, den: 1 });
    assert_eq!(bytes_to_mbps(u64::MAX, 1).num, u64::MAX as u128 * 8000);
}

#[test]
fn grades_change_at_their_thresholds() {
    let grade = |ns: u128| BufferbloatGrade::from_added(ns).grade;
    assert_eq!(grade(0), 'A');
    assert_eq!(grade(4_999_999), 'A');
    assert_eq!(grade(5_000_000), 'B');
    assert_eq!(grade(29_999_999), 'B');
    assert_eq!(grade(30_000_000), 'C');
    assert_eq!(grade(59_999_999), 'C');
    assert_eq!(grade(60_000_000), 'D');
    assert_eq!(grade(199_999_999), 'D');
    assert_eq!(grade(200_000_000), 'F');
    assert_eq!(BufferbloatGrade::from_added(7).added_latency_ns, 7);
}

#[test]
fn grades_never_improve_with_added_latency() {
    let mut last = 'A';
    for ms in 0..250u128 {
        let g = BufferbloatGrade::from_added(ms * 1_000_000).grade;
        assert!(last <= g);
        last = g;
    }
}

#[test]
fn bufferbloat_needs_both_medians() {
    assert_eq!(bufferbloat(None, Some(1)), None);
    assert_eq!(bufferbloat(Some(1), None), None);
    assert_eq!(bufferbloat(Some(0), Some(1)), None);
    let g = bufferbloat(Some(10_000_000), Some(45_000_000)).unwrap();
    assert_eq!((g.added_latency_ns, g.grade), (35_000_000, 'C'));
    let none_added = bufferbloat(Some(10_000_000), Some(9_000_000)).unwrap();
    assert_eq!((none_added.added_latency_ns, none_added.grade), (0, 'A'));
}
