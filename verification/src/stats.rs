//! Summaries of throughput samples, the bufferbloat grade, and mean rates.

use vstd::prelude::*;
use vstd::relations::sorted_by;

use crate::histogram;
use crate::histogram::LatencyHistogram;
use crate::order;
use crate::wide::Wide;

verus! {

/// A non-negative number, kept exact until it is shown: `whole + num / den`.
#[derive(Clone, Copy, Debug, PartialEq, Eq, Structural)]
pub struct Ratio {
    pub whole: u128,
    pub num: u128,
    pub den: u128,
}

impl Ratio {
    /// A fraction has a denominator.
    pub open spec fn valid(self) -> bool {
        self.den > 0
    }

    /// The number, times the denominator.
    pub open spec fn scaled(self) -> int {
        self.whole * self.den + self.num
    }

    /// Zero.
    pub fn zero() -> (r: Ratio)
        ensures
            r == (Ratio { whole: 0, num: 0, den: 1 }),
    {
        Ratio { whole: 0, num: 0, den: 1 }
    }
}

/// The sum of the samples.
pub open spec fn sum(xs: Seq<u128>) -> int
    decreases xs.len(),
{
    if xs.len() == 0 {
        0
    } else {
        sum(xs.drop_last()) + xs.last()
    }
}

/// The exact mean of the samples.
pub open spec fn mean_of(xs: Seq<u128>) -> Ratio {
    let n = xs.len() as int;
    Ratio { whole: (sum(xs) / n) as u128, num: (sum(xs) % n) as u128, den: n as u128 }
}

/// The sum of the squares of the samples.
pub open spec fn sum_of_squares(xs: Seq<u128>) -> int
    decreases xs.len(),
{
    if xs.len() == 0 {
        0
    } else {
        sum_of_squares(xs.drop_last()) + xs.last() * xs.last()
    }
}

/// The variance of `n` samples, times `n * n`: `n * sum(x^2) - sum(x)^2`.
pub open spec fn scaled_variance(xs: Seq<u128>) -> int {
    xs.len() * sum_of_squares(xs) - sum(xs) * sum(xs)
}

/// `s` is the population standard deviation of the samples, rounded down to a whole
/// sample unit: the greatest `s` with `s^2` at most the variance.
pub open spec fn is_stdev(xs: Seq<u128>, s: int) -> bool {
    let n = xs.len() as int;
    &&& 0 <= s
    &&& (s * n) * (s * n) <= scaled_variance(xs)
    &&& scaled_variance(xs) < ((s + 1) * n) * ((s + 1) * n)
}

/// A percentile and dispersion summary of samples in some whole unit.
#[derive(Clone, Copy, Debug, PartialEq, Eq, Structural)]
pub struct Summary {
    pub count: u64,
    pub min: u128,
    pub max: u128,
    /// The exact mean.
    pub mean: Ratio,
    /// The population standard deviation, rounded down.
    pub stdev: u128,
    /// Percentiles, exact: the denominator is 100.
    pub p50: Ratio,
    pub p75: Ratio,
    pub p90: Ratio,
    pub p95: Ratio,
    pub p99: Ratio,
}

impl Summary {
    /// What a summary says of the samples it was made from.
    pub open spec fn summarises(self, xs: Seq<u128>) -> bool {
        let sorted = order::ascending(xs);
        &&& self.count == xs.len()
        &&& self.p50 == percentile_ratio(xs, 50)
        &&& self.p75 == percentile_ratio(xs, 75)
        &&& self.p90 == percentile_ratio(xs, 90)
        &&& self.p95 == percentile_ratio(xs, 95)
        &&& self.p99 == percentile_ratio(xs, 99)
        &&& if xs.len() == 0 {
            &&& self.min == 0
            &&& self.max == 0
            &&& self.mean == Ratio { whole: 0, num: 0, den: 1 }
            &&& self.stdev == 0
        } else {
            &&& self.min == sorted[0]
            &&& self.max == sorted[xs.len() - 1]
            &&& self.mean == mean_of(xs)
            &&& is_stdev(xs, self.stdev as int)
        }
    }
}

impl Summary {
    /// Summarises samples. No samples give the summary of zeros.
    pub fn from_samples(samples: &Vec<u128>) -> (s: Summary)
        ensures
            s.summarises(samples@),
    {
        let sorted = order::sorted(samples);
        proof {
            samples@.lemma_sort_by_ensures(order::at_most());
            vstd::seq_lib::to_multiset_len(samples@);
            vstd::seq_lib::to_multiset_len(sorted@);
        }
        let p50 = order::percentile(&sorted, 50);
        let p75 = order::percentile(&sorted, 75);
        let p90 = order::percentile(&sorted, 90);
        let p95 = order::percentile(&sorted, 95);
        let p99 = order::percentile(&sorted, 99);
        let n: usize = samples.len();
        if n == 0 {
            return Summary {
                count: 0,
                min: 0,
                max: 0,
                mean: Ratio::zero(),
                stdev: 0,
                p50,
                p75,
                p90,
                p95,
                p99,
            };
        }
        let mean = exact_mean(samples);
        let stdev: u128 = stdev_of(samples, mean);
        Summary {
            count: n as u64,
            min: sorted[0],
            max: sorted[n - 1],
            mean,
            stdev,
            p50,
            p75,
            p90,
            p95,
            p99,
        }
    }
}

/// The exact mean. The samples are added up as multiples of their number and a remainder,
/// which never outgrow the samples.
pub fn exact_mean(xs: &Vec<u128>) -> (mean: Ratio)
    requires
        xs.len() > 0,
    ensures
        mean == mean_of(xs@),
        mean.den == xs.len(),
        mean.num < mean.den,
        sum(xs@) == mean.whole * mean.den + mean.num,
{
    let n: u128 = xs.len() as u128;
    let mut whole: u128 = 0;
    let mut rest: u128 = 0;
    assert(xs@.take(0) =~= Seq::<u128>::empty());
    for i in 0..xs.len()
        invariant
            n == xs.len(),
            rest < n,
            whole * n + rest == sum(xs@.take(i as int)),
    {
        let x: u128 = xs[i];
        let ghost before = sum(xs@.take(i as int));
        proof {
            assert(xs@.take(i + 1).drop_last() =~= xs@.take(i as int));
            lemma_sum_bounds(xs@.take(i + 1));
            vstd::arithmetic::div_mod::lemma_fundamental_div_mod(x as int, n as int);
            let k = (i + 1) as int;
            assert(k * u128::MAX <= n * u128::MAX) by (nonlinear_arith)
                requires
                    k <= n,
            ;
            lemma_whole_fits(whole as int, rest as int, x as int, n as int);
        }
        let more: u128 = rest + x % n;
        if more >= n {
            whole = whole + x / n + 1;
            rest = more - n;
        } else {
            whole = whole + x / n;
            rest = more;
        }
    }
    assert(xs@.take(xs.len() as int) =~= xs@);
    proof {
        vstd::arithmetic::div_mod::lemma_fundamental_div_mod_converse(
            sum(xs@),
            n as int,
            whole as int,
            rest as int,
        );
    }
    Ratio { whole, num: rest, den: n }
}

/// One more sample in a sum of multiples of `n` and a remainder.
proof fn lemma_whole_fits(whole: int, rest: int, x: int, n: int)
    requires
        0 <= rest < n,
        0 <= x,
        0 <= whole,
        whole * n + rest + x <= n * u128::MAX,
        x == n * (x / n) + x % n,
        0 <= x % n < n,
    ensures
        (whole + x / n) * n + (rest + x % n) == whole * n + rest + x,
        (whole + x / n + 1) * n + (rest + x % n - n) == whole * n + rest + x,
        whole + x / n <= u128::MAX,
        rest + x % n >= n ==> whole + x / n + 1 <= u128::MAX,
        0 <= x / n,
{
    let (q, r) = (x / n, x % n);
    let m = u128::MAX as int;
    vstd::arithmetic::div_mod::lemma_div_pos_is_pos(x, n);
    assert((whole + q) * n + (rest + r) == whole * n + rest + (n * q + r)) by (nonlinear_arith);
    assert((whole + q + 1) * n == (whole + q) * n + n) by (nonlinear_arith);
    assert(whole + q <= m) by (nonlinear_arith)
        requires
            (whole + q) * n <= n * m,
            n > 0,
    ;
    if rest + r >= n {
        assert(whole + q + 1 <= m) by (nonlinear_arith)
            requires
                (whole + q + 1) * n <= n * m,
                n > 0,
        ;
    }
}

/// The sum of the squared distances from `m`.
spec fn squared_distances(xs: Seq<u128>, m: int) -> int
    decreases xs.len(),
{
    if xs.len() == 0 {
        0
    } else {
        squared_distances(xs.drop_last(), m) + (xs.last() - m) * (xs.last() - m)
    }
}

proof fn lemma_squared_distances(xs: Seq<u128>, m: int)
    ensures
        squared_distances(xs, m) == sum_of_squares(xs) - 2 * m * sum(xs) + xs.len() * (m * m),
    decreases xs.len(),
{
    if xs.len() > 0 {
        let ys = xs.drop_last();
        lemma_squared_distances(ys, m);
        let (x, s, q, n) = (xs.last() as int, sum(ys), sum_of_squares(ys), ys.len() as int);
        assert(xs.len() == n + 1);
        assert((q - 2 * m * s + n * (m * m)) + (x - m) * (x - m) == (q + x * x) - 2 * m * (s + x)
            + (n + 1) * (m * m)) by (nonlinear_arith);
    } else {
        assert(2 * m * 0 == 0 && 0 * (m * m) == 0) by (nonlinear_arith);
    }
}

/// The variance by the distances from the rounded mean.
proof fn lemma_variance_by_distances(xs: Seq<u128>, m: int, r: int)
    requires
        sum(xs) == m * xs.len() + r,
    ensures
        scaled_variance(xs) == xs.len() * squared_distances(xs, m) - r * r,
{
    lemma_squared_distances(xs, m);
    let (n, s, q) = (xs.len() as int, sum(xs), sum_of_squares(xs));
    assert(n * q - s * s == n * (q - 2 * m * s + n * (m * m)) - r * r) by (nonlinear_arith)
        requires
            s == m * n + r,
    ;
}

fn distance(a: u128, b: u128) -> (d: u128)
    ensures
        d * d == (a - b) * (a - b),
{
    if a >= b {
        a - b
    } else {
        assert((b - a) * (b - a) == (a - b) * (a - b)) by (nonlinear_arith);
        b - a
    }
}

/// The squared distances from `m` add up to `q * n + r`.
fn distances_of(xs: &Vec<u128>, m: u128) -> (d: (Wide, u128))
    requires
        xs.len() > 0,
    ensures
        d.1 < xs.len(),
        squared_distances(xs@, m as int) == d.0.value() * xs.len() + d.1,
{
    let n: u128 = xs.len() as u128;
    let mut whole: Wide = Wide::zero();
    let mut rest: u128 = 0;
    assert(xs@.take(0) =~= Seq::<u128>::empty());
    assert(0 * n == 0);
    for i in 0..xs.len()
        invariant
            n == xs.len(),
            rest < n,
            whole.value() * n + rest == squared_distances(xs@.take(i as int), m as int),
            0 <= whole.value(),
    {
        let ghost sofar = squared_distances(xs@.take(i as int), m as int);
        assert(xs@.take(i + 1).drop_last() =~= xs@.take(i as int));
        let d: u128 = distance(xs[i], m);
        let square = Wide::product(d, d);
        let (q, r) = square.divided(n as u64);
        proof {
            lemma_distance_bounds(xs@.take(i + 1), m);
            lemma_quotients_fit(
                whole.value(),
                rest as int,
                q.value(),
                r as int,
                n as int,
                i + 1,
                sofar + d * d,
            );
        }
        let more: u128 = rest + r as u128;
        whole = whole.plus(q);
        if more >= n {
            whole = whole.plus(Wide { hi: 0, lo: 1 });
            rest = more - n;
        } else {
            rest = more;
        }
    }
    assert(xs@.take(xs.len() as int) =~= xs@);
    (whole, rest)
}

proof fn lemma_distance_bounds(xs: Seq<u128>, m: u128)
    ensures
        0 <= squared_distances(xs, m as int) <= xs.len() * (u128::MAX * u128::MAX),
    decreases xs.len(),
{
    if xs.len() > 0 {
        lemma_distance_bounds(xs.drop_last(), m);
        let d = xs.last() - m;
        assert(0 <= d * d <= u128::MAX * u128::MAX) by (nonlinear_arith)
            requires
                -u128::MAX <= d <= u128::MAX,
        ;
        let b = u128::MAX * u128::MAX;
        assert((xs.len() - 1) * b + b == xs.len() * b) by (nonlinear_arith);
    }
}

proof fn lemma_quotients_fit(w: int, rest: int, q: int, r: int, n: int, k: int, total: int)
    requires
        0 <= rest < n,
        0 <= r < n,
        0 <= w,
        0 <= q,
        0 <= k <= n,
        total == w * n + rest + (q * n + r),
        total <= k * (u128::MAX * u128::MAX),
    ensures
        (w + q) * n + (rest + r) == total,
        (w + q + 1) * n + (rest + r - n) == total,
        w + q < crate::wide::limb() * crate::wide::limb(),
        rest + r >= n ==> w + q + 1 < crate::wide::limb() * crate::wide::limb(),
{
    let b = u128::MAX * u128::MAX;
    assert(b + 1 < crate::wide::limb() * crate::wide::limb());
    assert(k * b <= n * b) by (nonlinear_arith)
        requires
            k <= n,
            b >= 0,
    ;
    assert((w + q) * n == w * n + q * n && (w + q + 1) * n == w * n + q * n + n)
        by (nonlinear_arith);
    assert(w + q <= b) by (nonlinear_arith)
        requires
            (w + q) * n <= n * b,
            n > 0,
    ;
}

/// The standard deviation, from the distances to the mean.
fn stdev_of(xs: &Vec<u128>, mean: Ratio) -> (s: u128)
    requires
        xs.len() > 0,
        mean.den == xs.len(),
        mean.num < mean.den,
        sum(xs@) == mean.whole * mean.den + mean.num,
    ensures
        is_stdev(xs@, s as int),
{
    let n: u128 = mean.den;
    let r: u128 = mean.num;
    let (whole, rest) = distances_of(xs, mean.whole);
    assert(0 <= r * r <= u64::MAX * u64::MAX) by (nonlinear_arith)
        requires
            0 <= r < n <= u64::MAX,
    ;
    // What the squared remainder of the mean takes off, rounded up.
    let off: u128 = (r * r + n - 1) / n;
    let ghost d = squared_distances(xs@, mean.whole as int);
    proof {
        lemma_variance_by_distances(xs@, mean.whole as int, r as int);
        lemma_variance_non_negative(xs@);
        lemma_taken_off(n as int, r as int, off as int);
        lemma_variance_whole(n as int, d, r as int, off as int, whole.value(), rest as int);
    }
    let variance: Wide = if rest >= off {
        whole
    } else {
        whole.minus(Wide { hi: 0, lo: 1 })
    };
    let s: u128 = root_of(variance);
    proof {
        lemma_root_is_stdev(n as int, d, r as int, off as int, variance.value(), s as int);
        lemma_root_is_stdev(n as int, d, r as int, off as int, variance.value(), s + 1);
    }
    s
}

proof fn lemma_taken_off(n: int, r: int, off: int)
    requires
        0 <= r < n,
        off == (r * r + n - 1) / n,
    ensures
        0 <= off <= r,
        r * r <= n * off,
        n * (off - 1) < r * r,
{
    let x = r * r + n - 1;
    assert(r * r >= 0) by (nonlinear_arith);
    vstd::arithmetic::div_mod::lemma_fundamental_div_mod(x, n);
    vstd::arithmetic::div_mod::lemma_mod_bound(x, n);
    vstd::arithmetic::div_mod::lemma_div_pos_is_pos(x, n);
    assert(n * (off - 1) == n * off - n) by (nonlinear_arith);
    assert(off <= r) by (nonlinear_arith)
        requires
            n * (off - 1) < r * r,
            0 <= r < n,
    ;
}

/// What is left of the distances after `off` was taken off, by `n`.
proof fn lemma_variance_whole(n: int, d: int, r: int, off: int, whole: int, rest: int)
    requires
        n > 0,
        n * d - r * r >= 0,
        0 <= off < n,
        n * (off - 1) < r * r,
        0 <= rest < n,
        d == whole * n + rest,
    ensures
        rest < off ==> whole >= 1,
        rest >= off ==> n * whole <= d - off < n * (whole + 1),
        rest < off ==> n * (whole - 1) <= d - off < n * whole,
{
    assert(n * whole == whole * n && n * (whole + 1) == whole * n + n && n * (whole - 1) == whole
        * n - n) by (nonlinear_arith);
    assert(d > off - 1) by (nonlinear_arith)
        requires
            n * d >= r * r,
            n * (off - 1) < r * r,
            n > 0,
    ;
    if rest < off {
        assert(whole >= 1) by (nonlinear_arith)
            requires
                whole * n + rest >= off,
                rest < off,
                n > 0,
        ;
    }
}

/// `t^2` is at most the rounded variance exactly when `(t * n)^2` is at most the scaled one.
proof fn lemma_root_is_stdev(n: int, d: int, r: int, off: int, variance: int, t: int)
    requires
        n > 0,
        r * r <= n * off,
        n * (off - 1) < r * r,
        n * variance <= d - off < n * (variance + 1),
    ensures
        t * t <= variance <==> (t * n) * (t * n) <= n * d - r * r,
{
    let k = t * t;
    assert((t * n) * (t * n) == n * (n * k)) by (nonlinear_arith)
        requires
            k == t * t,
    ;
    if k <= variance {
        assert(n * (n * k) <= n * d - r * r) by (nonlinear_arith)
            requires
                n > 0,
                k <= variance,
                n * variance <= d - off,
                r * r <= n * off,
        ;
    } else {
        assert(n * (n * k) > n * d - r * r) by (nonlinear_arith)
            requires
                n > 0,
                k >= variance + 1,
                d - off + 1 <= n * (variance + 1),
                n * (off - 1) < r * r,
        ;
    }
}

/// The whole square root, by bisection.
fn root_of(v: Wide) -> (s: u128)
    ensures
        s * s <= v.value() < (s + 1) * (s + 1),
{
    let mut lo: u128 = 0;
    let mut hi: u128 = u128::MAX;
    assert(v.value() < (hi + 1) * (hi + 1)) by {
        assert((u128::MAX + 1) * (u128::MAX + 1) == crate::wide::limb() * crate::wide::limb());
    }
    while lo < hi
        invariant
            lo <= hi,
            lo * lo <= v.value(),
            v.value() < (hi + 1) * (hi + 1),
        decreases hi - lo,
    {
        let mid: u128 = lo + (hi - lo) / 2 + (hi - lo) % 2;
        if Wide::product(mid, mid).at_most(v) {
            lo = mid;
        } else {
            hi = mid - 1;
        }
    }
    lo
}

/// A percentile as an exact number.
pub open spec fn percentile_ratio(xs: Seq<u128>, pct: int) -> Ratio {
    order::quantile_ratio(order::ascending(xs), pct, 100)
}

/// Throughput in Mbit/s over `elapsed_ns` nanoseconds; 0 when no time has passed.
#[must_use]
pub fn bytes_to_mbps(bytes: u64, elapsed_ns: u128) -> (r: Ratio)
    ensures
        elapsed_ns == 0 ==> r == (Ratio { whole: 0, num: 0, den: 1 }),
        elapsed_ns > 0 ==> r == (Ratio {
            whole: 0,
            num: (bytes * 8000) as u128,
            den: elapsed_ns,
        }),
        r.valid(),
{
    if elapsed_ns == 0 {
        return Ratio::zero();
    }
    // Eight bits a byte; a megabit a second is a thousandth of a bit a nanosecond.
    Ratio { whole: 0, num: bytes as u128 * 8000, den: elapsed_ns }
}

/// The samples as they are recorded: a round trip of zero microseconds counts as one.
pub open spec fn recorded_rtts(samples: Seq<u64>) -> Seq<u64> {
    samples.map_values(|v: u64| if v < 1 { 1u64 } else { v })
}

/// A latency summary in microseconds. Minimum, maximum and percentiles are histogram
/// values of three significant digits; mean and jitter are the bits of the `double`
/// that the histogram computes.
#[derive(Clone, Debug)]
pub struct LatencySummary {
    pub count: u64,
    pub min_us: u64,
    pub max_us: u64,
    pub mean_us_bits: u64,
    pub jitter_us_bits: u64,
    pub p50_us: u64,
    pub p90_us: u64,
    pub p95_us: u64,
    pub p99_us: u64,
    pub raw_samples_us: Vec<u64>,
}

impl LatencySummary {
    /// What a latency summary says of the samples it was made from.
    pub open spec fn summarises(self, samples: Seq<u64>) -> bool {
        let values = recorded_rtts(samples).to_multiset();
        &&& self.count == samples.len()
        &&& self.raw_samples_us@ == samples
        &&& if samples.len() == 0 {
            &&& self.min_us == 0
            &&& self.max_us == 0
            &&& self.mean_us_bits == 0
            &&& self.jitter_us_bits == 0
            &&& self.p50_us == 0
            &&& self.p90_us == 0
            &&& self.p95_us == 0
            &&& self.p99_us == 0
        } else {
            &&& histogram::least_shown(values, self.min_us)
            &&& histogram::greatest_shown(values, self.max_us)
            &&& self.mean_us_bits == histogram::mean_bits_of(values)
            &&& self.jitter_us_bits == histogram::stdev_bits_of(values)
            &&& self.p50_us == histogram::quantile_value(values, 50)
            &&& self.p90_us == histogram::quantile_value(values, 90)
            &&& self.p95_us == histogram::quantile_value(values, 95)
            &&& self.p99_us == histogram::quantile_value(values, 99)
            &&& samples.len() < histogram::RANK_LIMIT ==> {
                &&& histogram::quantile_shown(values, 50, self.p50_us)
                &&& histogram::quantile_shown(values, 90, self.p90_us)
                &&& histogram::quantile_shown(values, 95, self.p95_us)
                &&& histogram::quantile_shown(values, 99, self.p99_us)
            }
        }
    }

    /// Summarises round-trip times in microseconds.
    pub fn from_micros(samples: &Vec<u64>) -> (s: LatencySummary)
        ensures
            s.summarises(samples@),
    {
        if samples.len() == 0 {
            let s = LatencySummary {
                count: 0,
                min_us: 0,
                max_us: 0,
                mean_us_bits: 0,
                jitter_us_bits: 0,
                p50_us: 0,
                p90_us: 0,
                p95_us: 0,
                p99_us: 0,
                raw_samples_us: Vec::new(),
            };
            assert(s.raw_samples_us@ =~= samples@);
            return s;
        }
        let mut hist = LatencyHistogram::new(3);
        let ghost values = recorded_rtts(samples@);
        broadcast use vstd::seq_lib::group_to_multiset_ensures;

        assert(values.take(0) =~= Seq::<u64>::empty());
        assert(Seq::<u64>::empty().to_multiset() =~= vstd::multiset::Multiset::<u64>::empty());
        for i in 0..samples.len()
            invariant
                values == recorded_rtts(samples@),
                histogram::precision(hist) == 3,
                histogram::recorded(hist) == values.take(i as int).to_multiset(),
        {
            broadcast use vstd::seq_lib::group_to_multiset_ensures;

            let v: u64 = samples[i];
            hist.record(if v < 1 { 1 } else { v });
            assert(values.take(i + 1) =~= values.take(i as int).push(values[i as int]));
        }
        assert(values.take(samples.len() as int) =~= values);
        LatencySummary {
            count: hist.count(),
            min_us: hist.min(),
            max_us: hist.max(),
            mean_us_bits: hist.mean_bits(),
            jitter_us_bits: hist.stdev_bits(),
            p50_us: hist.value_at_percentile(50),
            p90_us: hist.value_at_percentile(90),
            p95_us: hist.value_at_percentile(95),
            p99_us: hist.value_at_percentile(99),
            raw_samples_us: samples.clone(),
        }
    }
}

/// Milliseconds, in nanoseconds.
pub const MILLISECOND: u128 = 1_000_000;

/// Waveform-style bufferbloat grading from added latency under load.
#[derive(Clone, Copy, Debug, PartialEq, Eq, Structural)]
pub struct BufferbloatGrade {
    pub added_latency_ns: u128,
    pub grade: char,
}

/// The grade for an added latency in nanoseconds.
pub open spec fn grade_for(added_ns: int) -> char {
    if added_ns < 5 * MILLISECOND {
        'A'
    } else if added_ns < 30 * MILLISECOND {
        'B'
    } else if added_ns < 60 * MILLISECOND {
        'C'
    } else if added_ns < 200 * MILLISECOND {
        'D'
    } else {
        'F'
    }
}

impl BufferbloatGrade {
    /// Grades the latency that load has added.
    pub fn from_added(added_ns: u128) -> (g: BufferbloatGrade)
        ensures
            g.added_latency_ns == added_ns,
            g.grade == grade_for(added_ns as int),
    {
        let grade = if added_ns < 5 * MILLISECOND {
            'A'
        } else if added_ns < 30 * MILLISECOND {
            'B'
        } else if added_ns < 60 * MILLISECOND {
            'C'
        } else if added_ns < 200 * MILLISECOND {
            'D'
        } else {
            'F'
        };
        BufferbloatGrade { added_latency_ns: added_ns, grade }
    }
}

/// Bufferbloat from the median latency when idle and under load, in nanoseconds: graded
/// when both were measured and the idle one is above zero. Load that lowers the latency
/// adds none.
pub open spec fn bloat(idle_p50_ns: Option<u128>, loaded_p50_ns: Option<u128>) -> Option<
    BufferbloatGrade,
> {
    match (idle_p50_ns, loaded_p50_ns) {
        (Some(idle), Some(loaded)) => if idle > 0 {
            let added = if loaded > idle {
                loaded - idle
            } else {
                0
            };
            Some(BufferbloatGrade { added_latency_ns: added as u128, grade: grade_for(added) })
        } else {
            None
        },
        _ => None,
    }
}

/// Grades the bufferbloat between two median latencies.
pub fn bufferbloat(idle_p50_ns: Option<u128>, loaded_p50_ns: Option<u128>) -> (g: Option<
    BufferbloatGrade,
>)
    ensures
        g == bloat(idle_p50_ns, loaded_p50_ns),
{
    match (idle_p50_ns, loaded_p50_ns) {
        (Some(idle), Some(loaded)) => if idle > 0 {
            Some(BufferbloatGrade::from_added(loaded.saturating_sub(idle)))
        } else {
            None
        },
        _ => None,
    }
}

/// A sum of samples is at most their number times the greatest one there can be.
pub proof fn lemma_sum_bounds(xs: Seq<u128>)
    ensures
        0 <= sum(xs) <= xs.len() * u128::MAX,
    decreases xs.len(),
{
    if xs.len() > 0 {
        lemma_sum_bounds(xs.drop_last());
        let m = u128::MAX as int;
        assert((xs.len() - 1) * m + m == xs.len() * m) by (nonlinear_arith);
    }
}

/// The variance is not negative.
proof fn lemma_variance_non_negative(xs: Seq<u128>)
    ensures
        scaled_variance(xs) >= 0,
    decreases xs.len(),
{
    if xs.len() > 0 {
        let ys = xs.drop_last();
        let n = ys.len() as int;
        let q = sum_of_squares(ys);
        let s = sum(ys);
        let y = xs.last() as int;
        lemma_variance_non_negative(ys);
        if n > 0 {
            lemma_one_more_sample(n, q, s, y);
        } else {
            assert(q == 0 && s == 0);
            assert((n + 1) * (q + y * y) - (s + y) * (s + y) == 0) by (nonlinear_arith)
                requires
                    n == 0,
                    q == 0,
                    s == 0,
            ;
        }
    }
}

proof fn lemma_one_more_sample(n: int, q: int, s: int, y: int)
    requires
        n > 0,
        n * q - s * s >= 0,
    ensures
        (n + 1) * (q + y * y) - (s + y) * (s + y) >= 0,
{
    let k = q + n * (y * y) - 2 * (s * y);
    assert((n + 1) * (q + y * y) - (s + y) * (s + y) == (n * q - s * s) + k) by (nonlinear_arith)
        requires
            k == q + n * (y * y) - 2 * (s * y),
    ;
    let d = s - n * y;
    assert(n * k == (n * q - s * s) + d * d) by (nonlinear_arith)
        requires
            k == q + n * (y * y) - 2 * (s * y),
            d == s - n * y,
    ;
    assert(d * d >= 0) by (nonlinear_arith);
    assert(k >= 0) by (nonlinear_arith)
        requires
            n > 0,
            n * k >= 0,
    ;
}

/// The figures of a summary are in order: minimum, percentiles, maximum. The mean lies
/// between minimum and maximum.
pub proof fn law_summary_in_order(s: Summary, xs: Seq<u128>)
    requires
        s.summarises(xs),
        0 < xs.len(),
    ensures
        s.min * 100 <= s.p50.scaled() <= s.p75.scaled() <= s.p90.scaled() <= s.p95.scaled()
            <= s.p99.scaled() <= s.max * 100,
        s.p50.den == 100 && s.p75.den == 100 && s.p90.den == 100 && s.p95.den == 100 && s.p99.den
            == 100,
        s.min * s.count <= s.mean.scaled() <= s.max * s.count,
        s.mean.den == s.count,
{
    let sorted = order::ascending(xs);
    lemma_ascending_facts(xs);
    lemma_percentile_scaled(sorted, 50);
    lemma_percentile_scaled(sorted, 75);
    lemma_percentile_scaled(sorted, 90);
    lemma_percentile_scaled(sorted, 95);
    lemma_percentile_scaled(sorted, 99);
    order::lemma_percentile_monotone(sorted, 50, 75);
    order::lemma_percentile_monotone(sorted, 75, 90);
    order::lemma_percentile_monotone(sorted, 90, 95);
    order::lemma_percentile_monotone(sorted, 95, 99);
    lemma_mean_scaled(xs);
    lemma_sum_within(xs, s.min, s.max);
}

/// A percentile is the number that its fraction stands for, within the samples.
proof fn lemma_percentile_scaled(sorted: Seq<u128>, pct: int)
    requires
        sorted_by(sorted, order::at_most()),
        0 <= pct <= 100,
        sorted.len() > 0,
    ensures
        order::quantile_ratio(sorted, pct, 100).scaled() == order::percentile_at(sorted, pct),
        100 * sorted[0] <= order::percentile_at(sorted, pct) <= 100 * sorted[sorted.len() - 1],
{
    order::lemma_percentile_range(sorted, pct);
    let r = order::quantile_ratio(sorted, pct, 100);
    assert(r.whole * r.den == r.whole * 100) by (nonlinear_arith)
        requires
            r.den == 100,
    ;
}

/// A mean is the sum by the number of the samples.
pub proof fn lemma_mean_scaled(xs: Seq<u128>)
    requires
        0 < xs.len() <= u64::MAX,
    ensures
        mean_of(xs).scaled() == sum(xs),
        mean_of(xs).den == xs.len(),
{
    lemma_sum_bounds(xs);
    let n = xs.len() as int;
    let (q, r) = (sum(xs) / n, sum(xs) % n);
    vstd::arithmetic::div_mod::lemma_fundamental_div_mod(sum(xs), n);
    vstd::arithmetic::div_mod::lemma_mod_bound(sum(xs), n);
    vstd::arithmetic::div_mod::lemma_div_pos_is_pos(sum(xs), n);
    assert(q <= u128::MAX && q * n == n * q) by (nonlinear_arith)
        requires
            n * q <= n * u128::MAX,
            n > 0,
    ;
}

/// Every sample lies between the ends of the ascending arrangement.
proof fn lemma_ascending_facts(xs: Seq<u128>)
    ensures
        sorted_by(order::ascending(xs), order::at_most()),
        order::ascending(xs).len() == xs.len(),
        order::ascending(xs).to_multiset() == xs.to_multiset(),
        forall|i: int|
            0 <= i < xs.len() ==> order::ascending(xs)[0] <= #[trigger] xs[i] <= order::ascending(
                xs,
            )[xs.len() - 1],
{
    broadcast use vstd::seq_lib::group_to_multiset_ensures;

    let sorted = order::ascending(xs);
    xs.lemma_sort_by_ensures(order::at_most());
    vstd::seq_lib::to_multiset_len(xs);
    vstd::seq_lib::to_multiset_len(sorted);
    assert forall|i: int| 0 <= i < xs.len() implies sorted[0] <= #[trigger] xs[i]
        <= sorted[xs.len() - 1] by {
        assert(xs.contains(xs[i]));
        assert(sorted.to_multiset().count(xs[i]) > 0);
        assert(sorted.contains(xs[i]));
        let k = choose|k: int| 0 <= k < sorted.len() && sorted[k] == xs[i];
        assert(k > 0 ==> order::at_most()(sorted[0], sorted[k]));
        assert(k < sorted.len() - 1 ==> order::at_most()(sorted[k], sorted[sorted.len() - 1]));
    }
}

proof fn lemma_sum_within(xs: Seq<u128>, lo: u128, hi: u128)
    requires
        forall|i: int| 0 <= i < xs.len() ==> lo <= #[trigger] xs[i] <= hi,
    ensures
        lo * xs.len() <= sum(xs) <= hi * xs.len(),
    decreases xs.len(),
{
    if xs.len() > 0 {
        let ys = xs.drop_last();
        assert forall|i: int| 0 <= i < ys.len() implies lo <= #[trigger] ys[i] <= hi by {
            assert(ys[i] == xs[i]);
        }
        lemma_sum_within(ys, lo, hi);
        assert(lo * ys.len() + lo == lo * xs.len()) by (nonlinear_arith)
            requires
                xs.len() == ys.len() + 1,
        ;
        assert(hi * ys.len() + hi == hi * xs.len()) by (nonlinear_arith)
            requires
                xs.len() == ys.len() + 1,
        ;
    }
}

/// A summary does not depend on the order in which the samples came.
pub proof fn law_summary_ignores_order(s: Summary, xs: Seq<u128>, ys: Seq<u128>)
    requires
        xs.to_multiset() == ys.to_multiset(),
        s.summarises(xs),
    ensures
        s.summarises(ys),
{
    lemma_ascending_facts(xs);
    lemma_ascending_facts(ys);
    order::lemma_ascending_unique(ys, order::ascending(xs));
    vstd::seq_lib::to_multiset_len(xs);
    vstd::seq_lib::to_multiset_len(ys);
    lemma_sums_ignore_order(xs, ys);
}

proof fn lemma_sums_ignore_order(xs: Seq<u128>, ys: Seq<u128>)
    requires
        xs.to_multiset() == ys.to_multiset(),
    ensures
        sum(xs) == sum(ys),
        sum_of_squares(xs) == sum_of_squares(ys),
    decreases xs.len(),
{
    broadcast use vstd::seq_lib::group_to_multiset_ensures;

    vstd::seq_lib::to_multiset_len(xs);
    vstd::seq_lib::to_multiset_len(ys);
    if xs.len() > 0 {
        let x = xs.last();
        assert(xs.contains(x));
        assert(ys.to_multiset().count(x) > 0);
        assert(ys.contains(x));
        let k = choose|k: int| 0 <= k < ys.len() && ys[k] == x;
        assert(xs.drop_last() =~= xs.remove(xs.len() - 1));
        lemma_sums_ignore_order(xs.drop_last(), ys.remove(k));
        lemma_sums_without(ys, k);
    }
}

proof fn lemma_sums_without(ys: Seq<u128>, k: int)
    requires
        0 <= k < ys.len(),
    ensures
        sum(ys) == sum(ys.remove(k)) + ys[k],
        sum_of_squares(ys) == sum_of_squares(ys.remove(k)) + ys[k] * ys[k],
    decreases ys.len(),
{
    if k == ys.len() - 1 {
        assert(ys.remove(k) =~= ys.drop_last());
    } else {
        lemma_sums_without(ys.drop_last(), k);
        assert(ys.remove(k).drop_last() =~= ys.drop_last().remove(k));
        assert(ys.remove(k).last() == ys.last());
    }
}

/// Samples that are all alike have no spread, and every figure is that sample.
pub proof fn law_equal_samples(s: Summary, xs: Seq<u128>, c: u128)
    requires
        s.summarises(xs),
        0 < xs.len(),
        forall|i: int| 0 <= i < xs.len() ==> #[trigger] xs[i] == c,
    ensures
        s.min == c,
        s.max == c,
        s.mean.scaled() == c * s.count,
        s.mean.den == s.count,
        s.stdev == 0,
        s.p50.scaled() == 100 * c,
        s.p99.scaled() == 100 * c,
{
    law_summary_in_order(s, xs);
    lemma_ascending_facts(xs);
    lemma_ascending_facts(order::ascending(xs));
    lemma_sum_within(xs, c, c);
    lemma_mean_scaled(xs);
    let sorted = order::ascending(xs);
    broadcast use vstd::seq_lib::group_to_multiset_ensures;

    assert(sorted.contains(sorted[0]));
    assert(xs.to_multiset().count(sorted[0]) > 0);
    assert(xs.contains(sorted[0]));
    assert(sorted.contains(sorted[xs.len() - 1]));
    assert(xs.to_multiset().count(sorted[xs.len() - 1]) > 0);
    assert(xs.contains(sorted[xs.len() - 1]));
    lemma_equal_squares(xs, c);
    let n = xs.len() as int;
    let q = sum_of_squares(xs);
    assert(n * q - (c * n) * (c * n) == 0) by (nonlinear_arith)
        requires
            q == (c * c) * n,
    ;
    let d = s.stdev as int;
    if d > 0 {
        assert((d * n) * (d * n) > 0) by (nonlinear_arith)
            requires
                d > 0,
                n > 0,
        ;
    }
}

proof fn lemma_equal_squares(xs: Seq<u128>, c: u128)
    requires
        forall|i: int| 0 <= i < xs.len() ==> #[trigger] xs[i] == c,
    ensures
        sum_of_squares(xs) == (c * c) * xs.len(),
    decreases xs.len(),
{
    if xs.len() > 0 {
        let ys = xs.drop_last();
        assert forall|i: int| 0 <= i < ys.len() implies #[trigger] ys[i] == c by {
            assert(ys[i] == xs[i]);
        }
        lemma_equal_squares(ys, c);
        let k = c * c;
        assert(k * ys.len() + k == k * xs.len()) by (nonlinear_arith)
            requires
                xs.len() == ys.len() + 1,
        ;
    }
}

/// The percentiles of a latency summary are in order and lie within its extremes, as long
/// as some round trip is below the greatest number of microseconds.
pub proof fn law_latency_in_order(s: LatencySummary, samples: Seq<u64>)
    requires
        s.summarises(samples),
        0 < samples.len() < 0x100_0000_0000,
        exists|i: int| 0 <= i < samples.len() && #[trigger] samples[i] < u64::MAX,
    ensures
        0 < s.min_us <= s.p50_us <= s.p90_us <= s.p95_us <= s.p99_us <= s.max_us,
{
    broadcast use vstd::seq_lib::group_to_multiset_ensures;

    let rtts = recorded_rtts(samples);
    let values = rtts.to_multiset();
    let i = choose|i: int| 0 <= i < samples.len() && #[trigger] samples[i] < u64::MAX;
    assert(rtts.contains(rtts[i]));
    assert(values.contains(rtts[i]));
    let m = choose|m: u64| #[trigger]
        histogram::is_least(values, m) && s.min_us == (if m == u64::MAX {
            m
        } else {
            histogram::bucket_floor(m)
        });
    assert(m <= rtts[i]);
    assert(rtts.contains(m));
    let g = choose|g: u64| #[trigger]
        histogram::is_greatest(values, g) && s.max_us == histogram::bucket_ceiling(g);
    let lo = choose|v: u64| #[trigger]
        values.contains(v) && s.p50_us == histogram::bucket_ceiling(histogram::bucket_floor(v));
    let hi = choose|v: u64| #[trigger]
        values.contains(v) && s.p99_us == histogram::bucket_ceiling(histogram::bucket_floor(v));
    histogram::lemma_first_bucket(m);
    histogram::lemma_buckets_ordered(lo, m);
    histogram::lemma_buckets_ordered(hi, g);
}

/// The order of round trips.
pub open spec fn no_longer() -> spec_fn(u64, u64) -> bool {
    |a: u64, b: u64| a <= b
}

/// The round trips that were recorded, from the least to the greatest.
pub open spec fn ranked(samples: Seq<u64>) -> Seq<u64> {
    recorded_rtts(samples).sort_by(no_longer())
}

/// The rank of a percentile among `n` samples: `pct` percent of them, rounded up.
pub open spec fn rank_of(pct: int, n: int) -> int {
    (pct * n + 99) / 100
}

/// `r` shows the round trip `x` to three digits: it is not below it, and above it by a
/// 1024th part at most. The greatest number of microseconds is shown as one less.
pub open spec fn shows_rtt(r: u64, x: u64) -> bool {
    &&& x <= r || (x == u64::MAX && r == u64::MAX - 1)
    &&& 1024 * (r - x) <= x
}

/// The figures of a latency summary are accurate however long the session was: each
/// percentile shows the recorded round trip of its rank, the maximum shows the greatest
/// one, and the minimum is below the least one by a 1024th part at most.
pub proof fn law_latency_is_accurate(s: LatencySummary, samples: Seq<u64>)
    requires
        s.summarises(samples),
        0 < samples.len() < 0x100_0000_0000,
    ensures
        ({
            let n = samples.len() as int;
            let sorted = ranked(samples);
            &&& sorted.len() == n
            &&& shows_rtt(s.p50_us, sorted[rank_of(50, n) - 1])
            &&& shows_rtt(s.p90_us, sorted[rank_of(90, n) - 1])
            &&& shows_rtt(s.p95_us, sorted[rank_of(95, n) - 1])
            &&& shows_rtt(s.p99_us, sorted[rank_of(99, n) - 1])
            &&& shows_rtt(s.max_us, sorted[n - 1])
            &&& 0 < s.min_us <= sorted[0]
            &&& 1024 * (sorted[0] - s.min_us) <= sorted[0]
        }),
{
    broadcast use vstd::seq_lib::group_to_multiset_ensures;

    let n = samples.len() as int;
    let rtts = recorded_rtts(samples);
    let values = rtts.to_multiset();
    let sorted = ranked(samples);
    lemma_ranked_ends(rtts);
    lemma_shows_rank(values, 50, s.p50_us, sorted);
    lemma_shows_rank(values, 90, s.p90_us, sorted);
    lemma_shows_rank(values, 95, s.p95_us, sorted);
    lemma_shows_rank(values, 99, s.p99_us, sorted);
    let g = choose|g: u64| #[trigger]
        histogram::is_greatest(values, g) && s.max_us == histogram::bucket_ceiling(g);
    let m = choose|m: u64| #[trigger]
        histogram::is_least(values, m) && s.min_us == (if m == u64::MAX {
            m
        } else {
            histogram::bucket_floor(m)
        });
    assert(sorted.contains(sorted[0]) && sorted.contains(sorted[n - 1]));
    assert(values.contains(sorted[0]) && values.contains(sorted[n - 1]));
    assert(rtts.contains(g) && rtts.contains(m));
    assert(g == sorted[n - 1] && m == sorted[0]);
    histogram::law_three_digits(g);
    histogram::law_three_digits(m);
    histogram::lemma_first_bucket(m);
}

proof fn lemma_ranked_ends(xs: Seq<u64>)
    ensures
        sorted_by(xs.sort_by(no_longer()), no_longer()),
        xs.sort_by(no_longer()).len() == xs.len(),
        xs.sort_by(no_longer()).to_multiset() == xs.to_multiset(),
        forall|i: int|
            0 <= i < xs.len() ==> xs.sort_by(no_longer())[0] <= #[trigger] xs[i] <= xs.sort_by(
                no_longer(),
            )[xs.len() - 1],
{
    broadcast use vstd::seq_lib::group_to_multiset_ensures;

    let sorted = xs.sort_by(no_longer());
    xs.lemma_sort_by_ensures(no_longer());
    vstd::seq_lib::to_multiset_len(xs);
    vstd::seq_lib::to_multiset_len(sorted);
    assert forall|i: int| 0 <= i < xs.len() implies sorted[0] <= #[trigger] xs[i]
        <= sorted[xs.len() - 1] by {
        assert(xs.contains(xs[i]));
        assert(sorted.to_multiset().count(xs[i]) > 0);
        assert(sorted.contains(xs[i]));
        let k = choose|k: int| 0 <= k < sorted.len() && sorted[k] == xs[i];
        assert(k > 0 ==> no_longer()(sorted[0], sorted[k]));
        assert(k < sorted.len() - 1 ==> no_longer()(sorted[k], sorted[sorted.len() - 1]));
    }
}

/// The value at a percentile shows the value of the percentile's rank.
proof fn lemma_shows_rank(
    values: vstd::multiset::Multiset<u64>,
    pct: u8,
    r: u64,
    sorted: Seq<u64>,
)
    requires
        sorted.len() > 0,
        sorted_by(sorted, no_longer()),
        values == sorted.to_multiset(),
        0 < pct <= 100,
        histogram::quantile_shown(values, pct, r),
    ensures
        shows_rtt(r, sorted[rank_of(pct as int, sorted.len() as int) - 1]),
{
    let n = sorted.len() as int;
    vstd::seq_lib::to_multiset_len(sorted);
    assert(0 < pct * n <= 100 * n) by (nonlinear_arith)
        requires
            0 < pct <= 100,
            n > 0,
    ;
    let k = rank_of(pct as int, n);
    let x = sorted[k - 1];
    let v = choose|v: u64| #[trigger]
        values.contains(v) && r == histogram::bucket_ceiling(histogram::bucket_floor(v));
    let f = histogram::bucket_floor(v);
    histogram::lemma_bucket_of_ceiling(v);
    assert(histogram::bucket_floor(r) == f);
    let below = |y: u64| y < f;
    let through = |y: u64| histogram::bucket_floor(y) <= histogram::bucket_floor(r);
    if x < f {
        assert forall|i: int| 0 <= i < k implies below(#[trigger] sorted[i]) by {
            assert(i < k - 1 ==> no_longer()(sorted[i], sorted[k - 1]));
        }
        lemma_count_first(sorted, below, k);
    }
    assert(f <= x);
    if histogram::bucket_floor(x) > f {
        assert forall|i: int| k - 1 <= i < n implies !through(#[trigger] sorted[i]) by {
            assert(k - 1 < i ==> no_longer()(sorted[k - 1], sorted[i]));
            histogram::lemma_floors_ordered(x, sorted[i]);
        }
        lemma_count_rest(sorted, through, k - 1);
    }
    histogram::lemma_floors_ordered(f, x);
    assert(histogram::bucket_floor(x) == f);
    histogram::law_three_digits(x);
    histogram::lemma_shown_above(x);
}

/// Where the first `k` of a sequence meet `p`, at least `k` do.
proof fn lemma_count_first(xs: Seq<u64>, p: spec_fn(u64) -> bool, k: int)
    requires
        0 <= k <= xs.len(),
        forall|i: int| 0 <= i < k ==> p(#[trigger] xs[i]),
    ensures
        xs.to_multiset().filter(p).len() >= k,
    decreases xs.len(),
{
    if xs.len() > 0 {
        let ys = xs.drop_last();
        assert forall|i: int| 0 <= i < k && i < ys.len() implies p(#[trigger] ys[i]) by {
            assert(ys[i] == xs[i]);
        }
        lemma_count_last(xs, p);
        lemma_count_first(
            ys,
            p,
            if k < xs.len() {
                k
            } else {
                k - 1
            },
        );
    }
}

/// Where none of a sequence meets `p` but among its first `k`, at most `k` do.
proof fn lemma_count_rest(xs: Seq<u64>, p: spec_fn(u64) -> bool, k: int)
    requires
        0 <= k <= xs.len(),
        forall|i: int| k <= i < xs.len() ==> !p(#[trigger] xs[i]),
    ensures
        xs.to_multiset().filter(p).len() <= k,
    decreases xs.len(),
{
    if xs.len() > 0 {
        let ys = xs.drop_last();
        assert forall|i: int| k <= i < ys.len() implies !p(#[trigger] ys[i]) by {
            assert(ys[i] == xs[i]);
        }
        lemma_count_last(xs, p);
        lemma_count_rest(
            ys,
            p,
            if k < xs.len() {
                k
            } else {
                k - 1
            },
        );
    } else {
        broadcast use vstd::seq_lib::group_to_multiset_ensures;

        vstd::seq_lib::to_multiset_len(xs);
        assert(xs.to_multiset().filter(p) =~= vstd::multiset::Multiset::<u64>::empty());
    }
}

/// The last of a sequence counts when it meets `p`.
proof fn lemma_count_last(xs: Seq<u64>, p: spec_fn(u64) -> bool)
    requires
        xs.len() > 0,
    ensures
        xs.to_multiset().filter(p).len() == xs.drop_last().to_multiset().filter(p).len() + (if p(
            xs.last(),
        ) {
            1int
        } else {
            0int
        }),
{
    broadcast use vstd::seq_lib::group_to_multiset_ensures;

    let ys = xs.drop_last();
    assert(xs =~= ys.push(xs.last()));
    let (a, b) = (ys.to_multiset().filter(p), xs.to_multiset().filter(p));
    if p(xs.last()) {
        assert(b =~= a.insert(xs.last()));
    } else {
        assert(b =~= a);
    }
}

/// What a latency summary tells does not depend on the order in which the samples came; only
/// the raw samples keep it.
pub proof fn law_latency_ignores_order(
    s: LatencySummary,
    t: LatencySummary,
    xs: Seq<u64>,
    ys: Seq<u64>,
)
    requires
        s.summarises(xs),
        t.summarises(ys),
        xs.to_multiset() == ys.to_multiset(),
    ensures
        t == (LatencySummary { raw_samples_us: t.raw_samples_us, ..s }),
{
    vstd::seq_lib::to_multiset_len(xs);
    vstd::seq_lib::to_multiset_len(ys);
    lemma_recorded_ignores_order(xs, ys);
    if xs.len() > 0 {
        let values = recorded_rtts(xs).to_multiset();
        let (a, b) = (
            choose|m: u64| #[trigger]
                histogram::is_least(values, m) && s.min_us == (if m == u64::MAX {
                    m
                } else {
                    histogram::bucket_floor(m)
                }),
            choose|m: u64| #[trigger]
                histogram::is_least(values, m) && t.min_us == (if m == u64::MAX {
                    m
                } else {
                    histogram::bucket_floor(m)
                }),
        );
        assert(a <= b && b <= a);
        let (c, d) = (
            choose|m: u64| #[trigger]
                histogram::is_greatest(values, m) && s.max_us == histogram::bucket_ceiling(m),
            choose|m: u64| #[trigger]
                histogram::is_greatest(values, m) && t.max_us == histogram::bucket_ceiling(m),
        );
        assert(c <= d && d <= c);
    }
}

proof fn lemma_recorded_ignores_order(xs: Seq<u64>, ys: Seq<u64>)
    requires
        xs.to_multiset() == ys.to_multiset(),
    ensures
        recorded_rtts(xs).to_multiset() == recorded_rtts(ys).to_multiset(),
    decreases xs.len(),
{
    broadcast use vstd::seq_lib::group_to_multiset_ensures;

    vstd::seq_lib::to_multiset_len(xs);
    vstd::seq_lib::to_multiset_len(ys);
    if xs.len() == 0 {
        assert(recorded_rtts(xs) =~= recorded_rtts(ys));
    } else {
        let last = xs.len() - 1;
        let x = xs.last();
        assert(xs.contains(x));
        assert(ys.to_multiset().count(x) > 0);
        assert(ys.contains(x));
        let k = choose|k: int| 0 <= k < ys.len() && ys[k] == x;
        lemma_recorded_ignores_order(xs.remove(last), ys.remove(k));
        assert(recorded_rtts(xs.remove(last)) =~= recorded_rtts(xs).remove(last));
        assert(recorded_rtts(ys.remove(k)) =~= recorded_rtts(ys).remove(k));
        let (a, b) = (recorded_rtts(xs), recorded_rtts(ys));
        assert(a[last] == b[k]);
        assert(a.contains(a[last]) && b.contains(b[k]));
        assert(a.to_multiset() =~= a.to_multiset().remove(a[last]).insert(a[last]));
        assert(b.to_multiset() =~= b.to_multiset().remove(b[k]).insert(b[k]));
    }
}

/// More added latency never earns a better grade.
pub proof fn law_grade_worsens(a: int, b: int)
    requires
        0 <= a <= b,
    ensures
        grade_for(a) <= grade_for(b),
{
}

/// A sum is what is left when all samples are added up, and a sum of squares when all their
/// squares are.
pub proof fn law_sums(xs: Seq<u128>)
    ensures
        sum(xs) == xs.fold_left(0int, |total: int, x: u128| total + x),
        sum_of_squares(xs) == xs.fold_left(0int, |total: int, x: u128| total + x * x),
    decreases xs.len(),
{
    if xs.len() > 0 {
        law_sums(xs.drop_last());
    }
}

/// The sum of two runs of samples is the sum of their sums.
pub proof fn law_sums_add_up(xs: Seq<u128>, ys: Seq<u128>)
    ensures
        sum(xs + ys) == sum(xs) + sum(ys),
        sum_of_squares(xs + ys) == sum_of_squares(xs) + sum_of_squares(ys),
    decreases ys.len(),
{
    if ys.len() == 0 {
        assert(xs + ys =~= xs);
    } else {
        law_sums_add_up(xs, ys.drop_last());
        assert((xs + ys).drop_last() =~= xs + ys.drop_last());
        assert((xs + ys).last() == ys.last());
    }
}

/// A mean, taken as often as there are samples, is their sum; its fraction is a proper one.
pub proof fn law_mean(xs: Seq<u128>)
    requires
        0 < xs.len() <= u64::MAX,
    ensures
        mean_of(xs).whole * xs.len() + mean_of(xs).num == xs.fold_left(
            0int,
            |total: int, x: u128| total + x,
        ),
        mean_of(xs).num < mean_of(xs).den,
        mean_of(xs).den == xs.len(),
{
    law_sums(xs);
    lemma_mean_scaled(xs);
    vstd::arithmetic::div_mod::lemma_mod_bound(sum(xs), xs.len() as int);
}

/// The minimum and the maximum are samples, and no sample lies outside them.
pub proof fn law_extremes(s: Summary, xs: Seq<u128>)
    requires
        s.summarises(xs),
        0 < xs.len(),
    ensures
        xs.contains(s.min),
        xs.contains(s.max),
        forall|i: int| 0 <= i < xs.len() ==> s.min <= #[trigger] xs[i] <= s.max,
        s.count == xs.len(),
{
    broadcast use vstd::seq_lib::group_to_multiset_ensures;

    lemma_ascending_facts(xs);
    let sorted = order::ascending(xs);
    let last = xs.len() - 1;
    assert(sorted.contains(sorted[0]) && sorted.contains(sorted[last]));
    assert(xs.to_multiset().count(sorted[0]) > 0 && xs.to_multiset().count(sorted[last]) > 0);
}

/// `p` lies `pct` percent of the way through the ordered samples: between two of them it is
/// their weighted mean.
pub open spec fn lies_at(p: Ratio, sorted: Seq<u128>, pct: int) -> bool {
    let k = pct * (sorted.len() - 1);
    let above = if k / 100 + 1 < sorted.len() {
        k / 100 + 1
    } else {
        sorted.len() - 1
    };
    &&& p.den == 100
    &&& p.num < 100
    &&& p.whole * 100 + p.num == (100 - k % 100) * sorted[k / 100] + (k % 100) * sorted[above]
}

/// The percentiles of a summary are those of its samples, put in order in any way.
pub proof fn law_percentiles(s: Summary, xs: Seq<u128>, sorted: Seq<u128>)
    requires
        s.summarises(xs),
        0 < xs.len(),
        sorted.to_multiset() == xs.to_multiset(),
        forall|i: int, j: int|
            0 <= i < j < sorted.len() ==> #[trigger] sorted[i] <= #[trigger] sorted[j],
    ensures
        lies_at(s.p50, sorted, 50),
        lies_at(s.p75, sorted, 75),
        lies_at(s.p90, sorted, 90),
        lies_at(s.p95, sorted, 95),
        lies_at(s.p99, sorted, 99),
{
    assert(sorted_by(sorted, order::at_most()));
    order::lemma_ascending_unique(xs, sorted);
    lemma_ascending_facts(xs);
    lemma_lies_at(sorted, 50);
    lemma_lies_at(sorted, 75);
    lemma_lies_at(sorted, 90);
    lemma_lies_at(sorted, 95);
    lemma_lies_at(sorted, 99);
}

proof fn lemma_lies_at(sorted: Seq<u128>, pct: int)
    requires
        sorted_by(sorted, order::at_most()),
        sorted.len() > 0,
        0 <= pct <= 100,
    ensures
        lies_at(order::quantile_ratio(sorted, pct, 100), sorted, pct),
{
    lemma_percentile_scaled(sorted, pct);
    order::lemma_percentile_range(sorted, pct);
    order::law_percentile_is_weighted(sorted, pct);
}

/// How far a sample lies from the mean, squared and in units of the mean's fraction.
pub open spec fn squared_deviation(n: int, total: int) -> spec_fn(int, u128) -> int {
    |so_far: int, x: u128| so_far + (n * x - total) * (n * x - total)
}

/// The standard deviation is the root of the mean squared distance from the mean, rounded
/// down: with all distances counted in `n`-ths, `n` times its square is at most their
/// squares together, and with one more it is above them.
pub proof fn law_stdev(s: Summary, xs: Seq<u128>)
    requires
        s.summarises(xs),
        0 < xs.len(),
    ensures
        ({
            let n = xs.len() as int;
            let total = xs.fold_left(0int, |total: int, x: u128| total + x);
            let squares = xs.fold_left(0int, squared_deviation(n, total));
            let d = s.stdev as int;
            &&& n * ((d * n) * (d * n)) <= squares
            &&& squares < n * (((d + 1) * n) * ((d + 1) * n))
        }),
{
    law_sums(xs);
    let n = xs.len() as int;
    let total = sum(xs);
    lemma_deviations(xs, n, total);
    let q = sum_of_squares(xs);
    let v = scaled_variance(xs);
    assert((n * n) * q - 2 * (n * total) * total + n * (total * total) == n * (n * q - total
        * total)) by (nonlinear_arith);
    let (a, b) = ((s.stdev * n) * (s.stdev * n), ((s.stdev + 1) * n) * ((s.stdev + 1) * n));
    assert(n * a <= n * v < n * b) by (nonlinear_arith)
        requires
            n > 0,
            a <= v < b,
    ;
}

proof fn lemma_deviations(xs: Seq<u128>, n: int, total: int)
    ensures
        xs.fold_left(0int, squared_deviation(n, total)) == (n * n) * sum_of_squares(xs) - 2 * (n
            * total) * sum(xs) + xs.len() * (total * total),
    decreases xs.len(),
{
    if xs.len() > 0 {
        let ys = xs.drop_last();
        lemma_deviations(ys, n, total);
        let (x, k) = (xs.last() as int, ys.len() as int);
        let (s, q) = (sum(ys), sum_of_squares(ys));
        assert(xs.len() == k + 1);
        assert((n * x - total) * (n * x - total) == (n * n) * (x * x) - 2 * (n * total) * x + total
            * total) by (nonlinear_arith);
        assert((n * n) * (q + x * x) == (n * n) * q + (n * n) * (x * x) && 2 * (n * total) * (s
            + x) == 2 * (n * total) * s + 2 * (n * total) * x && (k + 1) * (total * total) == k * (
        total * total) + total * total) by (nonlinear_arith);
    } else {
        assert((n * n) * 0 == 0 && 2 * (n * total) * 0 == 0 && 0 * (total * total) == 0)
            by (nonlinear_arith);
    }
}

/// A round trip is recorded as it was, but for one of no time, which counts as one
/// microsecond.
pub proof fn law_recorded(samples: Seq<u64>, i: int)
    requires
        0 <= i < samples.len(),
    ensures
        recorded_rtts(samples).len() == samples.len(),
        samples[i] > 0 ==> recorded_rtts(samples)[i] == samples[i],
        samples[i] == 0 ==> recorded_rtts(samples)[i] == 1,
{
}

/// A latency summary counts and keeps every sample as it came. Its mean and its jitter are
/// the mean and the deviation of the histogram of what was recorded, and its percentiles the
/// histogram's values.
pub proof fn law_latency_keeps_all(s: LatencySummary, samples: Seq<u64>)
    requires
        s.summarises(samples),
    ensures
        s.count == samples.len(),
        s.raw_samples_us@ == samples,
        samples.len() > 0 ==> ({
            let values = recorded_rtts(samples).to_multiset();
            &&& s.mean_us_bits == histogram::mean_bits_of(values)
            &&& s.jitter_us_bits == histogram::stdev_bits_of(values)
            &&& s.p50_us == histogram::quantile_value(values, 50)
            &&& s.p90_us == histogram::quantile_value(values, 90)
            &&& s.p95_us == histogram::quantile_value(values, 95)
            &&& s.p99_us == histogram::quantile_value(values, 99)
        }),
        samples.len() == 0 ==> s.min_us == 0 && s.max_us == 0 && s.p50_us == 0 && s.p90_us == 0
            && s.p95_us == 0 && s.p99_us == 0 && s.mean_us_bits == 0 && s.jitter_us_bits == 0,
{
}

/// The grades by the latency that load adds: A below 5 ms, B below 30 ms, C below 60 ms, D
/// below 200 ms, and F.
pub proof fn law_grade_bands(added_ns: int)
    ensures
        grade_for(added_ns) == 'A' <==> added_ns < 5_000_000,
        grade_for(added_ns) == 'B' <==> 5_000_000 <= added_ns < 30_000_000,
        grade_for(added_ns) == 'C' <==> 30_000_000 <= added_ns < 60_000_000,
        grade_for(added_ns) == 'D' <==> 60_000_000 <= added_ns < 200_000_000,
        grade_for(added_ns) == 'F' <==> added_ns >= 200_000_000,
{
}

/// Bufferbloat is what load adds to the idle median: the added latency and the idle median
/// together are the median under load. Load that takes the median below the idle one adds
/// nothing. Without both medians, or with an idle median of zero, there is no grade.
pub proof fn law_bufferbloat(idle: Option<u128>, loaded: Option<u128>)
    ensures
        bloat(idle, loaded) is Some <==> idle is Some && loaded is Some && idle->0 > 0,
        bloat(idle, loaded) is Some ==> ({
            let g = bloat(idle, loaded)->0;
            &&& idle->0 <= loaded->0 ==> g.added_latency_ns + idle->0 == loaded->0
            &&& loaded->0 < idle->0 ==> g.added_latency_ns == 0
            &&& g.grade == 'A' <==> g.added_latency_ns < 5_000_000
            &&& g.grade == 'B' <==> 5_000_000 <= g.added_latency_ns < 30_000_000
            &&& g.grade == 'C' <==> 30_000_000 <= g.added_latency_ns < 60_000_000
            &&& g.grade == 'D' <==> 60_000_000 <= g.added_latency_ns < 200_000_000
            &&& g.grade == 'F' <==> g.added_latency_ns >= 200_000_000
        }),
{
}

/// Where nothing was measured there is nothing to report: every figure is zero.
pub proof fn law_nothing_measured(s: Summary, xs: Seq<u128>)
    requires
        s.summarises(xs),
        s.count == 0,
    ensures
        xs.len() == 0,
        s.min == 0 && s.max == 0 && s.stdev == 0,
        s.mean.whole == 0 && s.mean.num == 0,
        s.p50.whole == 0 && s.p50.num == 0,
        s.p75.whole == 0 && s.p75.num == 0,
        s.p90.whole == 0 && s.p90.num == 0,
        s.p95.whole == 0 && s.p95.num == 0,
        s.p99.whole == 0 && s.p99.num == 0,
{
    order::law_ascending(xs);
}

}
