//! A latency histogram, backed by the `hdrhistogram` crate.
//!
//! Everything in this module that speaks of the outside histogram is stated from its
//! source and not proved here.

use vstd::multiset::Multiset;
use vstd::prelude::*;

verus! {

/// A growing `hdrhistogram::Histogram<u64>`.
#[verifier::external_body]
pub struct LatencyHistogram {
    inner: hdrhistogram::Histogram<u64>,
}

/// The values that a histogram has recorded.
pub uninterp spec fn recorded(h: LatencyHistogram) -> Multiset<u64>;

/// The number of significant decimal digits that a histogram was made with.
pub uninterp spec fn precision(h: LatencyHistogram) -> u8;

/// `hdrhistogram::Histogram::value_at_percentile`, at a whole percentile, on a
/// histogram of three digits that has recorded the given values.
pub uninterp spec fn quantile_value(values: Multiset<u64>, pct: u8) -> u64;

/// The bits of what `hdrhistogram::Histogram::mean` returns, on a histogram of three
/// digits that has recorded the given values.
pub uninterp spec fn mean_bits_of(values: Multiset<u64>) -> u64;

/// The bits of what `hdrhistogram::Histogram::stdev` returns, on a histogram of three
/// digits that has recorded the given values.
pub uninterp spec fn stdev_bits_of(values: Multiset<u64>) -> u64;

/// How many neighbouring values share a bucket with `v` at three digits: one up to
/// 2047, and twice as many each time the value doubles.
pub open spec fn bucket_width(v: nat) -> nat
    decreases v,
{
    if v < 2048 {
        1
    } else {
        2 * bucket_width(v / 2)
    }
}

/// The least value in the bucket of `v`.
pub open spec fn bucket_floor(v: u64) -> u64 {
    (v as int - v as int % bucket_width(v as nat) as int) as u64
}

/// The value that stands for the upper end of the bucket of `v`. Its end is cut off at
/// `u64::MAX`.
pub open spec fn bucket_ceiling(v: u64) -> u64 {
    let end = bucket_floor(v) + bucket_width(v as nat);
    if v == u64::MAX {
        v
    } else if end > u64::MAX {
        (u64::MAX - 1) as u64
    } else {
        (end - 1) as u64
    }
}

/// `m` is the least of the values.
pub open spec fn is_least(values: Multiset<u64>, m: u64) -> bool {
    values.contains(m) && forall|v: u64| values.contains(v) ==> m <= v
}

/// `m` is the greatest of the values.
pub open spec fn is_greatest(values: Multiset<u64>, m: u64) -> bool {
    values.contains(m) && forall|v: u64| values.contains(v) ==> v <= m
}

/// How many of the values lie in the bucket of `r` or below it.
pub open spec fn count_through(values: Multiset<u64>, r: u64) -> nat {
    values.filter(|v: u64| bucket_floor(v) <= bucket_floor(r)).len()
}

/// How many of the values are below `r`.
pub open spec fn count_below(values: Multiset<u64>, r: u64) -> nat {
    values.filter(|v: u64| v < r).len()
}

/// `r` shows the least of the values: the lower end of its bucket.
pub open spec fn least_shown(values: Multiset<u64>, r: u64) -> bool {
    exists|m: u64| #[trigger]
        is_least(values, m) && r == (if m == u64::MAX {
            m
        } else {
            bucket_floor(m)
        })
}

/// `r` shows the greatest of the values: the upper end of its bucket.
pub open spec fn greatest_shown(values: Multiset<u64>, r: u64) -> bool {
    exists|m: u64| #[trigger] is_greatest(values, m) && r == bucket_ceiling(m)
}

/// The percentiles that are asked for. At these the rank, a product of floating point, is
/// exact below [`RANK_LIMIT`] values.
pub open spec fn exact_rank(pct: u8) -> bool {
    pct == 50 || pct == 90 || pct == 95 || pct == 99
}

/// What is promised of `r`, the value at a percentile: it is the upper end of the bucket
/// of a recorded value; it does not fall as the percentile rises; and its bucket is that of
/// the percentile's rank: less than `pct` percent of the values lie below the bucket, and
/// at least `pct` percent in it or below.
pub open spec fn quantile_shown(values: Multiset<u64>, pct: u8, r: u64) -> bool {
    &&& exists|v: u64| #[trigger] values.contains(v) && r == bucket_ceiling(bucket_floor(v))
    &&& forall|p: u8| exact_rank(p) && p <= pct ==> #[trigger] quantile_value(values, p) <= r
    &&& 100 * count_below(values, bucket_floor(r)) < pct * values.len()
    &&& pct * values.len() <= 100 * count_through(values, r)
}

/// How many values may be recorded before a percentile's rank can be off.
pub const RANK_LIMIT: u64 = 0x100_0000_0000;

impl LatencyHistogram {
    /// An empty histogram: `hdrhistogram::Histogram::new`, which accepts up to five
    /// significant digits and grows as values need it.
    #[verifier::external_body]
    pub(crate) fn new(digits: u8) -> (h: LatencyHistogram)
        requires
            digits <= 5,
        ensures
            recorded(h) == Multiset::<u64>::empty(),
            precision(h) == digits,
    {
        LatencyHistogram { inner: hdrhistogram::Histogram::new(digits).expect("histogram new") }
    }

    /// `hdrhistogram::Histogram::record`. The histogram grows as needed, so it refuses no
    /// value; its count is exact below `u64::MAX` values.
    #[verifier::external_body]
    pub(crate) fn record(&mut self, value: u64)
        requires
            recorded(*old(self)).len() < u64::MAX,
        ensures
            recorded(*final(self)) == recorded(*old(self)).insert(value),
            precision(*final(self)) == precision(*old(self)),
    {
        let _ = self.inner.record(value);
    }

    /// `hdrhistogram::Histogram::len`: how many values were recorded.
    #[verifier::external_body]
    pub(crate) fn count(&self) -> (n: u64)
        requires
            recorded(*self).len() <= u64::MAX,
        ensures
            n == recorded(*self).len(),
    {
        self.inner.len()
    }

    /// `hdrhistogram::Histogram::min`: the lower end of the bucket of the least value.
    #[verifier::external_body]
    pub(crate) fn min(&self) -> (r: u64)
        requires
            precision(*self) == 3,
            0 < recorded(*self).len() <= u64::MAX,
        ensures
            least_shown(recorded(*self), r),
    {
        self.inner.min()
    }

    /// `hdrhistogram::Histogram::max`: the upper end of the bucket of the greatest value.
    #[verifier::external_body]
    pub(crate) fn max(&self) -> (r: u64)
        requires
            precision(*self) == 3,
            0 < recorded(*self).len() <= u64::MAX,
        ensures
            greatest_shown(recorded(*self), r),
    {
        self.inner.max()
    }

    /// `hdrhistogram::Histogram::value_at_percentile`: the upper end of the bucket of the
    /// value of rank `pct / 100 * n`, rounded up. The rank is a product of floating point,
    /// exact at these percentiles below `2^40` values.
    #[verifier::external_body]
    pub(crate) fn value_at_percentile(&self, pct: u8) -> (r: u64)
        requires
            precision(*self) == 3,
            exact_rank(pct),
            0 < recorded(*self).len() <= u64::MAX,
        ensures
            r == quantile_value(recorded(*self), pct),
            recorded(*self).len() < RANK_LIMIT ==> quantile_shown(recorded(*self), pct, r),
    {
        self.inner.value_at_percentile(pct.into())
    }

    /// The bits of `hdrhistogram::Histogram::mean`.
    #[verifier::external_body]
    pub(crate) fn mean_bits(&self) -> (bits: u64)
        requires
            precision(*self) == 3,
        ensures
            bits == mean_bits_of(recorded(*self)),
    {
        self.inner.mean().to_bits()
    }

    /// The bits of `hdrhistogram::Histogram::stdev`.
    #[verifier::external_body]
    pub(crate) fn stdev_bits(&self) -> (bits: u64)
        requires
            precision(*self) == 3,
        ensures
            bits == stdev_bits_of(recorded(*self)),
    {
        self.inner.stdev().to_bits()
    }
}

/// The shape of the buckets: a value lies in the upper half of the range that its width
/// covers, and its bucket starts at a multiple of the width.
proof fn lemma_bucket_shape(v: nat)
    ensures
        bucket_width(v) >= 1,
        v < 2048 * bucket_width(v),
        bucket_width(v) > 1 ==> 1024 * bucket_width(v) <= v,
    decreases v,
{
    if v >= 2048 {
        lemma_bucket_shape(v / 2);
    }
}

proof fn lemma_width_steps(v: nat, m: nat)
    requires
        v <= m,
    ensures
        bucket_width(v) <= bucket_width(m),
        bucket_width(v) < bucket_width(m) ==> 2 * bucket_width(v) <= bucket_width(m),
    decreases m,
{
    lemma_bucket_shape(m);
    if m >= 2048 {
        lemma_bucket_shape(m / 2);
        if v >= 2048 {
            lemma_width_steps(v / 2, m / 2);
        }
    }
}

spec fn start(v: nat) -> nat {
    (v - v % bucket_width(v)) as nat
}

proof fn lemma_start(v: nat)
    ensures
        start(v) <= v < start(v) + bucket_width(v),
        start(v) % bucket_width(v) == 0,
        bucket_width(v) > 1 ==> 1024 * bucket_width(v) <= start(v),
        start(v) + bucket_width(v) <= 2048 * bucket_width(v),
{
    lemma_bucket_shape(v);
    let w = bucket_width(v) as int;
    let q = v as int / w;
    vstd::arithmetic::div_mod::lemma_fundamental_div_mod(v as int, w);
    assert(start(v) == w * q);
    vstd::arithmetic::div_mod::lemma_mod_multiples_basic(q, w);
    assert(w * q == q * w) by (nonlinear_arith);
    assert(w > 1 ==> 1024 <= q) by (nonlinear_arith)
        requires
            w >= 1,
            w > 1 ==> 1024 * w <= v,
            v < w * q + w,
    ;
    assert(w > 1 ==> 1024 * w <= w * q) by (nonlinear_arith)
        requires
            w >= 1,
            w > 1 ==> 1024 <= q,
    ;
    assert(q <= 2047) by (nonlinear_arith)
        requires
            w >= 1,
            w * q <= v,
            v < 2048 * w,
    ;
    assert(w * q + w <= 2048 * w) by (nonlinear_arith)
        requires
            w >= 1,
            q <= 2047,
    ;
}

/// The lower end of a bucket has the width of the bucket.
proof fn lemma_width_of_start(v: nat)
    ensures
        bucket_width(start(v)) == bucket_width(v),
        start(start(v)) == start(v),
    decreases v,
{
    if v < 2048 {
        assert(start(v) == v);
    } else {
        let u = v / 2;
        let w = bucket_width(u) as int;
        lemma_bucket_shape(u);
        lemma_bucket_shape(v);
        lemma_width_of_start(u);
        lemma_start(v);
        let q = u as int / w;
        let r = u as int % w;
        vstd::arithmetic::div_mod::lemma_fundamental_div_mod(u as int, w);
        vstd::arithmetic::div_mod::lemma_mod_bound(u as int, w);
        let b = v as int % 2;
        assert(v as int == q * (2 * w) + (2 * r + b)) by (nonlinear_arith)
            requires
                v as int == 2 * u + b,
                u as int == w * q + r,
        ;
        vstd::arithmetic::div_mod::lemma_fundamental_div_mod_converse(
            v as int,
            2 * w,
            q,
            2 * r + b,
        );
        assert(start(v) == v - (2 * r + b));
        assert(start(v) / 2 == start(u));
        assert(start(v) >= 2048);
        vstd::arithmetic::div_mod::lemma_small_mod(0, bucket_width(v));
    }
}

/// The buckets keep the order of the values: what a percentile shows of `v` is at most
/// what the maximum shows of a greater value `m`, and at least what the minimum shows of
/// a lesser value `m`.
pub proof fn lemma_buckets_ordered(v: u64, m: u64)
    ensures
        v <= m ==> bucket_ceiling(bucket_floor(v)) <= bucket_ceiling(m),
        m <= v && m < u64::MAX ==> bucket_floor(m) <= bucket_ceiling(bucket_floor(v)),
{
    lemma_start(v as nat);
    lemma_start(m as nat);
    lemma_width_of_start(v as nat);
    lemma_bucket_shape(v as nat);
    lemma_bucket_shape(m as nat);
    let (wv, wm) = (bucket_width(v as nat) as int, bucket_width(m as nat) as int);
    let (sv, sm) = (start(v as nat) as int, start(m as nat) as int);
    assert(bucket_floor(v) == sv);
    assert(bucket_floor(m) == sm);
    assert(bucket_floor(bucket_floor(v)) == sv);
    if v <= m {
        lemma_width_steps(v as nat, m as nat);
        if wv == wm {
            lemma_starts_ordered(v as int, m as int, wv);
        }
    }
    if m <= v {
        lemma_width_steps(m as nat, v as nat);
        if wv == wm {
            lemma_starts_ordered(m as int, v as int, wv);
        }
    }
}

/// What a histogram shows of a value is within a thousandth of it: what lies between is
/// less than a 1024th part.
pub proof fn law_three_digits(v: u64)
    ensures
        bucket_floor(v) <= v,
        1024 * (v - bucket_floor(v)) <= v,
        v <= bucket_ceiling(v),
        1024 * (bucket_ceiling(v) - v) <= v,
        1024 * (v - bucket_ceiling(bucket_floor(v))) <= v,
        1024 * (bucket_ceiling(bucket_floor(v)) - v) <= v,
{
    lemma_start(v as nat);
    lemma_bucket_shape(v as nat);
    lemma_width_of_start(v as nat);
    assert(bucket_floor(v) == start(v as nat));
    assert(bucket_floor(bucket_floor(v)) == start(v as nat));
}

/// What stands for the upper end of a bucket lies in that bucket.
pub proof fn lemma_bucket_of_ceiling(v: u64)
    ensures
        bucket_floor(bucket_floor(v)) == bucket_floor(v),
        bucket_floor(bucket_ceiling(bucket_floor(v))) == bucket_floor(v),
{
    lemma_start(v as nat);
    lemma_width_of_start(v as nat);
    let f = bucket_floor(v);
    let w = bucket_width(v as nat) as int;
    assert(f == start(v as nat));
    assert(bucket_floor(f) == f);
    let r = bucket_ceiling(f);
    lemma_bucket_shape(v as nat);
    assert(f <= r < f + w);
    lemma_same_bucket(f as nat, r as nat, w as nat);
}

proof fn lemma_same_bucket(f: nat, r: nat, w: nat)
    requires
        w >= 1,
        bucket_width(f) == w,
        f % w == 0,
        f <= r < f + w,
        f + w <= 2048 * w,
        w > 1 ==> 1024 * w <= f,
    ensures
        bucket_width(r) == w,
        start(r) == f,
{
    lemma_bucket_shape(r);
    lemma_width_steps(f, r);
    let wr = bucket_width(r);
    assert(wr == w) by {
        if wr > w {
            assert(1024 * wr <= r);
            assert(2 * w <= wr);
            assert(false);
        }
    }
    let d = (r - f) as int;
    vstd::arithmetic::div_mod::lemma_fundamental_div_mod(f as int, w as int);
    let q = f as int / w as int;
    assert(r as int == q * w + d) by (nonlinear_arith)
        requires
            f as int == w * q,
            d == r - f,
    ;
    vstd::arithmetic::div_mod::lemma_fundamental_div_mod_converse(r as int, w as int, q, d);
}

/// A percentile shows no less than the value it stands for, but for the greatest value.
pub proof fn lemma_shown_above(v: u64)
    ensures
        v < u64::MAX ==> v <= bucket_ceiling(bucket_floor(v)),
        v == u64::MAX ==> bucket_ceiling(bucket_floor(v)) == u64::MAX - 1,
{
    lemma_start(v as nat);
    lemma_width_of_start(v as nat);
    lemma_bucket_shape(v as nat);
    assert(bucket_floor(v) == start(v as nat));
    assert(bucket_floor(bucket_floor(v)) == start(v as nat));
    if v == u64::MAX {
        let (w, h) = (bucket_width(v as nat) as int, bucket_width((v / 2) as nat) as int);
        let f = start(v as nat) as int;
        assert(w == 2 * h);
        vstd::arithmetic::div_mod::lemma_fundamental_div_mod(f, w);
        let q = f / w;
        assert(w * q == 2 * (h * q)) by (nonlinear_arith)
            requires
                w == 2 * h,
        ;
        assert(f % 2 == 0);
    }
}

/// A bucket of values above zero starts above zero.
pub proof fn lemma_first_bucket(v: u64)
    requires
        v > 0,
    ensures
        bucket_floor(v) > 0,
{
    lemma_start(v as nat);
    lemma_bucket_shape(v as nat);
    assert(bucket_floor(v) == start(v as nat));
}

/// The buckets follow the order of the values.
pub proof fn lemma_floors_ordered(v: u64, m: u64)
    requires
        v <= m,
    ensures
        bucket_floor(v) <= bucket_floor(m) <= m,
{
    lemma_start(v as nat);
    lemma_start(m as nat);
    lemma_bucket_shape(v as nat);
    lemma_bucket_shape(m as nat);
    lemma_width_steps(v as nat, m as nat);
    let (wv, wm) = (bucket_width(v as nat) as int, bucket_width(m as nat) as int);
    assert(bucket_floor(v) == start(v as nat));
    assert(bucket_floor(m) == start(m as nat));
    if wv == wm {
        lemma_starts_ordered(v as int, m as int, wv);
    }
}

proof fn lemma_starts_ordered(x: int, y: int, w: int)
    requires
        0 <= x <= y,
        w >= 1,
    ensures
        x - x % w <= y - y % w,
{
    vstd::arithmetic::div_mod::lemma_fundamental_div_mod(x, w);
    vstd::arithmetic::div_mod::lemma_fundamental_div_mod(y, w);
    vstd::arithmetic::div_mod::lemma_div_is_ordered(x, y, w);
    assert(w * (x / w) <= w * (y / w)) by (nonlinear_arith)
        requires
            w >= 1,
            x / w <= y / w,
    ;
}

}
