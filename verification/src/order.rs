//! Ordered samples: sorting, and percentiles by linear interpolation.

use vstd::prelude::*;
use vstd::relations::sorted_by;

use crate::stats::Ratio;

verus! {

/// The order of the samples.
pub open spec fn at_most() -> spec_fn(u128, u128) -> bool {
    |a: u128, b: u128| a <= b
}

/// The samples in ascending order.
pub open spec fn ascending(xs: Seq<u128>) -> Seq<u128> {
    xs.sort_by(at_most())
}

/// The quantile `num / den` of samples that are already in ascending order, times `den`. The
/// rank `num / den * (n - 1)` falls on a sample or between two neighbours; between two,
/// their distance is divided in proportion.
pub open spec fn quantile_at(xs: Seq<u128>, num: int, den: int) -> int {
    if xs.len() == 0 {
        0
    } else {
        let scaled_rank = num * (xs.len() - 1);
        let lo = scaled_rank / den;
        let part = scaled_rank % den;
        if part == 0 {
            xs[lo] * den
        } else {
            xs[lo] * den + (xs[lo + 1] - xs[lo]) * part
        }
    }
}

/// The quantile `num / den` of samples in any order, times `den`.
pub open spec fn quantile_of(xs: Seq<u128>, num: int, den: int) -> int {
    quantile_at(ascending(xs), num, den)
}

/// The quantile `num / den` of samples that are already in ascending order.
pub open spec fn quantile_ratio(xs: Seq<u128>, num: int, den: int) -> Ratio {
    let scaled = quantile_at(xs, num, den);
    Ratio { whole: (scaled / den) as u128, num: (scaled % den) as u128, den: den as u128 }
}

/// The `pct`-th percentile of samples that are already in ascending order, in hundredths of
/// a sample unit.
pub open spec fn percentile_at(xs: Seq<u128>, pct: int) -> int {
    quantile_at(xs, pct, 100)
}

/// The `pct`-th percentile of samples in any order, in hundredths of a sample unit.
pub open spec fn percentile_of(xs: Seq<u128>, pct: int) -> int {
    percentile_at(ascending(xs), pct)
}

fn merge(a: &Vec<u128>, b: &Vec<u128>) -> (r: Vec<u128>)
    requires
        sorted_by(a@, at_most()),
        sorted_by(b@, at_most()),
    ensures
        sorted_by(r@, at_most()),
        r@.to_multiset() == (a@ + b@).to_multiset(),
{
    let mut r: Vec<u128> = Vec::new();
    let mut i: usize = 0;
    let mut j: usize = 0;
    assert(a@.take(0) + b@.take(0) =~= Seq::<u128>::empty());
    while i < a.len() || j < b.len()
        invariant
            i <= a.len(),
            j <= b.len(),
            sorted_by(a@, at_most()),
            sorted_by(b@, at_most()),
            sorted_by(r@, at_most()),
            forall|k: int, m: int| 0 <= k < r.len() && i <= m < a.len() ==> r@[k] <= a@[m],
            forall|k: int, m: int| 0 <= k < r.len() && j <= m < b.len() ==> r@[k] <= b@[m],
            r@.to_multiset() == (a@.take(i as int) + b@.take(j as int)).to_multiset(),
        decreases a.len() - i + b.len() - j,
    {
        let ghost before = r@;
        broadcast use vstd::seq_lib::group_to_multiset_ensures;
        assert forall|x: int, y: int| 0 <= x < y < a.len() implies a@[x] <= a@[y] by {
            assert(at_most()(a@[x], a@[y]));
        }
        assert forall|x: int, y: int| 0 <= x < y < b.len() implies b@[x] <= b@[y] by {
            assert(at_most()(b@[x], b@[y]));
        }
        if j == b.len() || (i < a.len() && a[i] <= b[j]) {
            let x: u128 = a[i];
            r.push(x);
            proof {
                lemma_pull_from_left(a@, b@, i as int, j as int);
            }
            i = i + 1;
        } else {
            let x: u128 = b[j];
            r.push(x);
            proof {
                lemma_pull_from_right(a@, b@, i as int, j as int);
            }
            j = j + 1;
        }
        assert(sorted_by(r@, at_most())) by {
            assert forall|x: int, y: int| 0 <= x < y < r.len() implies #[trigger] at_most()(
                r@[x],
                r@[y],
            ) by {
                if y < before.len() {
                    assert(at_most()(before[x], before[y]));
                }
            }
        }
    }
    assert(a@.take(i as int) =~= a@);
    assert(b@.take(j as int) =~= b@);
    r
}

proof fn lemma_pull_from_left(a: Seq<u128>, b: Seq<u128>, i: int, j: int)
    requires
        0 <= i < a.len(),
        0 <= j <= b.len(),
    ensures
        (a.take(i + 1) + b.take(j)).to_multiset() == (a.take(i) + b.take(j)).to_multiset().insert(
            a[i],
        ),
{
    broadcast use vstd::seq_lib::group_to_multiset_ensures;

    vstd::seq_lib::lemma_multiset_commutative(a.take(i + 1), b.take(j));
    vstd::seq_lib::lemma_multiset_commutative(a.take(i), b.take(j));
    assert(a.take(i + 1) =~= a.take(i).push(a[i]));
    assert((a.take(i + 1) + b.take(j)).to_multiset() =~= (a.take(i)
        + b.take(j)).to_multiset().insert(a[i]));
}

proof fn lemma_pull_from_right(a: Seq<u128>, b: Seq<u128>, i: int, j: int)
    requires
        0 <= i <= a.len(),
        0 <= j < b.len(),
    ensures
        (a.take(i) + b.take(j + 1)).to_multiset() == (a.take(i) + b.take(j)).to_multiset().insert(
            b[j],
        ),
{
    broadcast use vstd::seq_lib::group_to_multiset_ensures;

    assert(a.take(i) + b.take(j + 1) =~= (a.take(i) + b.take(j)).push(b[j]));
}

fn sort_range(xs: &Vec<u128>, lo: usize, hi: usize) -> (r: Vec<u128>)
    requires
        lo <= hi <= xs.len(),
    ensures
        sorted_by(r@, at_most()),
        r@.to_multiset() == xs@.subrange(lo as int, hi as int).to_multiset(),
    decreases hi - lo,
{
    if hi - lo <= 1 {
        let mut r: Vec<u128> = Vec::new();
        if lo < hi {
            r.push(xs[lo]);
        }
        assert(r@ =~= xs@.subrange(lo as int, hi as int));
        r
    } else {
        let mid: usize = lo + (hi - lo) / 2;
        let left = sort_range(xs, lo, mid);
        let right = sort_range(xs, mid, hi);
        proof {
            let l = xs@.subrange(lo as int, mid as int);
            let r = xs@.subrange(mid as int, hi as int);
            assert(l + r =~= xs@.subrange(lo as int, hi as int));
            vstd::seq_lib::lemma_multiset_commutative(l, r);
            vstd::seq_lib::lemma_multiset_commutative(left@, right@);
        }
        merge(&left, &right)
    }
}

/// Whatever is sorted and holds the same samples is the ascending arrangement.
pub proof fn lemma_ascending_unique(xs: Seq<u128>, r: Seq<u128>)
    requires
        sorted_by(r, at_most()),
        r.to_multiset() == xs.to_multiset(),
    ensures
        r == ascending(xs),
{
    xs.lemma_sort_by_ensures(at_most());
    vstd::seq_lib::lemma_sorted_unique(r, ascending(xs), at_most());
}

/// Sorts samples in ascending order.
pub fn sorted(xs: &Vec<u128>) -> (r: Vec<u128>)
    ensures
        r@ == ascending(xs@),
{
    let r = sort_range(xs, 0, xs.len());
    assert(xs@.subrange(0, xs.len() as int) =~= xs@);
    proof {
        lemma_ascending_unique(xs@, r@);
    }
    r
}

/// Where a rank falls: on a sample, or between two neighbours.
proof fn lemma_rank(last: int, num: int, den: int)
    requires
        0 <= last,
        0 <= num <= den,
        den > 0,
    ensures
        num * last == den * (num * last / den) + num * last % den,
        0 <= num * last % den < den,
        0 <= num * last / den <= last,
        num * last % den != 0 ==> num * last / den < last,
{
    let (a, q, r) = (num * last, num * last / den, num * last % den);
    vstd::arithmetic::div_mod::lemma_fundamental_div_mod(a, den);
    vstd::arithmetic::div_mod::lemma_mod_bound(a, den);
    assert(0 <= a <= den * last) by (nonlinear_arith)
        requires
            0 <= num <= den,
            0 <= last,
            a == num * last,
    ;
    assert(0 <= q <= last && (r != 0 ==> q < last)) by (nonlinear_arith)
        requires
            a == den * q + r,
            0 <= r < den,
            0 <= a <= den * last,
            den > 0,
    ;
}

/// A quantile lies between the least and the greatest sample.
proof fn lemma_quantile_range(xs: Seq<u128>, num: int, den: int)
    requires
        sorted_by(xs, at_most()),
        0 <= num <= den,
        den > 0,
    ensures
        0 <= quantile_at(xs, num, den) <= den * u128::MAX,
        xs.len() > 0 ==> den * xs[0] <= quantile_at(xs, num, den) <= den * xs[xs.len() - 1],
{
    if xs.len() > 0 {
        let last = xs.len() - 1;
        lemma_rank(last, num, den);
        let lo = num * last / den;
        let part = num * last % den;
        assert(lo > 0 ==> at_most()(xs[0], xs[lo]));
        assert(lo < last ==> at_most()(xs[lo], xs[last]));
        let (first, here, end) = (xs[0] as int, xs[lo] as int, xs[last] as int);
        assert(0 <= den * first <= here * den <= den * end <= den * u128::MAX) by (nonlinear_arith)
            requires
                0 <= first <= here <= end <= u128::MAX,
                den > 0,
        ;
        if part != 0 {
            assert(at_most()(xs[lo], xs[lo + 1]));
            assert(lo + 1 < last ==> at_most()(xs[lo + 1], xs[last]));
            let next = xs[lo + 1] as int;
            assert(0 <= (next - here) * part && here * den + (next - here) * part <= den * end)
                by (nonlinear_arith)
                requires
                    0 <= here <= next <= end,
                    0 <= part <= den,
            ;
        }
    } else {
        assert(0 <= den * u128::MAX) by (nonlinear_arith)
            requires
                den > 0,
        ;
    }
}

/// A higher quantile is not a lesser value.
proof fn lemma_quantile_monotone(xs: Seq<u128>, p: int, q: int, den: int)
    requires
        sorted_by(xs, at_most()),
        0 <= p <= q <= den,
        den > 0,
    ensures
        quantile_at(xs, p, den) <= quantile_at(xs, q, den),
{
    if xs.len() > 0 {
        let last = xs.len() - 1;
        let (a, b) = (p * last, q * last);
        assert(a <= b) by (nonlinear_arith)
            requires
                a == p * last,
                b == q * last,
                p <= q,
                0 <= last,
        ;
        lemma_rank(last, p, den);
        lemma_rank(last, q, den);
        vstd::arithmetic::div_mod::lemma_div_is_ordered(a, b, den);
        let (lo, hi) = (a / den, b / den);
        let (part, rest) = (a % den, b % den);
        assert(part != 0 ==> at_most()(xs[lo], xs[lo + 1]));
        assert(rest != 0 ==> at_most()(xs[hi], xs[hi + 1]));
        if lo == hi {
            assert(part <= rest);
            if rest != 0 {
                let gap = xs[lo + 1] - xs[lo];
                assert(0 <= gap * part <= gap * rest) by (nonlinear_arith)
                    requires
                        gap >= 0,
                        0 <= part <= rest,
                ;
            }
        } else {
            assert(at_most()(xs[lo], xs[hi]));
            assert(lo + 1 < hi ==> at_most()(xs[lo + 1], xs[hi]));
            let (here, there) = (xs[lo] as int, xs[hi] as int);
            assert(here * den <= there * den) by (nonlinear_arith)
                requires
                    here <= there,
                    den > 0,
            ;
            if part != 0 {
                let next = xs[lo + 1] as int;
                assert(here * den + (next - here) * part <= there * den) by (nonlinear_arith)
                    requires
                        here <= next <= there,
                        0 <= part <= den,
                ;
            }
            if rest != 0 {
                let gap = xs[hi + 1] - xs[hi];
                assert(0 <= gap * rest) by (nonlinear_arith)
                    requires
                        gap >= 0,
                        0 <= rest,
                ;
            }
        }
    }
}

/// A percentile lies between the least and the greatest sample.
pub proof fn lemma_percentile_range(xs: Seq<u128>, pct: int)
    requires
        sorted_by(xs, at_most()),
        0 <= pct <= 100,
    ensures
        0 <= percentile_at(xs, pct) <= 100 * u128::MAX,
        xs.len() > 0 ==> 100 * xs[0] <= percentile_at(xs, pct) <= 100 * xs[xs.len() - 1],
{
    lemma_quantile_range(xs, pct, 100);
}

/// A higher percentile is not a lesser value.
pub proof fn lemma_percentile_monotone(xs: Seq<u128>, p: int, q: int)
    requires
        sorted_by(xs, at_most()),
        0 <= p <= q <= 100,
    ensures
        percentile_at(xs, p) <= percentile_at(xs, q),
{
    lemma_quantile_monotone(xs, p, q, 100);
}

/// Quantiles at any fraction: those of samples in any order are those of the ordered
/// samples; no samples have the quantile 0; at the ends they are the least and the greatest
/// sample, and between they rise with the fraction.
pub proof fn law_quantiles(xs: Seq<u128>, p: int, q: int, den: int)
    requires
        0 <= p <= q <= den,
        den > 0,
    ensures
        quantile_of(xs, p, den) == quantile_at(ascending(xs), p, den),
        quantile_of(ascending(xs), p, den) == quantile_of(xs, p, den),
        xs.len() == 0 ==> quantile_of(xs, p, den) == 0,
        xs.len() > 0 ==> {
            &&& quantile_of(xs, 0, den) == ascending(xs)[0] * den
            &&& quantile_of(xs, den, den) == ascending(xs)[xs.len() - 1] * den
        },
        quantile_of(xs, p, den) <= quantile_of(xs, q, den),
{
    let sorted = ascending(xs);
    xs.lemma_sort_by_ensures(at_most());
    lemma_ascending_unique(sorted, sorted);
    lemma_quantile_monotone(sorted, p, q, den);
    vstd::seq_lib::to_multiset_len(xs);
    vstd::seq_lib::to_multiset_len(sorted);
    if xs.len() > 0 {
        let last = xs.len() - 1;
        assert(0 * last == 0);
        vstd::arithmetic::div_mod::lemma_div_basics(den);
        vstd::arithmetic::div_mod::lemma_small_mod(0, den as nat);
        vstd::arithmetic::div_mod::lemma_fundamental_div_mod_converse(0, den, 0, 0);
        assert(den * last == last * den + 0) by (nonlinear_arith);
        vstd::arithmetic::div_mod::lemma_fundamental_div_mod_converse(den * last, den, last, 0);
    }
}

/// A quantile is a value at a fraction, however the fraction is written: with both its terms
/// multiplied, the value is the same.
pub proof fn law_quantile_of_a_fraction(xs: Seq<u128>, num: int, den: int, k: int)
    requires
        0 <= num <= den,
        den > 0,
        k > 0,
    ensures
        quantile_of(xs, k * num, k * den) == k * quantile_of(xs, num, den),
{
    let sorted = ascending(xs);
    if sorted.len() > 0 {
        let last = sorted.len() - 1;
        lemma_rank(last, num, den);
        let (lo, part) = (num * last / den, num * last % den);
        let (a, d) = ((k * num) * last, k * den);
        assert(a == lo * d + k * part && 0 <= k * part < d && d > 0 && (k * part == 0) == (part
            == 0)) by (nonlinear_arith)
            requires
                num * last == den * lo + part,
                0 <= part < den,
                k > 0,
                a == (k * num) * last,
                d == k * den,
        ;
        vstd::arithmetic::div_mod::lemma_fundamental_div_mod_converse(a, d, lo, k * part);
        let here = sorted[lo] as int;
        assert(here * d == k * (here * den)) by (nonlinear_arith)
            requires
                d == k * den,
        ;
        if part != 0 {
            let gap = sorted[lo + 1] - sorted[lo];
            assert(here * d + gap * (k * part) == k * (here * den + gap * part))
                by (nonlinear_arith)
                requires
                    d == k * den,
            ;
        }
    }
}

/// The quantile `num / den` of ascending samples. No samples have the quantile 0.
pub fn quantile(sorted: &Vec<u128>, num: u64, den: u64) -> (q: Ratio)
    requires
        sorted_by(sorted@, at_most()),
        num <= den,
        den > 0,
    ensures
        q == quantile_ratio(sorted@, num as int, den as int),
{
    let d: u128 = den as u128;
    if sorted.len() == 0 {
        proof {
            vstd::arithmetic::div_mod::lemma_fundamental_div_mod_converse(0, den as int, 0, 0);
        }
        return Ratio { whole: 0, num: 0, den: d };
    }
    let last: u128 = (sorted.len() - 1) as u128;
    assert(0 <= num * last <= u64::MAX * u64::MAX) by (nonlinear_arith)
        requires
            0 <= num <= u64::MAX,
            0 <= last <= u64::MAX,
    ;
    let scaled_rank: u128 = num as u128 * last;
    proof {
        lemma_rank(last as int, num as int, den as int);
    }
    let lo: usize = (scaled_rank / d) as usize;
    let part: u128 = scaled_rank % d;
    let below: u128 = sorted[lo];
    if part == 0 {
        proof {
            let scaled = below * d;
            vstd::arithmetic::div_mod::lemma_fundamental_div_mod_converse(
                scaled,
                d as int,
                below as int,
                0,
            );
        }
        return Ratio { whole: below, num: 0, den: d };
    }
    let above: u128 = sorted[lo + 1];
    assert(at_most()(sorted@[lo as int], sorted@[lo + 1]));
    let gap: u128 = above - below;
    let steps: u128 = gap / d;
    let rest: u128 = gap % d;
    assert(gap == d * steps + rest) by {
        vstd::arithmetic::div_mod::lemma_fundamental_div_mod(gap as int, d as int);
    }
    assert(0 <= rest * part <= u64::MAX * u64::MAX && 0 <= steps * part <= steps * d && steps * d
        == d * steps) by (nonlinear_arith)
        requires
            0 <= rest < d <= u64::MAX,
            0 <= part < d,
            0 <= steps,
    ;
    let over: u128 = rest * part;
    let carry: u128 = over / d;
    proof {
        vstd::arithmetic::div_mod::lemma_fundamental_div_mod(over as int, d as int);
        vstd::arithmetic::div_mod::lemma_mod_bound(over as int, d as int);
        assert(carry <= rest) by (nonlinear_arith)
            requires
                d * carry <= over,
                over == rest * part,
                0 <= part < d,
                0 <= rest,
        ;
        let whole = below + steps * part + carry;
        let scaled = below * d + gap * part;
        assert(scaled == whole * d + over % d) by (nonlinear_arith)
            requires
                scaled == below * d + gap * part,
                gap == d * steps + rest,
                over == rest * part,
                over == d * carry + over % d,
                whole == below + steps * part + carry,
        ;
        vstd::arithmetic::div_mod::lemma_fundamental_div_mod_converse(
            scaled,
            d as int,
            whole,
            (over % d) as int,
        );
    }
    Ratio { whole: below + steps * part + carry, num: over % d, den: d }
}

/// The `pct`-th percentile of ascending samples. No samples have the percentile 0.
pub fn percentile(sorted: &Vec<u128>, pct: u64) -> (p: Ratio)
    requires
        sorted_by(sorted@, at_most()),
        pct <= 100,
    ensures
        p == quantile_ratio(sorted@, pct as int, 100),
{
    quantile(sorted, pct, 100)
}

/// The ordered samples are the samples: none is lost or made up, and none stands before a
/// lesser one.
pub proof fn law_ascending(xs: Seq<u128>)
    ensures
        ascending(xs).len() == xs.len(),
        ascending(xs).to_multiset() == xs.to_multiset(),
        forall|i: int, j: int|
            0 <= i <= j < xs.len() ==> #[trigger] ascending(xs)[i] <= #[trigger] ascending(xs)[j],
{
    let sorted = ascending(xs);
    xs.lemma_sort_by_ensures(at_most());
    vstd::seq_lib::to_multiset_len(xs);
    vstd::seq_lib::to_multiset_len(sorted);
    assert forall|i: int, j: int| 0 <= i <= j < xs.len() implies #[trigger] sorted[i]
        <= #[trigger] sorted[j] by {
        if i < j {
            assert(at_most()(sorted[i], sorted[j]));
        }
    }
}

/// A quantile between two neighbours is their weighted mean: at `t / m` of the way from the
/// sample of rank `j` to the next one, it is that share of the one and the rest of the other.
pub proof fn law_quantile_is_weighted(xs: Seq<u128>, j: int, t: int, m: int)
    requires
        xs.len() > 1,
        0 <= j < xs.len() - 1,
        0 <= t <= m,
        m > 0,
    ensures
        quantile_at(xs, j * m + t, (xs.len() - 1) * m) == (xs.len() - 1) * ((m - t) * xs[j] + t
            * xs[j + 1]),
{
    let last = xs.len() - 1;
    let (num, den) = (j * m + t, last * m);
    let (x, y) = (xs[j] as int, xs[j + 1] as int);
    assert(den > 0) by (nonlinear_arith)
        requires
            den == last * m,
            last > 0,
            m > 0,
    ;
    if t < m {
        assert(num * last == j * den + t * last && 0 <= t * last < den) by (nonlinear_arith)
            requires
                num == j * m + t,
                den == last * m,
                0 <= t < m,
                last > 0,
        ;
        vstd::arithmetic::div_mod::lemma_fundamental_div_mod_converse(num * last, den, j, t * last);
        assert(t * last == 0 <==> t == 0) by (nonlinear_arith)
            requires
                last > 0,
        ;
        assert(x * den + (y - x) * (t * last) == last * ((m - t) * x + t * y)) by (nonlinear_arith)
            requires
                den == last * m,
        ;
        if t == 0 {
            assert((y - x) * (t * last) == 0) by (nonlinear_arith)
                requires
                    t == 0,
            ;
        }
    } else {
        assert(num * last == (j + 1) * den + 0) by (nonlinear_arith)
            requires
                num == j * m + t,
                den == last * m,
                t == m,
        ;
        vstd::arithmetic::div_mod::lemma_fundamental_div_mod_converse(num * last, den, j + 1, 0);
        assert(y * den == last * ((m - t) * x + t * y)) by (nonlinear_arith)
            requires
                den == last * m,
                t == m,
        ;
    }
}

/// A percentile, told by its rank: `pct` percent of the way through `n` ordered samples is
/// `k / 100` steps beyond the first. What goes beyond a whole step is shared out between the
/// two samples on either side.
pub proof fn law_percentile_is_weighted(sorted: Seq<u128>, pct: int)
    requires
        sorted.len() > 0,
        0 <= pct <= 100,
    ensures
        ({
            let k = pct * (sorted.len() - 1);
            let above = if k / 100 + 1 < sorted.len() {
                k / 100 + 1
            } else {
                sorted.len() - 1
            };
            &&& 0 <= k / 100 < sorted.len()
            &&& percentile_at(sorted, pct) == (100 - k % 100) * sorted[k / 100] + (k % 100)
                * sorted[above]
        }),
{
    let last = sorted.len() - 1;
    lemma_rank(last, pct, 100);
    let k = pct * last;
    let (lo, part) = (k / 100, k % 100);
    let x = sorted[lo] as int;
    if part != 0 {
        let y = sorted[lo + 1] as int;
        assert(x * 100 + (y - x) * part == (100 - part) * x + part * y) by (nonlinear_arith);
    } else {
        assert((100 - part) * x == 100 * x) by (nonlinear_arith)
            requires
                part == 0,
        ;
        let above = if lo + 1 < sorted.len() {
            lo + 1
        } else {
            last
        };
        assert(part * sorted[above] == 0) by (nonlinear_arith)
            requires
                part == 0,
        ;
    }
}

}
