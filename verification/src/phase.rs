//! A throughput phase, from its timeline to its report.

use vstd::prelude::*;

use crate::report::PhaseReport;
use crate::sampler::Sample;
use crate::stats;
use crate::stats::{Ratio, Summary};
use crate::wide::Wide;

verus! {

/// How long a phase warms up, in nanoseconds. TCP slow start and the TLS handshake make
/// earlier samples unrepresentative of the steady rate.
pub const WARMUP_NS: u128 = 1_000_000_000;

/// The rates of the samples that follow the warm-up, in their order.
pub open spec fn after_warmup(timeline: Seq<Sample>) -> Seq<u128>
    decreases timeline.len(),
{
    if timeline.len() == 0 {
        Seq::empty()
    } else {
        let rest = after_warmup(timeline.drop_last());
        if timeline.last().t_ns >= WARMUP_NS {
            rest.push(timeline.last().rate)
        } else {
            rest
        }
    }
}

/// The mean over the last half of the rates, where there are at least four.
pub open spec fn stable_of(rates: Seq<u128>) -> Option<Ratio> {
    if rates.len() < 4 {
        None
    } else {
        Some(stats::mean_of(rates.skip((rates.len() / 2) as int)))
    }
}

/// A sample runs at 90% of `peak` or more.
pub open spec fn near_peak(peak: u128) -> spec_fn(Sample) -> bool {
    |s: Sample| 10 * s.rate >= 9 * peak
}

/// A sample runs at 95% of `rate` or more.
pub open spec fn saturated(rate: Ratio) -> spec_fn(Sample) -> bool {
    |s: Sample| 100 * s.rate * rate.den >= 95 * rate.scaled()
}

/// `t` is the time of the first sample that meets `p`, if any does.
pub open spec fn is_first_time(
    timeline: Seq<Sample>,
    p: spec_fn(Sample) -> bool,
    t: Option<u128>,
) -> bool {
    match t {
        None => forall|i: int| 0 <= i < timeline.len() ==> !p(#[trigger] timeline[i]),
        Some(t) => exists|i: int|
            0 <= i < timeline.len() && p(#[trigger] timeline[i]) && timeline[i].t_ns == t && (
            forall|j: int| 0 <= j < i ==> !p(#[trigger] timeline[j])),
    }
}

/// What a phase report says of the phase.
pub open spec fn reports(
    r: PhaseReport,
    label: &'static str,
    total_bytes: u64,
    requests: u64,
    errors: u64,
    elapsed_ns: u128,
    timeline: Seq<Sample>,
) -> bool {
    let rates = after_warmup(timeline);
    &&& r.label == label
    &&& r.duration_ns == elapsed_ns
    &&& r.total_bytes == total_bytes
    &&& r.requests == requests
    &&& r.errors == errors
    &&& r.mean_mbps == (if elapsed_ns == 0 {
        Ratio { whole: 0, num: 0, den: 1 }
    } else {
        Ratio { whole: 0, num: (total_bytes * 8000) as u128, den: elapsed_ns }
    })
    &&& r.timeline_summary.summarises(rates)
    &&& r.timeline@ == timeline
    &&& r.stable == stable_of(rates)
    &&& if r.timeline_summary.max > 0 {
        is_first_time(timeline, near_peak(r.timeline_summary.max), r.time_to_p90_ns)
    } else {
        r.time_to_p90_ns is None
    }
    &&& match r.stable {
        Some(stable) if stable.scaled() > 0 => is_first_time(
            timeline,
            saturated(stable),
            r.time_to_saturation_ns,
        ),
        _ => r.time_to_saturation_ns is None,
    }
}

fn rates_after_warmup(timeline: &Vec<Sample>) -> (rates: Vec<u128>)
    ensures
        rates@ == after_warmup(timeline@),
{
    let mut rates: Vec<u128> = Vec::new();
    assert(timeline@.take(0) =~= Seq::<Sample>::empty());
    for i in 0..timeline.len()
        invariant
            rates@ == after_warmup(timeline@.take(i as int)),
    {
        assert(timeline@.take(i + 1).drop_last() =~= timeline@.take(i as int));
        if timeline[i].t_ns >= WARMUP_NS {
            rates.push(timeline[i].rate);
        }
    }
    assert(timeline@.take(timeline.len() as int) =~= timeline@);
    rates
}

/// The mean over the last half of the rates, where there are at least four.
pub fn stable_rate(rates: &Vec<u128>) -> (stable: Option<Ratio>)
    ensures
        stable == stable_of(rates@),
        stable matches Some(r) ==> r.num < r.den <= u64::MAX,
{
    if rates.len() < 4 {
        return None;
    }
    let half: usize = rates.len() / 2;
    let mut tail: Vec<u128> = Vec::new();
    for i in half..rates.len()
        invariant
            half <= rates.len(),
            tail@ == rates@.subrange(half as int, i as int),
    {
        tail.push(rates[i]);
        assert(tail@ =~= rates@.subrange(half as int, i + 1));
    }
    assert(tail@ =~= rates@.skip(half as int));
    Some(stats::exact_mean(&tail))
}

fn time_to_peak(timeline: &Vec<Sample>, peak: u128) -> (t: Option<u128>)
    ensures
        is_first_time(timeline@, near_peak(peak), t),
{
    let target = Wide::product(peak, 9);
    for i in 0..timeline.len()
        invariant
            target.value() == peak * 9,
            forall|j: int| 0 <= j < i ==> !near_peak(peak)(#[trigger] timeline@[j]),
    {
        if target.at_most(Wide::product(timeline[i].rate, 10)) {
            assert(near_peak(peak)(timeline@[i as int]));
            return Some(timeline[i].t_ns);
        }
    }
    None
}

fn time_to_rate(timeline: &Vec<Sample>, rate: Ratio) -> (t: Option<u128>)
    requires
        rate.num < rate.den <= u64::MAX,
    ensures
        is_first_time(timeline@, saturated(rate), t),
{
    let (whole, num, den): (u128, u128, u128) = (rate.whole, rate.num, rate.den);
    assert(0 <= whole * (95 * den) <= u128::MAX * (95 * u64::MAX)) by (nonlinear_arith)
        requires
            0 <= whole <= u128::MAX,
            0 <= den <= u64::MAX,
    ;
    assert(u128::MAX * (95 * u64::MAX) + 95 * u64::MAX < crate::wide::limb()
        * crate::wide::limb());
    let target = Wide::product(whole, 95 * den).plus(Wide { hi: 0, lo: 95 * num });
    assert(target.value() == 95 * rate.scaled()) by (nonlinear_arith)
        requires
            target.value() == whole * (95 * den) + 95 * num,
            rate.scaled() == whole * den + num,
    ;
    for i in 0..timeline.len()
        invariant
            den == rate.den,
            den <= u64::MAX,
            target.value() == 95 * rate.scaled(),
            forall|j: int| 0 <= j < i ==> !saturated(rate)(#[trigger] timeline@[j]),
    {
        let x: u128 = timeline[i].rate;
        assert(x * (100 * den) == 100 * x * den) by (nonlinear_arith);
        if target.at_most(Wide::product(x, 100 * den)) {
            assert(saturated(rate)(timeline@[i as int]));
            return Some(timeline[i].t_ns);
        }
    }
    None
}

/// Builds the report of a phase.
pub fn build_phase_report(
    label: &'static str,
    total_bytes: u64,
    requests: u64,
    errors: u64,
    elapsed_ns: u128,
    timeline: Vec<Sample>,
) -> (r: PhaseReport)
    ensures
        reports(r, label, total_bytes, requests, errors, elapsed_ns, timeline@),
{
    let mean_mbps = stats::bytes_to_mbps(total_bytes, elapsed_ns);
    let rates = rates_after_warmup(&timeline);
    let timeline_summary = Summary::from_samples(&rates);
    let stable = stable_rate(&rates);
    let peak: u128 = timeline_summary.max;
    let time_to_p90_ns = if peak > 0 {
        time_to_peak(&timeline, peak)
    } else {
        None
    };
    proof {
        if let Some(rate) = stable {
            assert(rate.whole * rate.den + rate.num > 0 <==> (rate.whole > 0 || rate.num > 0))
                by (nonlinear_arith)
                requires
                    rate.den > 0,
            ;
        }
    }
    let time_to_saturation_ns = match stable {
        Some(rate) => if rate.whole > 0 || rate.num > 0 {
            time_to_rate(&timeline, rate)
        } else {
            None
        },
        None => None,
    };
    PhaseReport {
        label,
        duration_ns: elapsed_ns,
        total_bytes,
        requests,
        errors,
        mean_mbps,
        timeline_summary,
        timeline,
        stable,
        time_to_p90_ns,
        time_to_saturation_ns,
    }
}

/// Every rate after the warm-up is the rate of a sample on the timeline.
proof fn lemma_rate_has_sample(timeline: Seq<Sample>, k: int) -> (i: int)
    requires
        0 <= k < after_warmup(timeline).len(),
    ensures
        0 <= i < timeline.len(),
        timeline[i].rate == after_warmup(timeline)[k],
        timeline[i].t_ns >= WARMUP_NS,
    decreases timeline.len(),
{
    let rest = after_warmup(timeline.drop_last());
    if k < rest.len() {
        lemma_rate_has_sample(timeline.drop_last(), k)
    } else {
        timeline.len() - 1
    }
}

/// Among numbers there is one that is not below their mean.
proof fn lemma_some_reach_mean(xs: Seq<u128>) -> (k: int)
    requires
        xs.len() > 0,
    ensures
        0 <= k < xs.len(),
        xs[k] * xs.len() >= stats::sum(xs),
    decreases xs.len(),
{
    let ys = xs.drop_last();
    let x = xs.last() as int;
    let n = ys.len() as int;
    let total = stats::sum(ys);
    assert(xs.len() == n + 1);
    assert(stats::sum(xs) == total + x);
    if n == 0 {
        assert(total == 0);
        assert(xs[0] == x);
        assert(xs[0] * xs.len() == x) by (nonlinear_arith)
            requires
                xs[0] == x,
                xs.len() == 1,
        ;
        0
    } else {
        let k = lemma_some_reach_mean(ys);
        let y = ys[k] as int;
        assert(xs[k] == y && xs[n] == x);
        assert(y * n >= total);
        if y >= x {
            assert(y * (n + 1) == y * n + y) by (nonlinear_arith);
            assert(xs[k] * xs.len() == y * (n + 1));
            k
        } else {
            assert(x * (n + 1) == x * n + x && x * n >= y * n) by (nonlinear_arith)
                requires
                    x >= y,
                    n >= 0,
            ;
            assert(xs[n] * xs.len() == x * (n + 1));
            n
        }
    }
}

/// A phase that moved data after its warm-up has a time at which it reached 90% of its
/// peak.
pub proof fn law_peak_is_reached(
    r: PhaseReport,
    label: &'static str,
    total_bytes: u64,
    requests: u64,
    errors: u64,
    elapsed_ns: u128,
    timeline: Seq<Sample>,
)
    requires
        reports(r, label, total_bytes, requests, errors, elapsed_ns, timeline),
        r.timeline_summary.max > 0,
    ensures
        r.time_to_p90_ns is Some,
{
    broadcast use vstd::seq_lib::group_to_multiset_ensures;

    let rates = after_warmup(timeline);
    let peak = r.timeline_summary.max;
    let sorted = crate::order::ascending(rates);
    rates.lemma_sort_by_ensures(crate::order::at_most());
    vstd::seq_lib::to_multiset_len(rates);
    vstd::seq_lib::to_multiset_len(sorted);
    assert(sorted.contains(sorted[rates.len() - 1]));
    assert(rates.to_multiset().count(peak) > 0);
    assert(rates.contains(peak));
    let k = choose|k: int| 0 <= k < rates.len() && rates[k] == peak;
    let i = lemma_rate_has_sample(timeline, k);
    assert(near_peak(peak)(timeline[i]));
}

/// A phase with a stable rate above zero has a time at which it was saturated.
pub proof fn law_saturation_is_reached(
    r: PhaseReport,
    label: &'static str,
    total_bytes: u64,
    requests: u64,
    errors: u64,
    elapsed_ns: u128,
    timeline: Seq<Sample>,
)
    requires
        reports(r, label, total_bytes, requests, errors, elapsed_ns, timeline),
        r.stable is Some,
        r.stable->0.scaled() > 0,
        timeline.len() <= u64::MAX,
    ensures
        r.time_to_saturation_ns is Some,
{
    let rates = after_warmup(timeline);
    let half = (rates.len() / 2) as int;
    let tail = rates.skip(half);
    let stable = r.stable->0;
    lemma_no_more_rates(timeline);
    stats::lemma_mean_scaled(tail);
    let n = tail.len() as int;
    let k = lemma_some_reach_mean(tail);
    let i = lemma_rate_has_sample(timeline, half + k);
    let b = timeline[i].rate as int;
    let total = stats::sum(tail);
    assert(tail[k] == rates[half + k]);
    assert(b * n >= total);
    stats::lemma_sum_bounds(tail);
    assert(100 * b * n >= 95 * total) by (nonlinear_arith)
        requires
            b * n >= total,
            total >= 0,
    ;
    assert(saturated(stable)(timeline[i]));
}

proof fn lemma_no_more_rates(timeline: Seq<Sample>)
    ensures
        after_warmup(timeline).len() <= timeline.len(),
    decreases timeline.len(),
{
    if timeline.len() > 0 {
        lemma_no_more_rates(timeline.drop_last());
    }
}

/// A phase that ended within its warm-up has no rates, hence no stable rate and no time to
/// a peak or to saturation.
pub proof fn law_warmup_does_not_count(
    r: PhaseReport,
    label: &'static str,
    total_bytes: u64,
    requests: u64,
    errors: u64,
    elapsed_ns: u128,
    timeline: Seq<Sample>,
)
    requires
        reports(r, label, total_bytes, requests, errors, elapsed_ns, timeline),
        forall|i: int| 0 <= i < timeline.len() ==> #[trigger] timeline[i].t_ns < WARMUP_NS,
    ensures
        r.timeline_summary.count == 0,
        r.timeline_summary.max == 0,
        r.stable is None,
        r.time_to_p90_ns is None,
        r.time_to_saturation_ns is None,
{
    if after_warmup(timeline).len() > 0 {
        let i = lemma_rate_has_sample(timeline, 0);
        assert(timeline[i].t_ns < WARMUP_NS);
    }
}

/// The rates of the samples that came a second or more after the start, in their order.
pub open spec fn settled(timeline: Seq<Sample>) -> Seq<u128> {
    timeline.filter(|s: Sample| s.t_ns >= 1_000_000_000).map_values(|s: Sample| s.rate)
}

/// The warm-up is the first second, and nothing else is left out.
pub proof fn law_warmup_is_the_first_second(timeline: Seq<Sample>)
    ensures
        after_warmup(timeline) == timeline.filter(
            |s: Sample| s.t_ns >= 1_000_000_000,
        ).map_values(|s: Sample| s.rate),
        after_warmup(timeline) == settled(timeline),
    decreases timeline.len(),
{
    reveal(Seq::filter);
    if timeline.len() > 0 {
        law_warmup_is_the_first_second(timeline.drop_last());
        assert(after_warmup(timeline) =~= settled(timeline));
    } else {
        assert(after_warmup(timeline) =~= settled(timeline));
    }
}

/// The stable rate of four rates or more is the mean of the last half of them: times their
/// number it is their sum. Fewer rates have none.
pub proof fn law_stable_rate(rates: Seq<u128>)
    requires
        rates.len() <= u64::MAX,
    ensures
        stable_of(rates) is Some <==> rates.len() >= 4,
        rates.len() >= 4 ==> ({
            let r = stable_of(rates)->0;
            let n = rates.len() as int;
            &&& r.den == n - n / 2
            &&& r.num < r.den
            &&& r.whole * (n - n / 2) + r.num == rates.subrange(n / 2, n).fold_left(
                0int,
                |total: int, x: u128| total + x,
            )
        }),
{
    if rates.len() >= 4 {
        let n = rates.len() as int;
        let tail = rates.skip((rates.len() / 2) as int);
        assert(tail =~= rates.subrange(n / 2, n));
        stats::law_mean(tail);
    }
}

/// The stable rate depends on the last half alone: phases that agree there have the same
/// one, whatever came before.
pub proof fn law_stable_rate_forgets_the_start(a: Seq<u128>, b: Seq<u128>)
    requires
        a.len() == b.len(),
        forall|i: int| a.len() / 2 <= i < a.len() ==> #[trigger] a[i] == b[i],
    ensures
        stable_of(a) == stable_of(b),
{
    let h = (a.len() / 2) as int;
    assert(a.skip(h) =~= b.skip(h));
}

/// A phase report has the totals it was given and the whole timeline. Its mean over the
/// phase, times the duration, is what was moved, and its figures and its stable rate are
/// those of the samples after the first second.
pub proof fn law_phase_report(
    r: PhaseReport,
    label: &'static str,
    total_bytes: u64,
    requests: u64,
    errors: u64,
    elapsed_ns: u128,
    timeline: Seq<Sample>,
)
    requires
        reports(r, label, total_bytes, requests, errors, elapsed_ns, timeline),
    ensures
        r.label == label,
        r.duration_ns == elapsed_ns,
        r.total_bytes == total_bytes,
        r.requests == requests,
        r.errors == errors,
        r.timeline@ == timeline,
        elapsed_ns > 0 ==> r.mean_mbps.scaled() * elapsed_ns == (total_bytes * 8000)
            * r.mean_mbps.den && r.mean_mbps.den > 0,
        elapsed_ns == 0 ==> r.mean_mbps.scaled() == 0 && r.mean_mbps.den > 0,
        r.timeline_summary.summarises(settled(timeline)),
        r.stable == stable_of(settled(timeline)),
{
    law_warmup_is_the_first_second(timeline);
    let m = r.mean_mbps;
    assert(m.whole * m.den == 0) by (nonlinear_arith)
        requires
            m.whole == 0,
    ;
}

/// The time to 90% of the peak is that of the first sample that runs at 90% of the greatest
/// rate after the first second, or above. It is missing only where nothing moved.
pub proof fn law_time_to_peak(
    r: PhaseReport,
    label: &'static str,
    total_bytes: u64,
    requests: u64,
    errors: u64,
    elapsed_ns: u128,
    timeline: Seq<Sample>,
)
    requires
        reports(r, label, total_bytes, requests, errors, elapsed_ns, timeline),
    ensures
        r.time_to_p90_ns is None <==> r.timeline_summary.max == 0,
        r.time_to_p90_ns is Some ==> exists|i: int|
            {
                &&& 0 <= i < timeline.len()
                &&& (#[trigger] timeline[i]).t_ns == r.time_to_p90_ns->0
                &&& 100 * timeline[i].rate >= 90 * r.timeline_summary.max
                &&& forall|j: int|
                    0 <= j < i ==> 100 * (#[trigger] timeline[j]).rate < 90
                        * r.timeline_summary.max
            },
{
    let peak = r.timeline_summary.max;
    if peak > 0 {
        law_peak_is_reached(r, label, total_bytes, requests, errors, elapsed_ns, timeline);
        let t = r.time_to_p90_ns->0;
        let p = near_peak(peak);
        let i = choose|i: int|
            0 <= i < timeline.len() && p(#[trigger] timeline[i]) && timeline[i].t_ns == t && (
            forall|j: int| 0 <= j < i ==> !p(#[trigger] timeline[j]));
        assert forall|j: int| 0 <= j < i implies 100 * (#[trigger] timeline[j]).rate < 90
            * peak by {
            assert(!p(timeline[j]));
        }
        assert(p(timeline[i]));
    }
}

/// The time to saturation is that of the first sample that runs at 95% of the stable rate or
/// above. It is missing only where there is no stable rate, or one of zero.
pub proof fn law_time_to_saturation(
    r: PhaseReport,
    label: &'static str,
    total_bytes: u64,
    requests: u64,
    errors: u64,
    elapsed_ns: u128,
    timeline: Seq<Sample>,
)
    requires
        reports(r, label, total_bytes, requests, errors, elapsed_ns, timeline),
        timeline.len() <= u64::MAX,
    ensures
        r.time_to_saturation_ns is None <==> r.stable is None || r.stable->0.scaled() == 0,
        r.time_to_saturation_ns is Some ==> exists|i: int|
            {
                &&& 0 <= i < timeline.len()
                &&& (#[trigger] timeline[i]).t_ns == r.time_to_saturation_ns->0
                &&& 20 * (timeline[i].rate * r.stable->0.den) >= 19 * r.stable->0.scaled()
                &&& forall|j: int|
                    0 <= j < i ==> 20 * ((#[trigger] timeline[j]).rate * r.stable->0.den) < 19
                        * r.stable->0.scaled()
            },
{
    if r.stable is Some && r.stable->0.scaled() != 0 {
        let stable = r.stable->0;
        assert(stable.scaled() >= 0) by (nonlinear_arith)
            requires
                stable.scaled() == stable.whole * stable.den + stable.num,
        ;
        law_saturation_is_reached(r, label, total_bytes, requests, errors, elapsed_ns, timeline);
        let t = r.time_to_saturation_ns->0;
        let p = saturated(stable);
        let i = choose|i: int|
            0 <= i < timeline.len() && p(#[trigger] timeline[i]) && timeline[i].t_ns == t && (
            forall|j: int| 0 <= j < i ==> !p(#[trigger] timeline[j]));
        assert forall|j: int| 0 <= j < i implies 20 * ((#[trigger] timeline[j]).rate * stable.den)
            < 19 * stable.scaled() by {
            assert(!p(timeline[j]));
            let x = timeline[j].rate as int;
            assert(100 * x * stable.den == 5 * (20 * (x * stable.den))) by (nonlinear_arith);
        }
        assert(p(timeline[i]));
        let x = timeline[i].rate as int;
        assert(100 * x * stable.den == 5 * (20 * (x * stable.den))) by (nonlinear_arith);
    }
}

}
