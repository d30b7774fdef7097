//! The throughput timeline: a byte counter, read at intervals.

use vstd::prelude::*;

verus! {

/// One throughput sample on the timeline.
#[derive(Clone, Copy, Debug, PartialEq, Eq, Structural)]
pub struct Sample {
    /// Nanoseconds since the sampler started.
    pub t_ns: u128,
    /// The rate during this interval in millionths of a bit per second, rounded down.
    pub rate: u128,
    /// Bytes transferred up to this sample.
    pub cumulative_bytes: u64,
}

/// A byte per nanosecond, in millionths of a bit per second.
pub const BYTE_RATE: u64 = 8_000_000_000_000_000;

/// A megabit per second, in millionths of a bit per second.
pub const MEGABIT: u64 = 1_000_000_000_000;

/// The rate for `bytes` moved in `ns` nanoseconds, in millionths of a bit per second,
/// rounded down; 0 when no time has passed.
pub open spec fn rate_of(bytes: int, ns: int) -> int {
    if ns <= 0 || bytes <= 0 {
        0
    } else {
        bytes * BYTE_RATE / ns
    }
}

/// The sample for one reading, given the reading before it. A counter or a clock that
/// went back counts as standing still.
pub open spec fn sample_between(
    last_bytes: u64,
    last_at_ns: u128,
    bytes: u64,
    now_ns: u128,
) -> Sample {
    Sample {
        t_ns: now_ns,
        rate: rate_of(bytes - last_bytes, now_ns - last_at_ns) as u128,
        cumulative_bytes: bytes,
    }
}

fn rate(bytes: u64, ns: u128) -> (r: u128)
    ensures
        r == rate_of(bytes as int, ns as int),
{
    if ns == 0 {
        return 0;
    }
    assert(0 == 0int / ns as int) by (nonlinear_arith)
        requires
            ns > 0,
    ;
    assert(0 <= bytes * BYTE_RATE <= u64::MAX * 8_000_000_000_000_000) by (nonlinear_arith)
        requires
            0 <= bytes <= u64::MAX,
            BYTE_RATE == 8_000_000_000_000_000,
    ;
    bytes as u128 * BYTE_RATE as u128 / ns
}

/// Turns readings of a byte counter into a per-interval timeline.
pub struct Sampler {
    /// When the first interval began, in nanoseconds since the sampler started.
    pub first_at_ns: u128,
    /// The samples so far.
    pub timeline: Vec<Sample>,
    /// The counter at the last reading.
    pub last_bytes: u64,
    /// The time of the last reading.
    pub last_at_ns: u128,
}

/// Each sample of the timeline spans the interval since the sample before it, and the
/// first one the interval since `first_at_ns`, when no byte had moved.
pub open spec fn consistent(timeline: Seq<Sample>, first_at_ns: u128) -> bool {
    forall|i: int|
        0 <= i < timeline.len() ==> #[trigger] timeline[i] == (if i == 0 {
            sample_between(0, first_at_ns, timeline[i].cumulative_bytes, timeline[i].t_ns)
        } else {
            sample_between(
                timeline[i - 1].cumulative_bytes,
                timeline[i - 1].t_ns,
                timeline[i].cumulative_bytes,
                timeline[i].t_ns,
            )
        })
}

impl Sampler {
    /// The timeline is consistent and the last reading is its last sample.
    pub open spec fn well_formed(self) -> bool {
        &&& consistent(self.timeline@, self.first_at_ns)
        &&& if self.timeline.len() == 0 {
            self.last_bytes == 0 && self.last_at_ns == self.first_at_ns
        } else {
            &&& self.last_bytes == self.timeline@.last().cumulative_bytes
            &&& self.last_at_ns == self.timeline@.last().t_ns
        }
    }

    /// Starts a timeline; the first interval begins at `now_ns`.
    pub fn start(now_ns: u128) -> (s: Sampler)
        ensures
            s.well_formed(),
            s.timeline@ == Seq::<Sample>::empty(),
            s.first_at_ns == now_ns,
    {
        Sampler { first_at_ns: now_ns, timeline: Vec::new(), last_bytes: 0, last_at_ns: now_ns }
    }

    /// Takes one reading. Once the sampler was told to stop, nothing is recorded.
    pub fn tick(&mut self, now_ns: u128, bytes: u64, stopped: bool) -> (sample: Option<Sample>)
        requires
            old(self).well_formed(),
        ensures
            final(self).well_formed(),
            final(self).first_at_ns == old(self).first_at_ns,
            stopped ==> sample is None && final(self).timeline@ == old(self).timeline@,
            !stopped ==> sample == Some(
                sample_between(old(self).last_bytes, old(self).last_at_ns, bytes, now_ns),
            ),
            !stopped ==> final(self).timeline@ == old(self).timeline@.push(sample->0),
    {
        if stopped {
            return None;
        }
        let delta_bytes: u64 = bytes.saturating_sub(self.last_bytes);
        let delta_ns: u128 = now_ns.saturating_sub(self.last_at_ns);
        let sample = Sample {
            t_ns: now_ns,
            rate: rate(delta_bytes, delta_ns),
            cumulative_bytes: bytes,
        };
        let ghost before = self.timeline@;
        self.timeline.push(sample);
        self.last_bytes = bytes;
        self.last_at_ns = now_ns;
        assert forall|i: int| 0 <= i < self.timeline.len() implies #[trigger] self.timeline@[i]
            == (if i == 0 {
            sample_between(
                0,
                self.first_at_ns,
                self.timeline@[i].cumulative_bytes,
                self.timeline@[i].t_ns,
            )
        } else {
            sample_between(
                self.timeline@[i - 1].cumulative_bytes,
                self.timeline@[i - 1].t_ns,
                self.timeline@[i].cumulative_bytes,
                self.timeline@[i].t_ns,
            )
        }) by {
            if i < before.len() {
                assert(self.timeline@[i] == before[i]);
                if i > 0 {
                    assert(self.timeline@[i - 1] == before[i - 1]);
                }
            }
        }
        Some(sample)
    }

    /// Ends the timeline.
    pub fn stop(self) -> (timeline: Vec<Sample>)
        requires
            self.well_formed(),
        ensures
            timeline@ == self.timeline@,
            consistent(timeline@, self.first_at_ns),
    {
        self.timeline
    }
}

/// A rate never overstates what was moved, and is short of it by less than a millionth of a
/// bit per second: at that rate no more would have been moved in the interval, and at the
/// next higher one more.
pub proof fn law_rate_is_precise(bytes: u64, ns: u128)
    requires
        ns > 0,
    ensures
        0 <= rate_of(bytes as int, ns as int) <= u128::MAX,
        rate_of(bytes as int, ns as int) * ns <= bytes * BYTE_RATE < (rate_of(
            bytes as int,
            ns as int,
        ) + 1) * ns,
{
    let bits = bytes * BYTE_RATE;
    let q = bits / ns as int;
    vstd::arithmetic::div_mod::lemma_fundamental_div_mod(bits, ns as int);
    vstd::arithmetic::div_mod::lemma_mod_bound(bits, ns as int);
    vstd::arithmetic::div_mod::lemma_div_pos_is_pos(bits, ns as int);
    assert(0 <= bits <= u64::MAX * 8_000_000_000_000_000) by (nonlinear_arith)
        requires
            bits == bytes * BYTE_RATE,
            0 <= bytes <= u64::MAX,
            BYTE_RATE == 8_000_000_000_000_000,
    ;
    assert(q <= bits) by (nonlinear_arith)
        requires
            ns * q <= bits,
            ns >= 1,
            q >= 0,
    ;
    assert(q * ns == ns * q && (q + 1) * ns == q * ns + ns) by (nonlinear_arith);
    assert(bytes == 0 ==> q == 0) by (nonlinear_arith)
        requires
            ns * q <= bits,
            bits == bytes * BYTE_RATE,
            ns >= 1,
            q >= 0,
    ;
}

/// The readings behind a timeline: the clock does not go back, and the counter is only added
/// to, up to `total`.
pub open spec fn only_added_to(timeline: Seq<Sample>, first_at_ns: u128, total: u64) -> bool {
    &&& timeline.len() > 0 ==> first_at_ns <= timeline[0].t_ns
    &&& timeline.len() > 0 ==> timeline.last().cumulative_bytes <= total
    &&& forall|i: int|
        1 <= i < timeline.len() ==> {
            &&& timeline[i - 1].t_ns <= (#[trigger] timeline[i]).t_ns
            &&& timeline[i - 1].cumulative_bytes <= timeline[i].cumulative_bytes
        }
}

/// `rate` is that of `bytes` in `ns` nanoseconds, to a millionth of a bit per second; 0 when
/// no time has passed.
pub open spec fn precise(rate: u128, bytes: int, ns: int) -> bool {
    if ns > 0 {
        rate * ns <= bytes * BYTE_RATE < (rate + 1) * ns
    } else {
        rate == 0
    }
}

/// A whole timeline over a counter that is only added to: times and bytes never fall, no
/// sample has more bytes than the counter came to, and every rate is precisely that of the
/// bytes and the time since the sample before it.
pub proof fn law_timeline(timeline: Seq<Sample>, first_at_ns: u128, total: u64)
    requires
        consistent(timeline, first_at_ns),
        only_added_to(timeline, first_at_ns, total),
    ensures
        forall|i: int, j: int|
            0 <= i <= j < timeline.len() ==> {
                &&& (#[trigger] timeline[i]).t_ns <= (#[trigger] timeline[j]).t_ns
                &&& timeline[i].cumulative_bytes <= timeline[j].cumulative_bytes
            },
        forall|i: int|
            0 <= i < timeline.len() ==> (#[trigger] timeline[i]).cumulative_bytes <= total,
        timeline.len() > 0 ==> precise(
            timeline[0].rate,
            timeline[0].cumulative_bytes as int,
            timeline[0].t_ns - first_at_ns,
        ),
        forall|i: int|
            1 <= i < timeline.len() ==> precise(
                (#[trigger] timeline[i]).rate,
                timeline[i].cumulative_bytes - timeline[i - 1].cumulative_bytes,
                timeline[i].t_ns - timeline[i - 1].t_ns,
            ),
{
    assert forall|i: int, j: int| 0 <= i <= j < timeline.len() implies {
        &&& (#[trigger] timeline[i]).t_ns <= (#[trigger] timeline[j]).t_ns
        &&& timeline[i].cumulative_bytes <= timeline[j].cumulative_bytes
    } by {
        lemma_readings_rise(timeline, first_at_ns, total, i, j);
    }
    if timeline.len() > 0 {
        let s = timeline[0];
        if s.t_ns > first_at_ns {
            law_rate_is_precise(s.cumulative_bytes, (s.t_ns - first_at_ns) as u128);
        }
    }
    assert forall|i: int| 1 <= i < timeline.len() implies precise(
        (#[trigger] timeline[i]).rate,
        timeline[i].cumulative_bytes - timeline[i - 1].cumulative_bytes,
        timeline[i].t_ns - timeline[i - 1].t_ns,
    ) by {
        let (a, b) = (timeline[i - 1], timeline[i]);
        if b.t_ns > a.t_ns {
            law_rate_is_precise(
                (b.cumulative_bytes - a.cumulative_bytes) as u64,
                (b.t_ns - a.t_ns) as u128,
            );
        }
    }
}

proof fn lemma_readings_rise(
    timeline: Seq<Sample>,
    first_at_ns: u128,
    total: u64,
    i: int,
    j: int,
)
    requires
        only_added_to(timeline, first_at_ns, total),
        0 <= i <= j < timeline.len(),
    ensures
        timeline[i].t_ns <= timeline[j].t_ns,
        timeline[i].cumulative_bytes <= timeline[j].cumulative_bytes,
    decreases j - i,
{
    if i < j {
        lemma_readings_rise(timeline, first_at_ns, total, i, j - 1);
        assert(timeline[j - 1].t_ns <= timeline[j].t_ns);
    }
}

/// A counter that stands still has the rate 0, and more bytes in the same time never give a
/// lower rate.
pub proof fn law_rate_follows_bytes(a: u64, b: u64, ns: u128)
    requires
        a <= b,
    ensures
        rate_of(0, ns as int) == 0,
        rate_of(a as int, ns as int) <= rate_of(b as int, ns as int),
{
    if ns > 0 && a > 0 {
        vstd::arithmetic::div_mod::lemma_div_is_ordered(
            a * BYTE_RATE,
            b * BYTE_RATE,
            ns as int,
        );
    } else if ns > 0 && b > 0 {
        vstd::arithmetic::div_mod::lemma_div_pos_is_pos(b * BYTE_RATE, ns as int);
    }
}

/// A sample has the time and the counter of its reading. A reading that finds the counter or
/// the clock no further than the one before has no rate.
pub proof fn law_sample(last_bytes: u64, last_at_ns: u128, bytes: u64, now_ns: u128)
    ensures
        ({
            let s = sample_between(last_bytes, last_at_ns, bytes, now_ns);
            &&& s.t_ns == now_ns
            &&& s.cumulative_bytes == bytes
            &&& (bytes <= last_bytes || now_ns <= last_at_ns) ==> s.rate == 0
            &&& bytes > last_bytes && now_ns > last_at_ns ==> precise(
                s.rate,
                bytes - last_bytes,
                now_ns - last_at_ns,
            )
        }),
{
    if bytes > last_bytes && now_ns > last_at_ns {
        law_rate_is_precise((bytes - last_bytes) as u64, (now_ns - last_at_ns) as u128);
    }
}

}
