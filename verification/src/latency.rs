//! Latency probes: how many, when to stop, and what is kept.

use vstd::prelude::*;

use crate::ui::{PhaseKind, ProbeKind};

verus! {

/// A run of probes.
pub struct ProbeRun {
    /// How many probes were asked for.
    pub probes: u32,
    /// How many were begun.
    pub begun: u32,
    /// Whether the last one that was begun is still to be answered.
    pub open: bool,
    /// The round-trip times of those that were answered, in microseconds.
    pub samples: Vec<u64>,
}

impl ProbeRun {
    /// No more probes are begun than were asked for, and each gives one sample at most,
    /// once it has ended.
    pub open spec fn well_formed(self) -> bool {
        &&& self.begun <= self.probes
        &&& self.samples.len() + (if self.open {
            1int
        } else {
            0int
        }) <= self.begun
    }

    /// A run of `probes` probes.
    pub fn new(probes: u32) -> (r: ProbeRun)
        ensures
            r.well_formed(),
            r.probes == probes,
            r.begun == 0,
            !r.open,
            r.samples@ == Seq::<u64>::empty(),
    {
        ProbeRun { probes, begun: 0, open: false, samples: Vec::new() }
    }

    /// Begins the next probe. There is none when all were begun, or when the run was
    /// cancelled.
    pub fn begin(&mut self, cancelled: bool) -> (go: bool)
        requires
            old(self).well_formed(),
            !old(self).open,
        ensures
            final(self).well_formed(),
            go <==> old(self).begun < old(self).probes && !cancelled,
            final(self).open == go,
            final(self).begun == old(self).begun + (if go {
                1int
            } else {
                0int
            }),
            final(self).probes == old(self).probes,
            final(self).samples@ == old(self).samples@,
    {
        if self.begun >= self.probes || cancelled {
            return false;
        }
        self.begun = self.begun + 1;
        self.open = true;
        true
    }

    /// Takes the outcome of a probe, a round-trip time or none. Returns whether the next
    /// probe waits for its turn; after a failure it does not.
    pub fn end(&mut self, rtt_us: Option<u64>) -> (wait: bool)
        requires
            old(self).well_formed(),
            old(self).open,
        ensures
            final(self).well_formed(),
            !final(self).open,
            wait == (rtt_us is Some),
            final(self).samples@ == match rtt_us {
                Some(us) => old(self).samples@.push(us),
                None => old(self).samples@,
            },
            final(self).begun == old(self).begun,
            final(self).probes == old(self).probes,
    {
        self.open = false;
        match rtt_us {
            Some(us) => {
                self.samples.push(us);
                true
            },
            None => false,
        }
    }
}

/// Nanoseconds in a second.
pub const SECOND: u128 = 1_000_000_000;

/// How long probes under load wait at first, to let TCP and TLS warm up.
pub const LOADED_WARMUP_NS: u128 = 2 * SECOND;

/// The spacing of probes under load.
pub const LOADED_SPACING_MS: u64 = 250;

/// For how long probes are sent under load once they have begun, in a phase of
/// `duration_ns`: three seconds less than the phase.
pub fn loaded_window_ns(duration_ns: u128) -> (w: u128)
    ensures
        w == (if duration_ns >= 3 * SECOND {
            duration_ns - 3 * SECOND
        } else {
            0
        }),
{
    duration_ns.saturating_sub(3 * SECOND)
}

/// Whether another probe is sent under load.
pub fn probes_on(now_ns: u128, stop_at_ns: u128, stopped: bool) -> (b: bool)
    ensures
        b <==> now_ns < stop_at_ns && !stopped,
{
    now_ns < stop_at_ns && !stopped
}

/// The kind of the probes that run beside a phase.
pub fn loaded_kind(phase: PhaseKind) -> (k: ProbeKind)
    ensures
        k == match phase {
            PhaseKind::Download => ProbeKind::LoadedDownload,
            PhaseKind::Upload => ProbeKind::LoadedUpload,
        },
{
    match phase {
        PhaseKind::Download => ProbeKind::LoadedDownload,
        PhaseKind::Upload => ProbeKind::LoadedUpload,
    }
}

/// How many probes under load are expected in a phase: one for each 250 ms beyond the
/// first five seconds, and no more than a `u32` counts.
pub open spec fn expected_loaded(duration_ns: int) -> int {
    let n = (duration_ns - 5 * SECOND) / 250_000_000;
    if duration_ns < 5 * SECOND {
        0
    } else if n > u32::MAX {
        u32::MAX as int
    } else {
        n
    }
}

/// The number of probes under load to expect in a phase of `duration_ns`.
pub fn expected_loaded_probes(duration_ns: u128) -> (n: u32)
    ensures
        n == expected_loaded(duration_ns as int),
{
    let n: u128 = duration_ns.saturating_sub(5 * SECOND) / 250_000_000;
    if n > u32::MAX as u128 {
        u32::MAX
    } else {
        n as u32
    }
}

/// The expected probes fit into the time in which probes are sent.
pub proof fn law_expected_probes_fit(duration_ns: u128)
    ensures
        expected_loaded(duration_ns as int) > 0 ==> expected_loaded(duration_ns as int)
            * 250_000_000 <= duration_ns - 3 * SECOND,
{
}

/// The expected probes are as many as fit at four a second into what a phase lasts beyond
/// five seconds, short of one more, or the greatest number there is.
pub proof fn law_expected_probes(duration_ns: u128)
    ensures
        ({
            let n = expected_loaded(duration_ns as int);
            &&& 0 <= n <= u32::MAX
            &&& duration_ns < 5_000_000_000 ==> n == 0
            &&& duration_ns >= 5_000_000_000 ==> 5_000_000_000 + n * 250_000_000 <= duration_ns
            &&& n < u32::MAX ==> duration_ns < 5_000_000_000 + (n + 1) * 250_000_000
        }),
{
}

}
