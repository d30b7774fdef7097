//! Command-line choices and what they resolve to.

use vstd::prelude::*;

use crate::text;

verus! {

/// UI mode as asked for.
#[derive(Clone, Copy, Debug, PartialEq, Eq, Structural)]
pub enum UiMode {
    /// The live terminal UI if stdout and stderr are both terminals, otherwise plain.
    Auto,
    /// Force the live terminal UI.
    Tui,
    /// Plain line-oriented output suitable for pipes and logs.
    Plain,
}

/// UI mode after resolving `Auto` and the JSON override.
#[derive(Clone, Copy, Debug, PartialEq, Eq, Structural)]
pub enum ResolvedUiMode {
    Tui,
    Plain,
}

/// Options of a quick session.
#[derive(Clone, Copy, Debug, PartialEq, Eq, Structural)]
pub struct QuickOpts {
    /// Wall-clock seconds for the download phase.
    pub download_secs: u64,
    /// Wall-clock seconds for the upload phase.
    pub upload_secs: u64,
    /// Number of idle latency probes.
    pub latency_probes: u32,
    /// Parallel streams.
    pub streams: usize,
    /// Skip the upload phase.
    pub no_upload: bool,
}

/// Options of a deep session.
#[derive(Clone, Copy, Debug, PartialEq, Eq, Structural)]
pub struct DeepOpts {
    /// Total session duration in nanoseconds. The phases share this budget.
    pub duration_ns: u128,
    /// Parallel streams during throughput phases.
    pub streams: usize,
    /// Number of idle latency probes, start and end together.
    pub latency_probes: u32,
    /// Sampling interval of the throughput timeline in milliseconds.
    pub sample_ms: u64,
    /// Skip the upload phase.
    pub no_upload: bool,
    /// Skip the measurement of latency under load.
    pub no_bufferbloat: bool,
}

/// Options of a latency-only session.
#[derive(Clone, Copy, Debug, PartialEq, Eq, Structural)]
pub struct LatencyOpts {
    /// Number of probes.
    pub probes: u32,
    /// Spacing between probes in milliseconds.
    pub spacing_ms: u64,
}

/// What to run.
#[derive(Clone, Copy, Debug, PartialEq, Eq, Structural)]
pub enum Command {
    /// Quick session, about half a minute.
    Quick(QuickOpts),
    /// Deep session with full quality diagnostics.
    Deep(DeepOpts),
    /// Latency and jitter only.
    Latency(LatencyOpts),
    /// Connection metadata only.
    Info,
}

impl Default for QuickOpts {
    fn default() -> (o: QuickOpts)
        ensures
            o == (QuickOpts {
                download_secs: 12,
                upload_secs: 8,
                latency_probes: 20,
                streams: 6,
                no_upload: false,
            }),
    {
        QuickOpts {
            download_secs: 12,
            upload_secs: 8,
            latency_probes: 20,
            streams: 6,
            no_upload: false,
        }
    }
}

impl Default for DeepOpts {
    /// Five minutes.
    fn default() -> (o: DeepOpts)
        ensures
            o == (DeepOpts {
                duration_ns: 300_000_000_000,
                streams: 8,
                latency_probes: 60,
                sample_ms: 100,
                no_upload: false,
                no_bufferbloat: false,
            }),
    {
        DeepOpts {
            duration_ns: 300_000_000_000,
            streams: 8,
            latency_probes: 60,
            sample_ms: 100,
            no_upload: false,
            no_bufferbloat: false,
        }
    }
}

impl Default for LatencyOpts {
    fn default() -> (o: LatencyOpts)
        ensures
            o == (LatencyOpts { probes: 50, spacing_ms: 100 }),
    {
        LatencyOpts { probes: 50, spacing_ms: 100 }
    }
}

/// A parsed command line.
#[derive(Clone, Copy, Debug, PartialEq, Eq, Structural)]
pub struct Cli {
    pub command: Command,
    /// How often verbosity was asked for.
    pub verbose: u8,
    /// Emit one JSON document instead of a human report.
    pub json: bool,
    /// UI mode.
    pub ui: UiMode,
}

impl Cli {
    /// The effective UI mode. JSON output forces `Plain`; `Auto` becomes `Tui` only when
    /// both stdout and stderr are attached to a terminal.
    pub fn resolved_ui(&self, stdout_is_terminal: bool, stderr_is_terminal: bool) -> (mode:
        ResolvedUiMode)
        ensures
            mode == ResolvedUiMode::Tui <==> !self.json && (self.ui == UiMode::Tui || (self.ui
                == UiMode::Auto && stdout_is_terminal && stderr_is_terminal)),
    {
        if self.json {
            return ResolvedUiMode::Plain;
        }
        match self.ui {
            UiMode::Tui => ResolvedUiMode::Tui,
            UiMode::Plain => ResolvedUiMode::Plain,
            UiMode::Auto => if stdout_is_terminal && stderr_is_terminal {
                ResolvedUiMode::Tui
            } else {
                ResolvedUiMode::Plain
            },
        }
    }

    /// Whether the live UI is brought up: it is not for `Info`, which streams no events.
    pub fn shows_tui(&self, stdout_is_terminal: bool, stderr_is_terminal: bool) -> (live: bool)
        ensures
            live <==> self.command != Command::Info && !self.json && (self.ui == UiMode::Tui || (
            self.ui == UiMode::Auto && stdout_is_terminal && stderr_is_terminal)),
    {
        match self.command {
            Command::Info => false,
            _ => matches!(
                self.resolved_ui(stdout_is_terminal, stderr_is_terminal),
                ResolvedUiMode::Tui
            ),
        }
    }
}

/// The log level for a verbosity count.
pub open spec fn level_of(verbose: u8) -> Seq<char> {
    if verbose == 0 {
        "warn"@
    } else if verbose == 1 {
        "info"@
    } else if verbose == 2 {
        "debug"@
    } else {
        "trace"@
    }
}

/// The log filter that holds where the environment sets none.
pub fn default_log_filter(verbose: u8) -> (filter: String)
    ensures
        filter@ == "speed_tester="@ + level_of(verbose) + ",reqwest=warn"@,
{
    let mut filter = "speed_tester=".to_owned();
    filter.append(
        match verbose {
            0 => "warn",
            1 => "info",
            2 => "debug",
            _ => "trace",
        },
    );
    filter.append(",reqwest=warn");
    filter
}

/// What `humantime::parse_duration` makes of a text: a duration in nanoseconds, or the
/// text of its error.
pub uninterp spec fn humantime_duration(text: Seq<char>) -> Result<u128, Seq<char>>;

/// The same outcome, the error by what it says.
pub open spec fn same_outcome(
    r: Result<u128, String>,
    expected: Result<u128, Seq<char>>,
) -> bool {
    match r {
        Ok(ns) => expected == Ok::<u128, Seq<char>>(ns),
        Err(e) => expected == Err::<u128, Seq<char>>(e@),
    }
}

/// A character that may stand in the name of a unit.
pub open spec fn is_letter(c: char) -> bool {
    ('a' <= c && c <= 'z') || ('A' <= c && c <= 'Z') || c == '\u{b5}'
}

/// A decimal digit.
pub open spec fn is_digit(c: char) -> bool {
    '0' <= c && c <= '9'
}

/// A character that separates numbers and names: white space.
pub open spec fn is_space(c: char) -> bool {
    ('\u{9}' <= c && c <= '\u{d}') || c == ' ' || c == '\u{85}' || c == '\u{a0}' || c == '\u{1680}'
        || ('\u{2000}' <= c && c <= '\u{200a}') || c == '\u{2028}' || c == '\u{2029}' || c
        == '\u{202f}' || c == '\u{205f}' || c == '\u{3000}'
}

/// What one of a unit adds to a duration in seconds and in nanoseconds, and what a fraction
/// of it is taken of. Nanoseconds have no fractions.
#[derive(Clone, Copy, Debug, PartialEq, Eq, Structural)]
pub struct Unit {
    pub secs: u64,
    pub nanos: u64,
    pub part_secs: u64,
    pub part_nanos: u64,
}

/// The unit of a name.
pub open spec fn unit_named(name: Seq<char>) -> Option<Unit> {
    if name == "nanos"@ || name == "nsec"@ || name == "ns"@ {
        Some(Unit { secs: 0, nanos: 1, part_secs: 0, part_nanos: 0 })
    } else if name == "usec"@ || name == "us"@ || name == "\u{b5}s"@ {
        Some(Unit { secs: 0, nanos: 1000, part_secs: 0, part_nanos: 1000 })
    } else if name == "millis"@ || name == "msec"@ || name == "ms"@ {
        Some(Unit { secs: 0, nanos: 1_000_000, part_secs: 0, part_nanos: 1_000_000 })
    } else if name == "seconds"@ || name == "second"@ || name == "secs"@ || name == "sec"@
        || name == "s"@ {
        Some(Unit { secs: 1, nanos: 0, part_secs: 0, part_nanos: 1_000_000_000 })
    } else if name == "minutes"@ || name == "minute"@ || name == "min"@ || name == "mins"@
        || name == "m"@ {
        Some(Unit { secs: 60, nanos: 0, part_secs: 0, part_nanos: 60_000_000_000 })
    } else if name == "hours"@ || name == "hour"@ || name == "hr"@ || name == "hrs"@
        || name == "h"@ {
        Some(Unit { secs: 3600, nanos: 0, part_secs: 3600, part_nanos: 0 })
    } else if name == "days"@ || name == "day"@ || name == "d"@ {
        Some(Unit { secs: 86_400, nanos: 0, part_secs: 86_400, part_nanos: 0 })
    } else if name == "weeks"@ || name == "week"@ || name == "wk"@ || name == "wks"@
        || name == "w"@ {
        Some(Unit { secs: 604_800, nanos: 0, part_secs: 604_800, part_nanos: 0 })
    } else if name == "months"@ || name == "month"@ || name == "M"@ {
        Some(Unit { secs: 2_630_016, nanos: 0, part_secs: 2_630_016, part_nanos: 0 })
    } else if name == "years"@ || name == "year"@ || name == "yr"@ || name == "yrs"@
        || name == "y"@ {
        Some(Unit { secs: 31_557_600, nanos: 0, part_secs: 31_557_600, part_nanos: 0 })
    } else {
        None
    }
}

/// A duration to which something was added.
#[derive(Clone, Copy, Debug, PartialEq, Eq, Structural)]
pub enum Sum {
    /// Seconds, and nanoseconds below a second.
    To { secs: u64, nanos: u64 },
    /// It cannot be had, and the text is refused for it.
    Refused,
    /// It is one nanosecond more than a duration holds, found only when the second is carried.
    Overrun,
}

/// Adds to a duration. Nanoseconds that make up exactly one second are carried only after
/// the seconds were found to fit.
pub open spec fn sum_of(secs: u64, nanos: u64, more_secs: int, more_nanos: int) -> Sum {
    let all_nanos = nanos + more_nanos;
    let carried = if all_nanos > 1_000_000_000 {
        all_nanos / 1_000_000_000
    } else {
        0
    };
    let all_secs = secs + more_secs + carried;
    if more_secs > u64::MAX || all_nanos > u64::MAX || all_secs > u64::MAX {
        Sum::Refused
    } else if all_nanos == 1_000_000_000 {
        if all_secs == u64::MAX {
            Sum::Overrun
        } else {
            Sum::To { secs: (all_secs + 1) as u64, nanos: 0 }
        }
    } else {
        Sum::To { secs: all_secs as u64, nanos: (all_nanos % 1_000_000_000) as u64 }
    }
}

/// How far a text was read: a number, its fraction `part / scale`, the name of its unit, and
/// the duration of all numbers before it.
#[verifier::ext_equal]
pub struct Reading {
    pub at: Place,
    pub number: u64,
    pub part: u64,
    pub scale: u64,
    pub name: Seq<char>,
    pub secs: u64,
    pub nanos: u64,
}

/// Where in a text a reading stands.
#[derive(Clone, Copy, Debug, PartialEq, Eq, Structural)]
pub enum Place {
    /// Before a number.
    Before,
    /// In a number.
    Number,
    /// In its fraction.
    Fraction,
    /// In the name of its unit.
    Name,
}

/// Before a number, or in one that starts with a digit.
pub open spec fn reading_at(at: Place, number: u64, secs: u64, nanos: u64) -> Reading {
    Reading { at, number, part: 0, scale: 1, name: Seq::empty(), secs, nanos }
}

/// The duration with the number under way: first the whole number, then its fraction, which
/// has to come out even.
pub open spec fn counted(
    number: u64,
    part: u64,
    scale: u64,
    unit: Option<Unit>,
    secs: u64,
    nanos: u64,
) -> Sum {
    match unit {
        None => Sum::Refused,
        Some(u) => match sum_of(secs, nanos, number * u.secs, number * u.nanos) {
            Sum::To { secs, nanos } => {
                let (s, n) = (part * u.part_secs, part * u.part_nanos);
                if scale == 1 {
                    Sum::To { secs, nanos }
                } else if (u.part_secs == 0 && u.part_nanos == 0) || s > u64::MAX || n > u64::MAX
                    || s % (scale as int) != 0 || n % (scale as int) != 0 {
                    Sum::Refused
                } else {
                    sum_of(secs, nanos, s / scale as int, n / scale as int)
                }
            },
            other => other,
        },
    }
}

/// The duration at the end of a unit's name.
pub open spec fn closed(r: Reading) -> Sum {
    counted(r.number, r.part, r.scale, unit_named(r.name), r.secs, r.nanos)
}

/// The reading after one more character, or how it ends there.
pub open spec fn read_on(r: Reading, c: char) -> Result<Reading, Sum> {
    let d = (c as int - '0' as int) as u64;
    match r.at {
        Place::Before => if is_digit(c) {
            Ok(reading_at(Place::Number, d, r.secs, r.nanos))
        } else if is_space(c) {
            Ok(r)
        } else {
            Err(Sum::Refused)
        },
        Place::Number => if is_digit(c) {
            if r.number * 10 + d > u64::MAX {
                Err(Sum::Refused)
            } else {
                Ok(Reading { number: (r.number * 10 + d) as u64, ..r })
            }
        } else if is_space(c) {
            Ok(r)
        } else if is_letter(c) {
            Ok(Reading { at: Place::Name, name: seq![c], ..r })
        } else if c == '.' {
            Ok(Reading { at: Place::Fraction, ..r })
        } else {
            Err(Sum::Refused)
        },
        Place::Fraction => if is_digit(c) {
            if r.scale * 10 > u64::MAX || r.part * 10 + d > u64::MAX {
                Err(Sum::Refused)
            } else {
                Ok(Reading { part: (r.part * 10 + d) as u64, scale: (r.scale * 10) as u64, ..r })
            }
        } else if is_space(c) {
            Ok(r)
        } else if is_letter(c) && r.scale > 1 {
            Ok(Reading { at: Place::Name, name: seq![c], ..r })
        } else {
            Err(Sum::Refused)
        },
        Place::Name => if is_letter(c) {
            Ok(Reading { name: r.name.push(c), ..r })
        } else if is_digit(c) || is_space(c) {
            match closed(r) {
                Sum::To { secs, nanos } => Ok(
                    if is_digit(c) {
                        reading_at(Place::Number, d, secs, nanos)
                    } else {
                        reading_at(Place::Before, 0, secs, nanos)
                    },
                ),
                other => Err(other),
            }
        } else {
            Err(Sum::Refused)
        },
    }
}

/// The numbers of a text, added up one after the other, come to one nanosecond more than a
/// duration holds, and nothing before that point is wrong with the text.
pub open spec fn overruns(text: Seq<char>, r: Reading) -> bool
    decreases text.len(),
{
    if text.len() == 0 {
        r.at == Place::Name && closed(r) == Sum::Overrun
    } else {
        match read_on(r, text[0]) {
            Ok(next) => overruns(text.drop_first(), next),
            Err(end) => end == Sum::Overrun,
        }
    }
}

/// A text that does not overrun the clock.
pub open spec fn within_clock(text: Seq<char>) -> bool {
    !overruns(text, reading_at(Place::Before, 0, 0, 0))
}

fn letter(c: char) -> (b: bool)
    ensures
        b == is_letter(c),
{
    ('a' <= c && c <= 'z') || ('A' <= c && c <= 'Z') || c == '\u{b5}'
}

fn space(c: char) -> (b: bool)
    ensures
        b == is_space(c),
{
    ('\u{9}' <= c && c <= '\u{d}') || c == ' ' || c == '\u{85}' || c == '\u{a0}' || c == '\u{1680}'
        || ('\u{2000}' <= c && c <= '\u{200a}') || c == '\u{2028}' || c == '\u{2029}' || c
        == '\u{202f}' || c == '\u{205f}' || c == '\u{3000}'
}

fn unit_of(name: &str) -> (unit: Option<Unit>)
    ensures
        unit == unit_named(name@),
{
    if text::same_text(name, "nanos") || text::same_text(name, "nsec")
        || text::same_text(name, "ns") {
        Some(Unit { secs: 0, nanos: 1, part_secs: 0, part_nanos: 0 })
    } else if text::same_text(name, "usec") || text::same_text(name, "us")
        || text::same_text(name, "\u{b5}s") {
        Some(Unit { secs: 0, nanos: 1000, part_secs: 0, part_nanos: 1000 })
    } else if text::same_text(name, "millis") || text::same_text(name, "msec")
        || text::same_text(name, "ms") {
        Some(Unit { secs: 0, nanos: 1_000_000, part_secs: 0, part_nanos: 1_000_000 })
    } else if text::same_text(name, "seconds") || text::same_text(name, "second")
        || text::same_text(name, "secs") || text::same_text(name, "sec")
        || text::same_text(name, "s") {
        Some(Unit { secs: 1, nanos: 0, part_secs: 0, part_nanos: 1_000_000_000 })
    } else if text::same_text(name, "minutes") || text::same_text(name, "minute")
        || text::same_text(name, "min") || text::same_text(name, "mins")
        || text::same_text(name, "m") {
        Some(Unit { secs: 60, nanos: 0, part_secs: 0, part_nanos: 60_000_000_000 })
    } else if text::same_text(name, "hours") || text::same_text(name, "hour")
        || text::same_text(name, "hr") || text::same_text(name, "hrs")
        || text::same_text(name, "h") {
        Some(Unit { secs: 3600, nanos: 0, part_secs: 3600, part_nanos: 0 })
    } else if text::same_text(name, "days") || text::same_text(name, "day")
        || text::same_text(name, "d") {
        Some(Unit { secs: 86_400, nanos: 0, part_secs: 86_400, part_nanos: 0 })
    } else if text::same_text(name, "weeks") || text::same_text(name, "week")
        || text::same_text(name, "wk") || text::same_text(name, "wks")
        || text::same_text(name, "w") {
        Some(Unit { secs: 604_800, nanos: 0, part_secs: 604_800, part_nanos: 0 })
    } else if text::same_text(name, "months") || text::same_text(name, "month")
        || text::same_text(name, "M") {
        Some(Unit { secs: 2_630_016, nanos: 0, part_secs: 2_630_016, part_nanos: 0 })
    } else if text::same_text(name, "years") || text::same_text(name, "year")
        || text::same_text(name, "yr") || text::same_text(name, "yrs")
        || text::same_text(name, "y") {
        Some(Unit { secs: 31_557_600, nanos: 0, part_secs: 31_557_600, part_nanos: 0 })
    } else {
        None
    }
}

fn times(n: u64, of: u64) -> (p: u128)
    ensures
        p == n * of,
        p <= u64::MAX * u64::MAX,
{
    assert(0 <= n * of <= u64::MAX * u64::MAX) by (nonlinear_arith)
        requires
            0 <= n <= u64::MAX,
            0 <= of <= u64::MAX,
    ;
    n as u128 * of as u128
}

fn sum(secs: u64, nanos: u64, more_secs: u128, more_nanos: u128) -> (r: Sum)
    requires
        more_secs <= u64::MAX * u64::MAX,
        more_nanos <= u64::MAX * u64::MAX,
    ensures
        r == sum_of(secs, nanos, more_secs as int, more_nanos as int),
{
    let most: u128 = u64::MAX as u128;
    let all_nanos: u128 = nanos as u128 + more_nanos;
    if more_secs > most || all_nanos > most {
        return Sum::Refused;
    }
    let carried: u128 = if all_nanos > 1_000_000_000 {
        all_nanos / 1_000_000_000
    } else {
        0
    };
    let all_secs: u128 = secs as u128 + more_secs + carried;
    if all_secs > most {
        Sum::Refused
    } else if all_nanos == 1_000_000_000 {
        if all_secs == most {
            Sum::Overrun
        } else {
            Sum::To { secs: (all_secs + 1) as u64, nanos: 0 }
        }
    } else {
        Sum::To { secs: all_secs as u64, nanos: (all_nanos % 1_000_000_000) as u64 }
    }
}

fn count(number: u64, part: u64, scale: u64, unit: Option<Unit>, secs: u64, nanos: u64) -> (r: Sum)
    requires
        scale > 0,
    ensures
        r == counted(number, part, scale, unit, secs, nanos),
{
    let u = match unit {
        Some(u) => u,
        None => {
            return Sum::Refused;
        },
    };
    match sum(secs, nanos, times(number, u.secs), times(number, u.nanos)) {
        Sum::To { secs, nanos } => {
            if scale == 1 {
                return Sum::To { secs, nanos };
            }
            let (s, n): (u128, u128) = (times(part, u.part_secs), times(part, u.part_nanos));
            let (most, by): (u128, u128) = (u64::MAX as u128, scale as u128);
            if (u.part_secs == 0 && u.part_nanos == 0) || s > most || n > most || s % by != 0 || n
                % by != 0 {
                return Sum::Refused;
            }
            assert(s / by <= s && n / by <= n) by (nonlinear_arith)
                requires
                    by >= 1,
            ;
            sum(secs, nanos, s / by, n / by)
        },
        other => other,
    }
}

/// Whether a text does not overrun the clock: its numbers do not come to one nanosecond more
/// than a duration holds.
pub fn fits_clock(text: &str) -> (b: bool)
    ensures
        b == within_clock(text@),
{
    let chars = text::chars_of(text);
    let mut at = Place::Before;
    let (mut number, mut part, mut scale): (u64, u64, u64) = (0, 0, 1);
    let (mut secs, mut nanos): (u64, u64) = (0, 0);
    let mut name_at: usize = 0;
    let ghost mut r = reading_at(Place::Before, 0, 0, 0);
    assert(chars@.skip(0) =~= chars@);
    for i in 0..chars.len()
        invariant
            chars@ == text@,
            scale > 0,
            name_at <= i,
            r == (Reading {
                at,
                number,
                part,
                scale,
                name: if at == Place::Name {
                    chars@.subrange(name_at as int, i as int)
                } else {
                    Seq::empty()
                },
                secs,
                nanos,
            }),
            within_clock(text@) == !overruns(chars@.skip(i as int), r),
    {
        let ghost here = chars@.skip(i as int);
        assert(here[0] == chars@[i as int]);
        assert(here.drop_first() =~= chars@.skip(i + 1));
        let c: char = chars[i];
        let digit = '0' <= c && c <= '9';
        let d: u64 = if digit {
            c as u64 - '0' as u64
        } else {
            0
        };
        match at {
            Place::Before => {
                if digit {
                    at = Place::Number;
                    number = d;
                    part = 0;
                    scale = 1;
                } else if !space(c) {
                    return true;
                }
            },
            Place::Number => {
                if digit {
                    let n: u128 = number as u128 * 10 + d as u128;
                    if n > u64::MAX as u128 {
                        return true;
                    }
                    number = n as u64;
                } else if letter(c) {
                    at = Place::Name;
                    name_at = i;
                } else if c == '.' {
                    at = Place::Fraction;
                } else if !space(c) {
                    return true;
                }
            },
            Place::Fraction => {
                if digit {
                    let (p, s): (u128, u128) = (part as u128 * 10 + d as u128, scale as u128 * 10);
                    if s > u64::MAX as u128 || p > u64::MAX as u128 {
                        return true;
                    }
                    part = p as u64;
                    scale = s as u64;
                } else if letter(c) && scale > 1 {
                    at = Place::Name;
                    name_at = i;
                } else if !space(c) {
                    return true;
                }
            },
            Place::Name => {
                if digit || space(c) {
                    let name = text.substring_char(name_at, i);
                    match count(number, part, scale, unit_of(name), secs, nanos) {
                        Sum::To { secs: s, nanos: n } => {
                            secs = s;
                            nanos = n;
                        },
                        Sum::Refused => {
                            return true;
                        },
                        Sum::Overrun => {
                            return false;
                        },
                    }
                    at = if digit {
                        Place::Number
                    } else {
                        Place::Before
                    };
                    number = d;
                    part = 0;
                    scale = 1;
                } else if !letter(c) {
                    return true;
                }
            },
        }
        proof {
            r = read_on(r, c)->Ok_0;
            if at == Place::Name {
                assert(chars@.subrange(name_at as int, i + 1) =~= r.name);
            }
        }
    }
    assert(chars@.skip(chars.len() as int) =~= Seq::<char>::empty());
    if matches!(at, Place::Name) {
        let name = text.substring_char(name_at, chars.len());
        return !matches!(count(number, part, scale, unit_of(name), secs, nanos), Sum::Overrun);
    }
    true
}

/// What a text is answered whose numbers are too large: the words of `humantime`.
pub const TOO_LARGE: &'static str =
    "number is too large or cannot be represented without a lack of precision (values below 1ns are not supported)";

/// `humantime::parse_duration`, with its duration in nanoseconds and its error as text.
/// It panics where a sum of its numbers is one nanosecond more than a duration holds and the
/// nanoseconds of the sum make up exactly a second (`18446744073709551615s 1000ms`), so it
/// is not asked there.
#[verifier::external_body]
fn humantime_parse(text: &str) -> (r: Result<u128, String>)
    requires
        within_clock(text@),
    ensures
        same_outcome(r, humantime_duration(text@)),
{
    humantime::parse_duration(text).map(|d| d.as_nanos()).map_err(|e| e.to_string())
}

/// Reads a duration such as `5m` or `300s`, in nanoseconds. A text that overruns the clock
/// by a nanosecond is refused as too large.
pub fn parse_duration(text: &str) -> (r: Result<u128, String>)
    ensures
        within_clock(text@) ==> same_outcome(r, humantime_duration(text@)),
        !within_clock(text@) ==> same_outcome(r, Err(TOO_LARGE@)),
{
    if fits_clock(text) {
        humantime_parse(text)
    } else {
        Err(TOO_LARGE.to_owned())
    }
}

/// The log level rises with each request for more, up to the third.
pub proof fn law_levels(verbose: u8)
    ensures
        verbose == 0 ==> level_of(verbose) == "warn"@,
        verbose == 1 ==> level_of(verbose) == "info"@,
        verbose == 2 ==> level_of(verbose) == "debug"@,
        verbose >= 3 ==> level_of(verbose) == "trace"@,
{
}

/// A duration to which something is added is the sum of both, in seconds and nanoseconds
/// below a second. It overruns the clock only where the sum is the first that the clock does
/// not hold and its nanoseconds make up exactly a second.
pub proof fn law_durations_add_up(secs: u64, nanos: u64, more_secs: int, more_nanos: int)
    requires
        nanos < 1_000_000_000,
        0 <= more_secs,
        0 <= more_nanos,
    ensures
        ({
            let total = (secs + more_secs) * 1_000_000_000 + (nanos + more_nanos);
            let end = 18_446_744_073_709_551_616_000_000_000int;
            let r = sum_of(secs, nanos, more_secs, more_nanos);
            &&& r matches Sum::To { secs: s, nanos: n } ==> s * 1_000_000_000 + n == total && n
                < 1_000_000_000
            &&& r == Sum::Overrun <==> total == end && nanos + more_nanos == 1_000_000_000
            &&& r == Sum::Refused ==> total >= end || more_nanos + nanos > u64::MAX
            &&& total < end && nanos + more_nanos <= u64::MAX ==> r is To
        }),
{
}

/// A text of one number and the name of a unit never overruns the clock.
pub proof fn law_one_number_fits(digits: Seq<char>, name: Seq<char>)
    requires
        forall|i: int| 0 <= i < digits.len() ==> is_digit(#[trigger] digits[i]),
        forall|i: int| 0 <= i < name.len() ==> is_letter(#[trigger] name[i]),
    ensures
        within_clock(digits + name),
{
    let start = reading_at(Place::Before, 0, 0, 0);
    let text = digits + name;
    if digits.len() == 0 {
        if name.len() > 0 {
            assert(text[0] == name[0]);
        }
    } else {
        assert(text[0] == digits[0]);
        assert(text.drop_first() =~= digits.drop_first() + name);
        let d = (digits[0] as int - '0' as int) as u64;
        let rest = digits.drop_first();
        assert forall|i: int| 0 <= i < rest.len() implies is_digit(#[trigger] rest[i]) by {
            assert(rest[i] == digits[i + 1]);
        }
        lemma_number_fits(rest, name, reading_at(Place::Number, d, 0, 0));
    }
}

proof fn lemma_number_fits(digits: Seq<char>, name: Seq<char>, r: Reading)
    requires
        forall|i: int| 0 <= i < digits.len() ==> is_digit(#[trigger] digits[i]),
        forall|i: int| 0 <= i < name.len() ==> is_letter(#[trigger] name[i]),
        r.at == Place::Number,
        r.scale == 1 && r.secs == 0 && r.nanos == 0,
    ensures
        !overruns(digits + name, r),
    decreases digits.len(),
{
    let text = digits + name;
    if digits.len() > 0 {
        assert(text[0] == digits[0]);
        let rest = digits.drop_first();
        assert(text.drop_first() =~= rest + name);
        assert forall|i: int| 0 <= i < rest.len() implies is_digit(#[trigger] rest[i]) by {
            assert(rest[i] == digits[i + 1]);
        }
        if let Ok(next) = read_on(r, digits[0]) {
            lemma_number_fits(rest, name, next);
        }
    } else {
        assert(text =~= name);
        if name.len() > 0 {
            lemma_name_fits(
                name.drop_first(),
                Reading { at: Place::Name, name: seq![name[0]], ..r },
            );
        }
    }
}

proof fn lemma_name_fits(name: Seq<char>, r: Reading)
    requires
        forall|i: int| 0 <= i < name.len() ==> is_letter(#[trigger] name[i]),
        r.at == Place::Name,
        r.scale == 1 && r.secs == 0 && r.nanos == 0,
    ensures
        !overruns(name, r),
    decreases name.len(),
{
    if name.len() > 0 {
        lemma_name_fits(name.drop_first(), Reading { name: r.name.push(name[0]), ..r });
    } else if let Some(u) = unit_named(r.name) {
        assert(u.secs == 0 || u.nanos == 0);
        assert(u.secs == 0 ==> r.number * u.secs == 0) by (nonlinear_arith);
        assert(u.nanos == 0 ==> r.number * u.nanos == 0) by (nonlinear_arith);
    }
}

/// Whether a character is one of the ten digits.
pub open spec fn counts_as_digit() -> spec_fn(char) -> bool {
    |c: char| '0' <= c <= '9'
}

/// A text with no more than eleven digits never overruns the clock, whatever else stands in
/// it: it takes more to write down so long a time, even in years.
pub proof fn law_few_digits_fit(text: Seq<char>)
    requires
        text.filter(counts_as_digit()).len() <= 11,
    ensures
        within_clock(text),
{
    let n = text.filter(counts_as_digit()).len();
    vstd::arithmetic::power::lemma_pow_increases(10, n, 11);
    assert(vstd::arithmetic::power::pow(10, 11) == 100_000_000_000) by {
        reveal_with_fuel(vstd::arithmetic::power::pow, 12);
    }
    let p = vstd::arithmetic::power::pow(10, n);
    assert(1 * 1 * p == p) by (nonlinear_arith);
    lemma_fits(text, reading_at(Place::Before, 0, 0, 0), 0, 1);
}

/// The longest unit, a year, in nanoseconds.
spec fn longest() -> int {
    31_557_600_000_000_000
}

/// A reading whose finished numbers come to `done` of the longest unit at most, and whose
/// number under way is below `next`.
spec fn bounded(r: Reading, done: int, next: int) -> bool {
    &&& r.secs * 1_000_000_000 + r.nanos <= done * longest()
    &&& r.nanos < 1_000_000_000
    &&& done == 0 || done >= 10
    &&& r.at == Place::Before ==> next == 1
    &&& r.at != Place::Before ==> next >= 10 && r.number < next && r.part < r.scale
}

proof fn lemma_closed(r: Reading, done: int, next: int)
    requires
        bounded(r, done, next),
        r.at == Place::Name,
        done + next <= 100_000_000_000,
    ensures
        closed(r) != Sum::Overrun,
        closed(r) matches Sum::To { secs, nanos } ==> nanos < 1_000_000_000 && secs * 1_000_000_000
            + nanos <= (done + next) * longest(),
{
    if let Some(u) = unit_named(r.name) {
        let unit = u.secs * 1_000_000_000 + u.nanos;
        let part_unit = u.part_secs * 1_000_000_000 + u.part_nanos;
        assert(unit <= longest() && part_unit <= longest());
        let before = r.secs * 1_000_000_000 + r.nanos;
        law_durations_add_up(r.secs, r.nanos, r.number * u.secs, r.number * u.nanos);
        assert(r.number * u.secs >= 0 && r.number * u.nanos >= 0) by (nonlinear_arith);
        assert(r.number * u.secs * 1_000_000_000 + r.number * u.nanos == r.number * unit)
            by (nonlinear_arith)
            requires
                unit == u.secs * 1_000_000_000 + u.nanos,
        ;
        assert(r.number * unit <= (next - 1) * longest()) by (nonlinear_arith)
            requires
                0 <= r.number <= next - 1,
                0 <= unit <= longest(),
        ;
        assert(done * longest() + (next - 1) * longest() + longest() == (done + next) * longest())
            by (nonlinear_arith);
        assert((done + next) * longest() <= 100_000_000_000 * longest()) by (nonlinear_arith)
            requires
                done + next <= 100_000_000_000,
                longest() > 0,
        ;
        if let Sum::To { secs, nanos } = sum_of(
            r.secs,
            r.nanos,
            r.number * u.secs,
            r.number * u.nanos,
        ) {
            let (s, n) = (r.part * u.part_secs, r.part * u.part_nanos);
            let scale = r.scale as int;
            assert(0 <= s / scale <= u.part_secs && 0 <= n / scale <= u.part_nanos)
                by (nonlinear_arith)
                requires
                    0 <= r.part < scale,
                    s == r.part * u.part_secs,
                    n == r.part * u.part_nanos,
            ;
            law_durations_add_up(secs, nanos, s / scale, n / scale);
        }
    }
}

proof fn lemma_fits(text: Seq<char>, r: Reading, done: int, next: int)
    requires
        bounded(r, done, next),
        (if done == 0 {
            1
        } else {
            done
        }) * next * vstd::arithmetic::power::pow(10, text.filter(counts_as_digit()).len())
            <= 100_000_000_000,
    ensures
        !overruns(text, r),
    decreases text.len(),
{
    let held = if done == 0 {
        1
    } else {
        done
    };
    let n = text.filter(counts_as_digit()).len();
    let p = vstd::arithmetic::power::pow(10, n);
    vstd::arithmetic::power::lemma_pow_positive(10, n);
    assert(held * next <= held * next * p) by (nonlinear_arith)
        requires
            held >= 1,
            next >= 1,
            p >= 1,
    ;
    assert(r.at != Place::Before ==> done + next <= held * next) by {
        if r.at != Place::Before {
            assert(done + next <= held * next) by (nonlinear_arith)
                requires
                    done == 0 && held == 1 || done >= 10 && held == done,
                    next >= 10,
            ;
        }
    }
    if r.at == Place::Name {
        lemma_closed(r, done, next);
    }
    if text.len() > 0 {
        let (c, rest) = (text[0], text.drop_first());
        let m = rest.filter(counts_as_digit()).len();
        let q = vstd::arithmetic::power::pow(10, m);
        assert(text =~= seq![c] + rest);
        Seq::filter_distributes_over_add(seq![c], rest, counts_as_digit());
        assert(seq![c].drop_last() =~= Seq::<char>::empty());
        reveal_with_fuel(Seq::filter, 2);
        vstd::arithmetic::power::lemma_pow_positive(10, m);
        if is_digit(c) {
            assert(n == m + 1);
            vstd::arithmetic::power::lemma_pow1(10);
            vstd::arithmetic::power::lemma_pow_adds(10, 1, m);
            assert(p == 10 * q);
        } else {
            assert(n == m);
        }
        if let Ok(then) = read_on(r, c) {
            match r.at {
                Place::Before => {
                    if is_digit(c) {
                        assert(held * 10 * q == held * 1 * (10 * q)) by (nonlinear_arith);
                        lemma_fits(rest, then, done, 10);
                    } else {
                        lemma_fits(rest, then, done, next);
                    }
                },
                Place::Number => {
                    if is_digit(c) {
                        assert(held * (10 * next) * q == held * next * (10 * q))
                            by (nonlinear_arith);
                        lemma_fits(rest, then, done, 10 * next);
                    } else {
                        lemma_fits(rest, then, done, next);
                    }
                },
                Place::Fraction => {
                    assert(held * next * q <= held * next * p) by (nonlinear_arith)
                        requires
                            held >= 1,
                            next >= 1,
                            0 < q <= p,
                    ;
                    lemma_fits(rest, then, done, next);
                },
                Place::Name => {
                    if is_letter(c) {
                        lemma_fits(rest, then, done, next);
                    } else {
                        let sum = done + next;
                        if is_digit(c) {
                            assert(sum * 10 * q <= held * next * (10 * q)) by (nonlinear_arith)
                                requires
                                    sum <= held * next,
                                    q > 0,
                            ;
                            lemma_fits(rest, then, sum, 10);
                        } else {
                            assert(sum * 1 * q <= held * next * q) by (nonlinear_arith)
                                requires
                                    sum <= held * next,
                                    q > 0,
                            ;
                            lemma_fits(rest, then, sum, 1);
                        }
                    }
                },
            }
        }
    }
}

}
