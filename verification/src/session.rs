//! Sessions: what is planned, what runs when, and the report at the end.

use vstd::prelude::*;

use crate::cli::{Command, DeepOpts, LatencyOpts, QuickOpts};
use crate::latency;
use crate::latency::SECOND;
use crate::metadata::Metadata;
use crate::phase;
use crate::report::{LatencyReport, PhaseReport, SessionReport, Timestamp};
use crate::sampler::Sample;
use crate::stats;
use crate::stats::{LatencySummary, Ratio};
use crate::text;
use crate::text::Piece;
use crate::ui::{PhaseKind, UiEvent};

verus! {

/// Spacing of the idle probes of a quick or deep session.
pub const PROBE_SPACING_MS: u64 = 100;

/// Sampling interval of a quick session.
pub const QUICK_SAMPLE_MS: u64 = 100;

/// How a deep session shares its time.
#[derive(Clone, Copy, Debug, PartialEq, Eq, Structural)]
pub struct Budget {
    /// Idle latency, at the start and again at the end.
    pub idle_each_ns: u128,
    pub download_ns: u128,
    pub upload_ns: u128,
}

/// `percent` of a duration, to the nearest nanosecond.
pub open spec fn share(total_ns: int, percent: int) -> int {
    (total_ns * percent + 50) / 100
}

fn share_of(total_ns: u128, percent: u128) -> (ns: u128)
    requires
        percent <= 100,
    ensures
        ns == share(total_ns as int, percent as int),
        ns <= total_ns,
{
    let whole: u128 = total_ns / 100;
    let rest: u128 = total_ns % 100;
    assert(0 <= rest * percent <= 99 * percent) by (nonlinear_arith)
        requires
            0 <= rest <= 99,
            0 <= percent,
    ;
    assert(0 <= whole * percent <= whole * 100) by (nonlinear_arith)
        requires
            0 <= whole,
            0 <= percent <= 100,
    ;
    let part: u128 = (rest * percent + 50) / 100;
    assert(total_ns * percent == 100 * (whole * percent) + rest * percent) by (nonlinear_arith)
        requires
            total_ns == 100 * whole + rest,
    ;
    assert(part <= rest) by {
        assert(rest * percent <= rest * 100) by (nonlinear_arith)
            requires
                0 <= rest,
                0 <= percent <= 100,
        ;
    }
    whole * percent + part
}

impl DeepOpts {
    /// The budget: about 10% on idle latency, half at the start and half at the end, and
    /// 45% on each throughput phase that runs.
    pub open spec fn budgeted(self) -> Budget {
        Budget {
            idle_each_ns: share(self.duration_ns as int, 5) as u128,
            download_ns: share(self.duration_ns as int, 45) as u128,
            upload_ns: if self.no_upload {
                0
            } else {
                share(self.duration_ns as int, 45) as u128
            },
        }
    }

    /// Shares out the session's time.
    pub fn budget(&self) -> (b: Budget)
        ensures
            b == self.budgeted(),
    {
        Budget {
            idle_each_ns: share_of(self.duration_ns, 5),
            download_ns: share_of(self.duration_ns, 45),
            upload_ns: if self.no_upload {
                0
            } else {
                share_of(self.duration_ns, 45)
            },
        }
    }
}

/// The shares of a deep session add up to its duration, but for rounding.
pub proof fn law_budget_is_spent(opts: DeepOpts)
    requires
        !opts.no_upload,
    ensures
        ({
            let b = opts.budgeted();
            let spent = 2 * b.idle_each_ns + b.download_ns + b.upload_ns;
            opts.duration_ns - 2 <= spent <= opts.duration_ns + 2
        }),
{
}

/// The name of a session's mode.
pub open spec fn mode_name(command: Command) -> Seq<char> {
    match command {
        Command::Quick(_) => "quick"@,
        Command::Deep(_) => "deep"@,
        Command::Latency(_) => "latency"@,
        Command::Info => "info"@,
    }
}

/// The name of a session's mode.
pub fn mode_of(command: &Command) -> (mode: &'static str)
    ensures
        mode@ == mode_name(*command),
{
    match command {
        Command::Quick(_) => "quick",
        Command::Deep(_) => "deep",
        Command::Latency(_) => "latency",
        Command::Info => "info",
    }
}

/// What a session announces when it starts.
#[derive(Clone, Copy, Debug, PartialEq, Eq, Structural)]
pub struct Planned {
    pub total_ns: u128,
    pub idle_probes: u32,
    pub loaded_probes: u64,
}

/// The plan of a command. Probes under load follow the schedule on which they are sent.
pub open spec fn plan_of(command: Command) -> Planned {
    match command {
        Command::Quick(o) => Planned {
            total_ns: (o.latency_probes * PROBE_SPACING_MS * 1_000_000 + o.download_secs * SECOND
                + (if o.no_upload {
                0
            } else {
                o.upload_secs * SECOND
            })) as u128,
            idle_probes: o.latency_probes,
            loaded_probes: 0,
        },
        Command::Deep(o) => Planned {
            total_ns: o.duration_ns,
            idle_probes: o.latency_probes,
            loaded_probes: if o.no_bufferbloat {
                0
            } else {
                (latency::expected_loaded(o.budgeted().download_ns as int)
                    + latency::expected_loaded(o.budgeted().upload_ns as int)) as u64
            },
        },
        Command::Latency(o) => Planned {
            total_ns: (o.probes * o.spacing_ms * 1_000_000) as u128,
            idle_probes: o.probes,
            loaded_probes: 0,
        },
        Command::Info => Planned { total_ns: 0, idle_probes: 0, loaded_probes: 0 },
    }
}

fn quick_plan(o: &QuickOpts) -> (p: Planned)
    ensures
        p == plan_of(Command::Quick(*o)),
{
    let probes: u128 = o.latency_probes as u128;
    assert(0 <= probes * PROBE_SPACING_MS <= u32::MAX * 100) by (nonlinear_arith)
        requires
            0 <= probes <= u32::MAX,
            PROBE_SPACING_MS == 100,
    ;
    let idle_ns: u128 = probes * PROBE_SPACING_MS as u128 * 1_000_000;
    let upload_ns: u128 = if o.no_upload {
        0
    } else {
        o.upload_secs as u128 * SECOND
    };
    Planned {
        total_ns: idle_ns + o.download_secs as u128 * SECOND + upload_ns,
        idle_probes: o.latency_probes,
        loaded_probes: 0,
    }
}

fn deep_plan(o: &DeepOpts) -> (p: Planned)
    ensures
        p == plan_of(Command::Deep(*o)),
{
    let b = o.budget();
    let loaded_probes: u64 = if o.no_bufferbloat {
        0
    } else {
        latency::expected_loaded_probes(b.download_ns) as u64 + latency::expected_loaded_probes(
            b.upload_ns,
        ) as u64
    };
    Planned {
        total_ns: o.duration_ns,
        idle_probes: o.latency_probes,
        loaded_probes,
    }
}

fn latency_plan(o: &LatencyOpts) -> (p: Planned)
    ensures
        p == plan_of(Command::Latency(*o)),
{
    let (n, ms): (u128, u128) = (o.probes as u128, o.spacing_ms as u128);
    assert(0 <= n * ms <= u32::MAX * u64::MAX) by (nonlinear_arith)
        requires
            0 <= n <= u32::MAX,
            0 <= ms <= u64::MAX,
    ;
    Planned { total_ns: n * ms * 1_000_000, idle_probes: o.probes, loaded_probes: 0 }
}

/// Plans a session.
pub fn plan(command: &Command) -> (p: Planned)
    ensures
        p == plan_of(*command),
{
    match command {
        Command::Quick(o) => quick_plan(o),
        Command::Deep(o) => deep_plan(o),
        Command::Latency(o) => latency_plan(o),
        Command::Info => Planned { total_ns: 0, idle_probes: 0, loaded_probes: 0 },
    }
}

/// The event with which a session starts: its mode and its plan.
pub fn started_event(command: &Command, metadata: Box<Metadata>, started_at: Timestamp) -> (ev:
    UiEvent)
    ensures
        ev matches UiEvent::SessionStarted {
            mode,
            total_planned_ns,
            metadata: md,
            started_at: at,
            idle_probes_planned,
            loaded_probes_planned,
        } && mode@ == mode_name(*command) && total_planned_ns == plan_of(*command).total_ns && md
            == metadata && at == started_at && idle_probes_planned == plan_of(*command).idle_probes
            && loaded_probes_planned == plan_of(*command).loaded_probes,
{
    let p = plan(command);
    UiEvent::SessionStarted {
        mode: mode_of(command),
        total_planned_ns: p.total_ns,
        metadata,
        started_at,
        idle_probes_planned: p.idle_probes,
        loaded_probes_planned: p.loaded_probes,
    }
}

/// Where a session stands: what is considered next.
#[derive(Clone, Copy, Debug, PartialEq, Eq, Structural)]
pub enum Stage {
    IdleStart,
    Download,
    Upload,
    IdleEnd,
    Done,
}

impl Stage {
    /// The place of a stage in the course of a session.
    pub open spec fn place(self) -> int {
        match self {
            Stage::IdleStart => 0,
            Stage::Download => 1,
            Stage::Upload => 2,
            Stage::IdleEnd => 3,
            Stage::Done => 4,
        }
    }
}

/// What a session does next.
#[derive(Clone, Copy, Debug, PartialEq, Eq, Structural)]
pub enum Step {
    /// Measure idle latency.
    Idle { probes: u32, spacing_ms: u64, at_end: bool },
    /// Run a throughput phase.
    Phase {
        kind: PhaseKind,
        duration_ns: u128,
        streams: usize,
        sample_ms: u64,
        measure_loaded: bool,
    },
    /// Report.
    Finish,
}

/// How many of `n` idle probes a deep session sends at the start or at the end. They are
/// halved; of an odd number, the start has one more.
pub open spec fn deep_probes(n: u32, at_end: bool) -> u32 {
    if at_end {
        n / 2
    } else {
        (n - n / 2) as u32
    }
}

/// The idle probes of a session.
pub open spec fn idle_step(command: Command, at_end: bool) -> Step {
    match command {
        Command::Quick(o) => Step::Idle {
            probes: o.latency_probes,
            spacing_ms: PROBE_SPACING_MS,
            at_end,
        },
        Command::Deep(o) => Step::Idle {
            probes: deep_probes(o.latency_probes, at_end),
            spacing_ms: PROBE_SPACING_MS,
            at_end,
        },
        Command::Latency(o) => Step::Idle { probes: o.probes, spacing_ms: o.spacing_ms, at_end },
        Command::Info => Step::Finish,
    }
}

/// A throughput phase of a session.
pub open spec fn phase_step(command: Command, kind: PhaseKind) -> Step {
    match command {
        Command::Quick(o) => Step::Phase {
            kind,
            duration_ns: (match kind {
                PhaseKind::Download => o.download_secs,
                PhaseKind::Upload => o.upload_secs,
            } * SECOND) as u128,
            streams: o.streams,
            sample_ms: QUICK_SAMPLE_MS,
            measure_loaded: false,
        },
        Command::Deep(o) => Step::Phase {
            kind,
            duration_ns: match kind {
                PhaseKind::Download => o.budgeted().download_ns,
                PhaseKind::Upload => o.budgeted().upload_ns,
            },
            streams: o.streams,
            sample_ms: o.sample_ms,
            measure_loaded: !o.no_bufferbloat,
        },
        _ => Step::Finish,
    }
}

/// Quick and deep sessions measure throughput.
pub open spec fn downloads(command: Command) -> bool {
    command is Quick || command is Deep
}

/// Sessions that measure throughput upload too, unless told not to.
pub open spec fn uploads(command: Command) -> bool {
    match command {
        Command::Quick(o) => !o.no_upload,
        Command::Deep(o) => !o.no_upload,
        _ => false,
    }
}

/// What a session at `stage` does next, and what is considered after that. It starts with
/// idle probes, cancelled or not; whatever follows is skipped once it was cancelled. Only
/// a deep session probes again at the end.
pub open spec fn decide(command: Command, stage: Stage, cancelled: bool) -> (Step, Stage) {
    if stage.place() <= 0 && !(command is Info) {
        (idle_step(command, false), Stage::Download)
    } else if stage.place() <= 1 && downloads(command) && !cancelled {
        (phase_step(command, PhaseKind::Download), Stage::Upload)
    } else if stage.place() <= 2 && uploads(command) && !cancelled {
        (phase_step(command, PhaseKind::Upload), Stage::IdleEnd)
    } else if stage.place() <= 3 && command is Deep && !cancelled {
        (idle_step(command, true), Stage::Done)
    } else {
        (Step::Finish, Stage::Done)
    }
}

fn idle_step_of(command: &Command, at_end: bool) -> (s: Step)
    ensures
        s == idle_step(*command, at_end),
{
    match command {
        Command::Quick(o) => Step::Idle {
            probes: o.latency_probes,
            spacing_ms: PROBE_SPACING_MS,
            at_end,
        },
        Command::Deep(o) => Step::Idle {
            probes: if at_end {
                o.latency_probes / 2
            } else {
                o.latency_probes - o.latency_probes / 2
            },
            spacing_ms: PROBE_SPACING_MS,
            at_end,
        },
        Command::Latency(o) => Step::Idle { probes: o.probes, spacing_ms: o.spacing_ms, at_end },
        Command::Info => Step::Finish,
    }
}

fn phase_step_of(command: &Command, kind: PhaseKind) -> (s: Step)
    ensures
        s == phase_step(*command, kind),
{
    match command {
        Command::Quick(o) => {
            let secs: u64 = match kind {
                PhaseKind::Download => o.download_secs,
                PhaseKind::Upload => o.upload_secs,
            };
            Step::Phase {
                kind,
                duration_ns: secs as u128 * SECOND,
                streams: o.streams,
                sample_ms: QUICK_SAMPLE_MS,
                measure_loaded: false,
            }
        },
        Command::Deep(o) => {
            let b = o.budget();
            Step::Phase {
                kind,
                duration_ns: match kind {
                    PhaseKind::Download => b.download_ns,
                    PhaseKind::Upload => b.upload_ns,
                },
                streams: o.streams,
                sample_ms: o.sample_ms,
                measure_loaded: !o.no_bufferbloat,
            }
        },
        _ => Step::Finish,
    }
}

/// A session under way: where it stands and what it has measured.
pub struct Session {
    pub command: Command,
    pub stage: Stage,
    pub idle_us: Vec<u64>,
    pub loaded_download_us: Vec<u64>,
    pub loaded_upload_us: Vec<u64>,
    pub download: Option<PhaseReport>,
    pub upload: Option<PhaseReport>,
}

impl Session {
    /// The measurements of two sessions are the same.
    pub open spec fn same_measurements(self, other: Session) -> bool {
        &&& self.idle_us@ == other.idle_us@
        &&& self.loaded_download_us@ == other.loaded_download_us@
        &&& self.loaded_upload_us@ == other.loaded_upload_us@
        &&& self.download == other.download
        &&& self.upload == other.upload
    }

    /// A session that has measured nothing yet.
    pub fn new(command: Command) -> (s: Session)
        ensures
            s.command == command,
            s.stage == Stage::IdleStart,
            s.idle_us@ == Seq::<u64>::empty(),
            s.loaded_download_us@ == Seq::<u64>::empty(),
            s.loaded_upload_us@ == Seq::<u64>::empty(),
            s.download is None,
            s.upload is None,
    {
        Session {
            command,
            stage: Stage::IdleStart,
            idle_us: Vec::new(),
            loaded_download_us: Vec::new(),
            loaded_upload_us: Vec::new(),
            download: None,
            upload: None,
        }
    }

    /// Decides what to do next.
    pub fn next(&mut self, cancelled: bool) -> (step: Step)
        ensures
            (step, final(self).stage) == decide(old(self).command, old(self).stage, cancelled),
            final(self).command == old(self).command,
            final(self).same_measurements(*old(self)),
    {
        if matches!(self.stage, Stage::IdleStart) && !matches!(self.command, Command::Info) {
            self.stage = Stage::Download;
            return idle_step_of(&self.command, false);
        }
        let (downloads, uploads, deep): (bool, bool, bool) = match &self.command {
            Command::Quick(o) => (true, !o.no_upload, false),
            Command::Deep(o) => (true, !o.no_upload, true),
            _ => (false, false, false),
        };
        if matches!(self.stage, Stage::IdleStart | Stage::Download) && downloads && !cancelled {
            self.stage = Stage::Upload;
            return phase_step_of(&self.command, PhaseKind::Download);
        }
        if matches!(self.stage, Stage::IdleStart | Stage::Download | Stage::Upload) && uploads
            && !cancelled {
            self.stage = Stage::IdleEnd;
            return phase_step_of(&self.command, PhaseKind::Upload);
        }
        if !matches!(self.stage, Stage::Done) && deep && !cancelled {
            self.stage = Stage::Done;
            return idle_step_of(&self.command, true);
        }
        self.stage = Stage::Done;
        Step::Finish
    }

    /// Takes in the round-trip times of idle probes, in microseconds.
    pub fn add_idle(&mut self, samples: Vec<u64>)
        ensures
            final(self).idle_us@ == old(self).idle_us@ + samples@,
            final(self).same_measurements(
                (Session { idle_us: final(self).idle_us, ..*old(self) }),
            ),
            final(self).command == old(self).command,
            final(self).stage == old(self).stage,
    {
        let mut samples = samples;
        self.idle_us.append(&mut samples);
    }

    /// Takes in a phase: its report, unless it was cancelled before it began, and the
    /// round-trip times that were probed beside it.
    pub fn add_phase(&mut self, kind: PhaseKind, report: Option<PhaseReport>, loaded_us: Vec<u64>)
        ensures
            final(self).same_measurements(
                match kind {
                    PhaseKind::Download => Session {
                        download: report,
                        loaded_download_us: loaded_us,
                        ..*old(self)
                    },
                    PhaseKind::Upload => Session {
                        upload: report,
                        loaded_upload_us: loaded_us,
                        ..*old(self)
                    },
                },
            ),
            final(self).command == old(self).command,
            final(self).stage == old(self).stage,
    {
        match kind {
            PhaseKind::Download => {
                self.download = report;
                self.loaded_download_us = loaded_us;
            },
            PhaseKind::Upload => {
                self.upload = report;
                self.loaded_upload_us = loaded_us;
            },
        }
    }

    /// Ends the session with its report.
    pub fn finish(self, metadata: Metadata, started_at: Timestamp, ended_at: Timestamp) -> (rep:
        SessionReport)
        ensures
            rep.mode@ == mode_name(self.command),
            rep.started_at == started_at,
            rep.ended_at == ended_at,
            rep.metadata == metadata,
            rep.download == self.download,
            rep.upload == self.upload,
            latency_reported(
                rep.latency,
                self.idle_us@,
                self.loaded_download_us@,
                self.loaded_upload_us@,
            ),
    {
        let mode = mode_of(&self.command);
        let latency = latency_report(
            &self.idle_us,
            &self.loaded_download_us,
            &self.loaded_upload_us,
        );
        SessionReport {
            mode,
            started_at,
            ended_at,
            metadata,
            latency,
            download: self.download,
            upload: self.upload,
        }
    }
}

/// A summary exists when there are samples, and summarises them.
pub open spec fn summarised(s: Option<LatencySummary>, samples: Seq<u64>) -> bool {
    match s {
        Some(s) => samples.len() > 0 && s.summarises(samples),
        None => samples.len() == 0,
    }
}

/// The median of a summary in nanoseconds.
pub open spec fn median_ns(s: Option<LatencySummary>) -> Option<u128> {
    match s {
        Some(s) => Some((s.p50_us * 1000) as u128),
        None => None,
    }
}

/// What a latency report says of the samples of a session.
pub open spec fn latency_reported(
    r: LatencyReport,
    idle: Seq<u64>,
    loaded_download: Seq<u64>,
    loaded_upload: Seq<u64>,
) -> bool {
    &&& summarised(r.idle, idle)
    &&& summarised(r.loaded_download, loaded_download)
    &&& summarised(r.loaded_upload, loaded_upload)
    &&& r.bufferbloat_download == stats::bloat(median_ns(r.idle), median_ns(r.loaded_download))
    &&& r.bufferbloat_upload == stats::bloat(median_ns(r.idle), median_ns(r.loaded_upload))
}

fn summary_of(samples: &Vec<u64>) -> (s: Option<LatencySummary>)
    ensures
        summarised(s, samples@),
{
    if samples.len() == 0 {
        None
    } else {
        Some(LatencySummary::from_micros(samples))
    }
}

fn median_of(s: &Option<LatencySummary>) -> (m: Option<u128>)
    ensures
        m == median_ns(*s),
{
    match s {
        Some(s) => Some(s.p50_us as u128 * 1000),
        None => None,
    }
}

/// Summarises the latency samples of a session, and grades the bufferbloat.
pub fn latency_report(
    idle: &Vec<u64>,
    loaded_download: &Vec<u64>,
    loaded_upload: &Vec<u64>,
) -> (r: LatencyReport)
    ensures
        latency_reported(r, idle@, loaded_download@, loaded_upload@),
{
    let idle = summary_of(idle);
    let loaded_download = summary_of(loaded_download);
    let loaded_upload = summary_of(loaded_upload);
    let idle_ns = median_of(&idle);
    let bufferbloat_download = stats::bufferbloat(idle_ns, median_of(&loaded_download));
    let bufferbloat_upload = stats::bufferbloat(idle_ns, median_of(&loaded_upload));
    LatencyReport {
        idle,
        loaded_download,
        loaded_upload,
        bufferbloat_download,
        bufferbloat_upload,
    }
}

/// The label of a phase.
pub open spec fn kind_name(kind: PhaseKind) -> Seq<char> {
    match kind {
        PhaseKind::Download => "download"@,
        PhaseKind::Upload => "upload"@,
    }
}

/// The label of a phase.
pub fn label_of(kind: PhaseKind) -> (label: &'static str)
    ensures
        label@ == kind_name(kind),
{
    match kind {
        PhaseKind::Download => "download",
        PhaseKind::Upload => "upload",
    }
}

/// What the streams of a phase have counted.
#[derive(Clone, Copy, Debug, PartialEq, Eq, Structural)]
pub struct Totals {
    pub bytes: u64,
    pub requests: u64,
    pub errors: u64,
}

/// The totals of a phase. One that was cancelled under way has only the byte counter.
pub open spec fn totals_of(completed: Option<Totals>, counted_bytes: u64) -> Totals {
    match completed {
        Some(t) => t,
        None => Totals { bytes: counted_bytes, requests: 0, errors: 0 },
    }
}

/// Ends a phase with its report: it ran to its deadline with totals, or was cancelled
/// when the byte counter stood at `counted_bytes`.
pub fn finish_phase(
    kind: PhaseKind,
    completed: Option<Totals>,
    counted_bytes: u64,
    elapsed_ns: u128,
    timeline: Vec<Sample>,
) -> (r: PhaseReport)
    ensures
        r.label@ == kind_name(kind),
        ({
            let t = totals_of(completed, counted_bytes);
            phase::reports(r, r.label, t.bytes, t.requests, t.errors, elapsed_ns, timeline@)
        }),
{
    let label = label_of(kind);
    match completed {
        Some(t) => phase::build_phase_report(
            label,
            t.bytes,
            t.requests,
            t.errors,
            elapsed_ns,
            timeline,
        ),
        None => phase::build_phase_report(label, counted_bytes, 0, 0, elapsed_ns, timeline),
    }
}

/// Where a report goes.
#[derive(Clone, Copy, Debug, PartialEq, Eq, Structural)]
pub enum Output {
    Json,
    Human,
    /// The live UI has shown it already.
    Nothing,
}

/// Where the report of a session goes: JSON when asked for, else text unless a live UI ran.
pub fn output_of(json: bool, live: bool) -> (o: Output)
    ensures
        o == (if json {
            Output::Json
        } else if live {
            Output::Nothing
        } else {
            Output::Human
        }),
{
    if json {
        Output::Json
    } else if live {
        Output::Nothing
    } else {
        Output::Human
    }
}

/// What is shown while a step runs.
pub open spec fn step_text(command: Command, step: Step) -> Seq<text::PieceView> {
    match step {
        Step::Idle { probes, at_end, .. } => match command {
            Command::Deep(o) => seq![
                text::shown(
                    "idle latency ("@ + (if at_end {
                        "end"@
                    } else {
                        "start"@
                    }) + ", ~"@ + text::dec((o.budgeted().idle_each_ns / SECOND) as nat) + "s)"@,
                ),
            ],
            Command::Latency(_) => seq![
                text::shown("latency: "@ + text::dec(probes as nat) + " probes"@),
            ],
            _ => seq![text::shown("idle latency"@)],
        },
        Step::Phase { kind, duration_ns, streams, sample_ms, .. } => match command {
            Command::Deep(_) => seq![
                text::shown(kind_name(kind) + " "@),
                text::shown_num(
                    Ratio { whole: duration_ns, num: 0, den: 1 },
                    1_000_000_000,
                    0,
                    0,
                ),
                text::shown(
                    "s @ "@ + text::dec(streams as nat) + " streams (sampling every "@ + text::dec(
                        sample_ms as nat,
                    ) + "ms)"@,
                ),
            ],
            _ => seq![
                text::shown(
                    kind_name(kind) + " "@ + text::dec((duration_ns / SECOND) as nat) + "s @ "@
                        + text::dec(streams as nat) + " streams"@,
                ),
            ],
        },
        Step::Finish => Seq::empty(),
    }
}

/// The line to show while a step runs.
pub fn step_label(command: &Command, step: &Step) -> (line: Vec<Piece>)
    ensures
        text::line_view(line@) == step_text(*command, *step),
{
    let mut line: Vec<Piece> = Vec::new();
    match step {
        Step::Idle { probes, at_end, .. } => match command {
            Command::Deep(o) => {
                let secs: u128 = o.budget().idle_each_ns / SECOND;
                let s = "idle latency (".to_owned().concat(
                    if *at_end {
                        "end"
                    } else {
                        "start"
                    },
                ).concat(", ~").concat(text::decimal(secs).as_str()).concat("s)");
                line.push(text::owned(s));
            },
            Command::Latency(_) => {
                let s = "latency: ".to_owned().concat(
                    text::decimal(*probes as u128).as_str(),
                ).concat(" probes");
                line.push(text::owned(s));
            },
            _ => {
                line.push(text::piece("idle latency"));
            },
        },
        Step::Phase { kind, duration_ns, streams, sample_ms, .. } => match command {
            Command::Deep(_) => {
                line.push(text::owned(label_of(*kind).to_owned().concat(" ")));
                let secs = Ratio { whole: *duration_ns, num: 0, den: 1 };
                line.push(text::num(secs, 1_000_000_000, 0, 0));
                let s = "s @ ".to_owned().concat(
                    text::decimal(*streams as u128).as_str(),
                ).concat(" streams (sampling every ").concat(
                    text::decimal(*sample_ms as u128).as_str(),
                ).concat("ms)");
                line.push(text::owned(s));
            },
            _ => {
                let s = label_of(*kind).to_owned().concat(" ").concat(
                    text::decimal(*duration_ns / SECOND).as_str(),
                ).concat("s @ ").concat(text::decimal(*streams as u128).as_str()).concat(
                    " streams",
                );
                line.push(text::owned(s));
            },
        },
        Step::Finish => {},
    }
    assert(text::line_view(line@) =~= step_text(*command, *step));
    line
}

/// A session told not to upload never does.
pub proof fn law_no_upload(command: Command, stage: Stage, cancelled: bool)
    requires
        !uploads(command),
    ensures
        decide(command, stage, cancelled).0 matches Step::Phase { kind, .. } ==> kind
            == PhaseKind::Download,
{
}

/// Once cancelled, a session that has begun does nothing but report.
pub proof fn law_cancel_ends_session(command: Command, stage: Stage)
    requires
        stage != Stage::IdleStart,
    ensures
        decide(command, stage, true) == (Step::Finish, Stage::Done),
{
}

/// Every step brings a session forward, so that it comes to its end.
pub proof fn law_session_advances(command: Command, stage: Stage, cancelled: bool)
    ensures
        decide(command, stage, cancelled).1.place() > stage.place() || decide(
            command,
            stage,
            cancelled,
        ) == (Step::Finish, Stage::Done),
{
}

/// The course of a deep session that is not cancelled: idle probes, download, upload, idle
/// probes again. The two runs of idle probes together are as many as asked for, which is
/// what was announced.
pub proof fn law_deep_course(o: DeepOpts)
    requires
        !o.no_upload,
    ensures
        ({
            let c = Command::Deep(o);
            let (s1, g1) = decide(c, Stage::IdleStart, false);
            let (s2, g2) = decide(c, g1, false);
            let (s3, g3) = decide(c, g2, false);
            let (s4, g4) = decide(c, g3, false);
            let (s5, g5) = decide(c, g4, false);
            &&& s1 == idle_step(c, false)
            &&& s2 == phase_step(c, PhaseKind::Download)
            &&& s3 == phase_step(c, PhaseKind::Upload)
            &&& s4 == idle_step(c, true)
            &&& s5 == Step::Finish
            &&& s1->probes + s4->probes == o.latency_probes
            &&& plan_of(c).idle_probes == o.latency_probes
        }),
{
}

/// The course of a quick session that is not cancelled: idle probes, download, upload. Its
/// steps take the time that was announced.
pub proof fn law_quick_course(o: QuickOpts)
    requires
        !o.no_upload,
    ensures
        ({
            let c = Command::Quick(o);
            let (s1, g1) = decide(c, Stage::IdleStart, false);
            let (s2, g2) = decide(c, g1, false);
            let (s3, g3) = decide(c, g2, false);
            let (s4, g4) = decide(c, g3, false);
            &&& s1 == idle_step(c, false)
            &&& s2 == phase_step(c, PhaseKind::Download)
            &&& s3 == phase_step(c, PhaseKind::Upload)
            &&& s4 == Step::Finish
            &&& s1->probes * s1->spacing_ms * 1_000_000 + s2->duration_ns + s3->duration_ns
                == plan_of(c).total_ns
        }),
{
    let n = o.latency_probes as int;
    assert(0 <= n * PROBE_SPACING_MS <= u32::MAX * 100) by (nonlinear_arith)
        requires
            0 <= n <= u32::MAX,
            PROBE_SPACING_MS == 100,
    ;
}

/// Without an upload a deep session still sends all its idle probes.
pub proof fn law_deep_course_without_upload(o: DeepOpts)
    requires
        o.no_upload,
    ensures
        ({
            let c = Command::Deep(o);
            let (s1, g1) = decide(c, Stage::IdleStart, false);
            let (s2, g2) = decide(c, g1, false);
            let (s3, g3) = decide(c, g2, false);
            let (s4, g4) = decide(c, g3, false);
            &&& s1 == idle_step(c, false)
            &&& s2 == phase_step(c, PhaseKind::Download)
            &&& s3 == idle_step(c, true)
            &&& s4 == Step::Finish
            &&& s1->probes + s3->probes == o.latency_probes
        }),
{
}

/// A latency session does nothing but probe, and a session that asks for metadata only
/// measures nothing.
pub proof fn law_short_courses(o: LatencyOpts, stage: Stage, cancelled: bool)
    ensures
        decide(Command::Latency(o), Stage::IdleStart, cancelled) == (
            idle_step(Command::Latency(o), false),
            Stage::Download,
        ),
        stage != Stage::IdleStart ==> decide(Command::Latency(o), stage, cancelled).0
            == Step::Finish,
        decide(Command::Info, stage, cancelled).0 == Step::Finish,
{
}

/// A quick session measures no latency under load, and so reports no bufferbloat.
pub proof fn law_quick_has_no_bufferbloat(
    o: QuickOpts,
    kind: PhaseKind,
    r: LatencyReport,
    idle: Seq<u64>,
)
    requires
        latency_reported(r, idle, Seq::empty(), Seq::empty()),
    ensures
        !phase_step(Command::Quick(o), kind)->measure_loaded,
        r.loaded_download is None,
        r.loaded_upload is None,
        r.bufferbloat_download is None,
        r.bufferbloat_upload is None,
{
}

/// A deep session gives 45% of its time to each throughput phase that runs and 5% to each
/// run of idle probes, whatever its duration, to within half a nanosecond.
pub proof fn law_shares(o: DeepOpts)
    ensures
        ({
            let d = o.duration_ns as int;
            let b = o.budgeted();
            &&& -50 <= 100 * b.download_ns - 45 * d <= 50
            &&& -50 <= 100 * b.idle_each_ns - 5 * d <= 50
            &&& !o.no_upload ==> -50 <= 100 * b.upload_ns - 45 * d <= 50
            &&& o.no_upload ==> b.upload_ns == 0
        }),
{
}

/// What each step is asked to do. A quick session lasts the seconds it was given, samples
/// each 100 ms and does not probe under load. A deep one has 45% of its time for each phase,
/// samples as asked, and probes under load unless told not to; its idle probes are halved.
pub proof fn law_steps(q: QuickOpts, d: DeepOpts, l: LatencyOpts)
    ensures
        idle_step(Command::Quick(q), false) == (Step::Idle {
            probes: q.latency_probes,
            spacing_ms: 100,
            at_end: false,
        }),
        idle_step(Command::Latency(l), false) == (Step::Idle {
            probes: l.probes,
            spacing_ms: l.spacing_ms,
            at_end: false,
        }),
        ({
            let (s, e) = (idle_step(Command::Deep(d), false), idle_step(Command::Deep(d), true));
            &&& s matches Step::Idle { probes, spacing_ms, at_end } && spacing_ms == 100 && !at_end
            &&& e matches Step::Idle { probes, spacing_ms, at_end } && spacing_ms == 100 && at_end
            &&& s->probes + e->probes == d.latency_probes
            &&& 0 <= s->probes - e->probes <= 1
        }),
        ({
            let s = phase_step(Command::Quick(q), PhaseKind::Download);
            s matches Step::Phase { kind, duration_ns, streams, sample_ms, measure_loaded } && kind
                == PhaseKind::Download && duration_ns == q.download_secs * 1_000_000_000 && streams
                == q.streams && sample_ms == 100 && !measure_loaded
        }),
        ({
            let s = phase_step(Command::Quick(q), PhaseKind::Upload);
            s matches Step::Phase { kind, duration_ns, streams, sample_ms, measure_loaded } && kind
                == PhaseKind::Upload && duration_ns == q.upload_secs * 1_000_000_000 && streams
                == q.streams && sample_ms == 100 && !measure_loaded
        }),
        ({
            let s = phase_step(Command::Deep(d), PhaseKind::Download);
            s matches Step::Phase { kind, duration_ns, streams, sample_ms, measure_loaded } && kind
                == PhaseKind::Download && -50 <= 100 * duration_ns - 45 * d.duration_ns <= 50
                && streams == d.streams && sample_ms == d.sample_ms && measure_loaded
                == !d.no_bufferbloat
        }),
        ({
            let s = phase_step(Command::Deep(d), PhaseKind::Upload);
            s matches Step::Phase { kind, duration_ns, streams, sample_ms, measure_loaded } && kind
                == PhaseKind::Upload && (!d.no_upload ==> -50 <= 100 * duration_ns - 45
                * d.duration_ns <= 50) && streams == d.streams && sample_ms == d.sample_ms
                && measure_loaded == !d.no_bufferbloat
        }),
{
}

/// What is announced: of a quick session the time of its probes and of the phases that run,
/// of a deep one its duration, of a latency session the time of its probes; and the probes
/// that will be sent, those under load by the time of each phase.
pub proof fn law_plan(q: QuickOpts, d: DeepOpts, l: LatencyOpts)
    ensures
        ({
            let p = plan_of(Command::Quick(q));
            let upload = if q.no_upload {
                0
            } else {
                q.upload_secs * 1_000_000_000
            };
            &&& p.total_ns == q.latency_probes * 100_000_000 + q.download_secs * 1_000_000_000
                + upload
            &&& p.idle_probes == q.latency_probes
            &&& p.loaded_probes == 0
        }),
        ({
            let p = plan_of(Command::Deep(d));
            let b = d.budgeted();
            &&& p.total_ns == d.duration_ns
            &&& p.idle_probes == d.latency_probes
            &&& d.no_bufferbloat ==> p.loaded_probes == 0
            &&& !d.no_bufferbloat ==> p.loaded_probes == latency::expected_loaded(
                b.download_ns as int,
            ) + latency::expected_loaded(b.upload_ns as int)
        }),
        ({
            let p = plan_of(Command::Latency(l));
            &&& p.total_ns == l.probes * (l.spacing_ms * 1_000_000)
            &&& p.idle_probes == l.probes
            &&& p.loaded_probes == 0
        }),
        plan_of(Command::Info) == (Planned { total_ns: 0, idle_probes: 0, loaded_probes: 0 }),
{
    let (n, ms) = (l.probes as int, l.spacing_ms as int);
    assert(0 <= n * ms <= u32::MAX * u64::MAX && n * ms * 1_000_000 == n * (ms * 1_000_000))
        by (nonlinear_arith)
        requires
            0 <= n <= u32::MAX,
            0 <= ms <= u64::MAX,
    ;
    let k = q.latency_probes as int;
    assert(k * PROBE_SPACING_MS * 1_000_000 == k * 100_000_000) by (nonlinear_arith)
        requires
            PROBE_SPACING_MS == 100,
    ;
}

/// What a session does next, at every place and for every command. Idle probes come first,
/// cancelled or not. A phase runs when it is its turn, the command has it and nothing was
/// cancelled; the last idle probes come after the last phase of a deep session. Each step
/// hands over to the one that follows it.
pub proof fn law_decisions(command: Command, stage: Stage, cancelled: bool)
    ensures
        ({
            let (step, next) = decide(command, stage, cancelled);
            let deep = command is Deep;
            let transfers = command is Quick || deep;
            let uploading = match command {
                Command::Quick(o) => !o.no_upload,
                Command::Deep(o) => !o.no_upload,
                _ => false,
            };
            let start = stage == Stage::IdleStart && !(command is Info);
            let download = stage == Stage::Download && transfers && !cancelled;
            let upload = stage == Stage::Upload && uploading && !cancelled;
            let end = deep && !cancelled && (stage == Stage::IdleEnd || (stage == Stage::Upload
                && !uploading));
            &&& start <==> step == idle_step(command, false) && step != Step::Finish
            &&& start ==> next == Stage::Download
            &&& download <==> (step matches Step::Phase { kind, .. } && kind
                == PhaseKind::Download)
            &&& download ==> step == phase_step(command, PhaseKind::Download) && next
                == Stage::Upload
            &&& upload <==> (step matches Step::Phase { kind, .. } && kind == PhaseKind::Upload)
            &&& upload ==> step == phase_step(command, PhaseKind::Upload) && next
                == Stage::IdleEnd
            &&& end ==> step == idle_step(command, true) && next == Stage::Done
            &&& step == Step::Finish <==> !start && !download && !upload && !end
            &&& step == Step::Finish ==> next == Stage::Done
        }),
{
}

/// A grade of bufferbloat under some load: it is there when both medians are and the idle
/// one is above zero, and what it adds to the idle median is the median under load.
pub open spec fn grades_load(
    g: Option<stats::BufferbloatGrade>,
    idle: Option<LatencySummary>,
    loaded: Option<LatencySummary>,
) -> bool {
    &&& g is Some <==> idle is Some && loaded is Some && idle->0.p50_us > 0
    &&& g is Some ==> {
        let (i, l, added) = (idle->0.p50_us, loaded->0.p50_us, g->0.added_latency_ns);
        &&& i <= l ==> i * 1000 + added == l * 1000
        &&& l < i ==> added == 0
        &&& g->0.grade == 'A' <==> added < 5_000_000
        &&& g->0.grade == 'B' <==> 5_000_000 <= added < 30_000_000
        &&& g->0.grade == 'C' <==> 30_000_000 <= added < 60_000_000
        &&& g->0.grade == 'D' <==> 60_000_000 <= added < 200_000_000
        &&& g->0.grade == 'F' <==> added >= 200_000_000
    }
}

/// A latency report has a summary for each kind of probe that was answered, of just those
/// samples, and grades each load against the idle latency.
pub proof fn law_latency_report(
    r: LatencyReport,
    idle: Seq<u64>,
    loaded_download: Seq<u64>,
    loaded_upload: Seq<u64>,
)
    requires
        latency_reported(r, idle, loaded_download, loaded_upload),
    ensures
        r.idle is Some <==> idle.len() > 0,
        r.loaded_download is Some <==> loaded_download.len() > 0,
        r.loaded_upload is Some <==> loaded_upload.len() > 0,
        r.idle is Some ==> r.idle->0.summarises(idle) && r.idle->0.raw_samples_us@ == idle,
        r.loaded_download is Some ==> r.loaded_download->0.summarises(loaded_download)
            && r.loaded_download->0.raw_samples_us@ == loaded_download,
        r.loaded_upload is Some ==> r.loaded_upload->0.summarises(loaded_upload)
            && r.loaded_upload->0.raw_samples_us@ == loaded_upload,
        grades_load(r.bufferbloat_download, r.idle, r.loaded_download),
        grades_load(r.bufferbloat_upload, r.idle, r.loaded_upload),
{
    stats::law_bufferbloat(median_ns(r.idle), median_ns(r.loaded_download));
    stats::law_bufferbloat(median_ns(r.idle), median_ns(r.loaded_upload));
}

/// A phase that ran to its deadline has the totals of its streams; one that was cancelled
/// has the bytes of the counter and knows of no requests or errors.
pub proof fn law_totals(completed: Option<Totals>, counted_bytes: u64)
    ensures
        completed is Some ==> totals_of(completed, counted_bytes) == completed->0,
        completed is None ==> ({
            let t = totals_of(completed, counted_bytes);
            t.bytes == counted_bytes && t.requests == 0 && t.errors == 0
        }),
{
}

/// What is shown while a step runs: the numbers in it are those of the step, in decimal.
pub proof fn law_step_labels(q: QuickOpts, d: DeepOpts, l: LatencyOpts, step: Step)
    ensures
        step matches Step::Idle { probes, at_end, .. } ==> {
            let secs = d.budgeted().idle_each_ns as int / 1_000_000_000;
            let turn = if at_end {
                "end"@
            } else {
                "start"@
            };
            &&& step_text(Command::Quick(q), step) == seq![
                text::PieceView::Text("idle latency"@),
            ]
            &&& step_text(Command::Latency(l), step) == seq![
                text::PieceView::Text("latency: "@ + text::dec(probes as nat) + " probes"@),
            ]
            &&& step_text(Command::Deep(d), step) == seq![
                text::PieceView::Text(
                    "idle latency ("@ + turn + ", ~"@ + text::dec(secs as nat) + "s)"@,
                ),
            ]
        },
        step matches Step::Phase { kind, duration_ns, streams, sample_ms, .. } ==> {
            let secs = duration_ns as int / 1_000_000_000;
            let name = match kind {
                PhaseKind::Download => "download"@,
                PhaseKind::Upload => "upload"@,
            };
            &&& step_text(Command::Quick(q), step) == seq![
                text::PieceView::Text(
                    name + " "@ + text::dec(secs as nat) + "s @ "@ + text::dec(streams as nat)
                        + " streams"@,
                ),
            ]
            &&& step_text(Command::Deep(d), step) == seq![
                text::PieceView::Text(name + " "@),
                text::PieceView::Num(
                    text::Num {
                        value: Ratio { whole: duration_ns, num: 0, den: 1 },
                        per: 1_000_000_000,
                        decimals: 0,
                        width: 0,
                    },
                ),
                text::PieceView::Text(
                    "s @ "@ + text::dec(streams as nat) + " streams (sampling every "@ + text::dec(
                        sample_ms as nat,
                    ) + "ms)"@,
                ),
            ]
        },
{
}

/// Each mode and each phase goes by its own name.
pub proof fn law_names(command: Command, kind: PhaseKind)
    ensures
        command is Quick ==> mode_name(command) == "quick"@,
        command is Deep ==> mode_name(command) == "deep"@,
        command is Latency ==> mode_name(command) == "latency"@,
        command is Info ==> mode_name(command) == "info"@,
        kind is Download ==> kind_name(kind) == "download"@,
        kind is Upload ==> kind_name(kind) == "upload"@,
{
}

/// Sessions with the same measurements have the same latency report and the same phases.
pub proof fn law_measurements(a: Session, b: Session, r: LatencyReport)
    requires
        a.same_measurements(b),
    ensures
        a.idle_us@ == b.idle_us@,
        a.loaded_download_us@ == b.loaded_download_us@,
        a.loaded_upload_us@ == b.loaded_upload_us@,
        a.download == b.download,
        a.upload == b.upload,
        latency_reported(r, a.idle_us@, a.loaded_download_us@, a.loaded_upload_us@)
            <==> latency_reported(r, b.idle_us@, b.loaded_download_us@, b.loaded_upload_us@),
{
}

}
