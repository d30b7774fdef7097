//! The live terminal UI: its state, and what each part of the screen shows.

use std::collections::VecDeque;
use vstd::prelude::*;

use crate::metadata::{Metadata, MetadataView};
use crate::order;
use crate::phase;
use crate::report::PhaseReport;
use crate::sampler::{Sample, MEGABIT};
use crate::stats;
use crate::stats::{BufferbloatGrade, Ratio};
use crate::text;
use crate::text::{Piece, PieceView};
use crate::ui::theme;
use crate::ui::theme::{Palette, Tone};
use crate::ui::{PhaseKind, ProbeKind, UiEvent};

verus! {

/// How many samples the live chart keeps: 24 s at a sample each 100 ms.
pub const SAMPLE_BUFFER_CAP: usize = 240;

/// What the chart counts in: a hundredth of a Mbit/s.
pub const CHART_UNIT: u128 = 10_000_000_000;

/// The value of a rate on the chart, cut off where a `u64` ends.
pub open spec fn chart_value(rate: u128) -> u64 {
    if rate / CHART_UNIT > u64::MAX {
        u64::MAX
    } else {
        (rate / CHART_UNIT) as u64
    }
}

fn charted(rate: u128) -> (v: u64)
    ensures
        v == chart_value(rate),
{
    let v: u128 = rate / CHART_UNIT;
    if v > u64::MAX as u128 {
        u64::MAX
    } else {
        v as u64
    }
}

/// The phase that is running.
pub struct ActivePhase {
    pub kind: PhaseKind,
    pub label: &'static str,
    pub started_ns: u128,
    pub planned_ns: u128,
    pub samples: VecDeque<Sample>,
}

/// The contents of an [`ActivePhase`].
#[verifier::ext_equal]
pub struct ActiveView {
    pub kind: PhaseKind,
    pub label: &'static str,
    pub started_ns: u128,
    pub planned_ns: u128,
    pub samples: Seq<Sample>,
}

impl View for ActivePhase {
    type V = ActiveView;

    open spec fn view(&self) -> ActiveView {
        ActiveView {
            kind: self.kind,
            label: self.label,
            started_ns: self.started_ns,
            planned_ns: self.planned_ns,
            samples: self.samples@,
        }
    }
}

/// The last samples, as many as the chart keeps.
pub open spec fn window(all: Seq<Sample>) -> Seq<Sample> {
    if all.len() <= SAMPLE_BUFFER_CAP {
        all
    } else {
        all.skip(all.len() - SAMPLE_BUFFER_CAP)
    }
}

/// The kept samples after one more has come; the oldest makes room.
pub open spec fn kept(samples: Seq<Sample>, s: Sample) -> Seq<Sample> {
    if samples.len() == SAMPLE_BUFFER_CAP {
        samples.drop_first().push(s)
    } else {
        samples.push(s)
    }
}

impl ActivePhase {
    /// Takes in a sample.
    pub fn push_sample(&mut self, s: Sample)
        ensures
            final(self)@ == (ActiveView { samples: kept(old(self)@.samples, s), ..old(self)@ }),
    {
        if self.samples.len() == SAMPLE_BUFFER_CAP {
            self.samples.pop_front();
        }
        self.samples.push_back(s);
        assert(self.samples@ =~= kept(old(self)@.samples, s));
    }

    /// How long the phase has run.
    pub fn elapsed_ns(&self, now_ns: u128) -> (ns: u128)
        ensures
            ns == since(now_ns, self.started_ns),
    {
        now_ns.saturating_sub(self.started_ns)
    }

    /// The rate of the last sample, or 0.
    pub fn current_rate(&self) -> (rate: u128)
        ensures
            rate == last_rate(self.samples@),
    {
        let n: usize = self.samples.len();
        if n == 0 {
            0
        } else {
            self.samples[n - 1].rate
        }
    }
}

/// The time from `start_ns` to `now_ns`; none when the clock stands before the start.
pub open spec fn since(now_ns: u128, start_ns: u128) -> u128 {
    if now_ns >= start_ns {
        (now_ns - start_ns) as u128
    } else {
        0
    }
}

/// The rate of the last sample, or 0.
pub open spec fn last_rate(samples: Seq<Sample>) -> u128 {
    if samples.len() == 0 {
        0
    } else {
        samples.last().rate
    }
}

/// Whatever the chart keeps is the tail of what has come.
pub proof fn law_chart_keeps_the_tail(all: Seq<Sample>, s: Sample)
    ensures
        kept(window(all), s) == window(all.push(s)),
        window(all).len() <= SAMPLE_BUFFER_CAP,
{
    assert(kept(window(all), s) =~= window(all.push(s)));
}

/// What the live UI knows.
pub struct State {
    pub mode: Option<&'static str>,
    pub metadata: Option<Box<Metadata>>,
    pub session_started_ns: Option<u128>,
    pub total_planned_ns: u128,
    pub active: Option<ActivePhase>,
    pub finished: Vec<PhaseReport>,
    pub idle_rtts_us: Vec<u64>,
    pub loaded_dl_rtts_us: Vec<u64>,
    pub loaded_ul_rtts_us: Vec<u64>,
    pub last_error: Option<String>,
}

/// The contents of a [`State`].
#[verifier::ext_equal]
pub struct StateView {
    pub mode: Option<&'static str>,
    pub metadata: Option<MetadataView>,
    pub session_started_ns: Option<u128>,
    pub total_planned_ns: u128,
    pub active: Option<ActiveView>,
    pub finished: Seq<PhaseReport>,
    pub idle_rtts_us: Seq<u64>,
    pub loaded_dl_rtts_us: Seq<u64>,
    pub loaded_ul_rtts_us: Seq<u64>,
    pub last_error: Option<Seq<char>>,
}

impl View for State {
    type V = StateView;

    open spec fn view(&self) -> StateView {
        StateView {
            mode: self.mode,
            metadata: match self.metadata {
                Some(md) => Some(md@),
                None => None,
            },
            session_started_ns: self.session_started_ns,
            total_planned_ns: self.total_planned_ns,
            active: match self.active {
                Some(a) => Some(a@),
                None => None,
            },
            finished: self.finished@,
            idle_rtts_us: self.idle_rtts_us@,
            loaded_dl_rtts_us: self.loaded_dl_rtts_us@,
            loaded_ul_rtts_us: self.loaded_ul_rtts_us@,
            last_error: text::opt(self.last_error),
        }
    }
}

/// What the live UI knows at first: nothing.
pub open spec fn fresh() -> StateView {
    StateView {
        mode: None,
        metadata: None,
        session_started_ns: None,
        total_planned_ns: 0,
        active: None,
        finished: Seq::empty(),
        idle_rtts_us: Seq::empty(),
        loaded_dl_rtts_us: Seq::empty(),
        loaded_ul_rtts_us: Seq::empty(),
        last_error: None,
    }
}

/// What the live UI knows after an event at `now_ns`. A sample that comes while no phase
/// is running is dropped.
pub open spec fn applied(s: StateView, ev: UiEvent, now_ns: u128) -> StateView {
    match ev {
        UiEvent::SessionStarted { mode, total_planned_ns, metadata, .. } => StateView {
            mode: Some(mode),
            metadata: Some(metadata@),
            session_started_ns: Some(now_ns),
            total_planned_ns,
            ..s
        },
        UiEvent::PhaseStarted { kind, label, planned_ns } => StateView {
            active: Some(
                ActiveView {
                    kind,
                    label,
                    started_ns: now_ns,
                    planned_ns,
                    samples: Seq::empty(),
                },
            ),
            ..s
        },
        UiEvent::Throughput(sample) => StateView {
            active: match s.active {
                Some(a) => Some(ActiveView { samples: kept(a.samples, sample), ..a }),
                None => None,
            },
            ..s
        },
        UiEvent::LatencyProbe { kind, rtt_us } => match kind {
            ProbeKind::Idle => StateView { idle_rtts_us: s.idle_rtts_us.push(rtt_us), ..s },
            ProbeKind::LoadedDownload => StateView {
                loaded_dl_rtts_us: s.loaded_dl_rtts_us.push(rtt_us),
                ..s
            },
            ProbeKind::LoadedUpload => StateView {
                loaded_ul_rtts_us: s.loaded_ul_rtts_us.push(rtt_us),
                ..s
            },
        },
        UiEvent::PhaseFinished(rep) => StateView {
            finished: s.finished.push(rep),
            active: None,
            ..s
        },
        UiEvent::SessionFinished(_) => StateView { active: None, ..s },
        UiEvent::Error(e) => StateView { last_error: Some(e@), ..s },
    }
}

impl Default for State {
    fn default() -> (s: State)
        ensures
            s@ == fresh(),
    {
        State {
            mode: None,
            metadata: None,
            session_started_ns: None,
            total_planned_ns: 0,
            active: None,
            finished: Vec::new(),
            idle_rtts_us: Vec::new(),
            loaded_dl_rtts_us: Vec::new(),
            loaded_ul_rtts_us: Vec::new(),
            last_error: None,
        }
    }
}

impl State {
    /// Takes in an event.
    pub fn apply(&mut self, ev: UiEvent, now_ns: u128)
        ensures
            final(self)@ == applied(old(self)@, ev, now_ns),
    {
        match ev {
            UiEvent::SessionStarted { mode, total_planned_ns, metadata, .. } => {
                self.mode = Some(mode);
                self.metadata = Some(metadata);
                self.session_started_ns = Some(now_ns);
                self.total_planned_ns = total_planned_ns;
            },
            UiEvent::PhaseStarted { kind, label, planned_ns } => {
                self.active = Some(
                    ActivePhase {
                        kind,
                        label,
                        started_ns: now_ns,
                        planned_ns,
                        samples: VecDeque::new(),
                    },
                );
            },
            UiEvent::Throughput(s) => {
                if let Some(mut phase) = self.active.take() {
                    phase.push_sample(s);
                    self.active = Some(phase);
                }
            },
            UiEvent::LatencyProbe { kind, rtt_us } => match kind {
                ProbeKind::Idle => self.idle_rtts_us.push(rtt_us),
                ProbeKind::LoadedDownload => self.loaded_dl_rtts_us.push(rtt_us),
                ProbeKind::LoadedUpload => self.loaded_ul_rtts_us.push(rtt_us),
            },
            UiEvent::PhaseFinished(rep) => {
                self.finished.push(rep);
                self.active = None;
            },
            UiEvent::SessionFinished(_) => {
                self.active = None;
            },
            UiEvent::Error(e) => {
                self.last_error = Some(e);
            },
        }
        assert(self@ =~= applied(old(self)@, ev, now_ns));
    }

    /// How long the session has run; 0 before it starts.
    pub fn session_elapsed_ns(&self, now_ns: u128) -> (ns: u128)
        ensures
            ns == session_time(self@, now_ns),
    {
        match self.session_started_ns {
            Some(t) => now_ns.saturating_sub(t),
            None => 0,
        }
    }
}

/// How long a session has run; 0 before it starts.
pub open spec fn session_time(s: StateView, now_ns: u128) -> u128 {
    match s.session_started_ns {
        Some(t) => since(now_ns, t),
        None => 0,
    }
}

/// What the live UI knows after some events, each with the time at which it came.
pub open spec fn after_events(events: Seq<(UiEvent, u128)>) -> StateView
    decreases events.len(),
{
    if events.len() == 0 {
        fresh()
    } else {
        let (ev, now_ns) = events.last();
        applied(after_events(events.drop_last()), ev, now_ns)
    }
}

/// The round-trip times that probes of a kind have brought.
pub open spec fn probed(events: Seq<(UiEvent, u128)>, wanted: ProbeKind) -> Seq<u64>
    decreases events.len(),
{
    if events.len() == 0 {
        Seq::empty()
    } else {
        let before = probed(events.drop_last(), wanted);
        match events.last().0 {
            UiEvent::LatencyProbe { kind, rtt_us } => if kind == wanted {
                before.push(rtt_us)
            } else {
                before
            },
            _ => before,
        }
    }
}

/// The reports of the phases that have finished.
pub open spec fn finished_in(events: Seq<(UiEvent, u128)>) -> Seq<PhaseReport>
    decreases events.len(),
{
    if events.len() == 0 {
        Seq::empty()
    } else {
        let before = finished_in(events.drop_last());
        match events.last().0 {
            UiEvent::PhaseFinished(rep) => before.push(rep),
            _ => before,
        }
    }
}

/// The samples of the running phase, if one is running.
pub open spec fn running(events: Seq<(UiEvent, u128)>) -> Option<Seq<Sample>>
    decreases events.len(),
{
    if events.len() == 0 {
        None
    } else {
        let before = running(events.drop_last());
        match events.last().0 {
            UiEvent::PhaseStarted { .. } => Some(Seq::empty()),
            UiEvent::Throughput(s) => match before {
                Some(all) => Some(all.push(s)),
                None => None,
            },
            UiEvent::PhaseFinished(_) => None,
            UiEvent::SessionFinished(_) => None,
            _ => before,
        }
    }
}

/// The live UI loses no probe and no finished phase, and its chart holds the last samples
/// of the running phase, never more than it has room for.
pub proof fn law_state_follows_events(events: Seq<(UiEvent, u128)>)
    ensures
        ({
            let s = after_events(events);
            &&& s.idle_rtts_us == probed(events, ProbeKind::Idle)
            &&& s.loaded_dl_rtts_us == probed(events, ProbeKind::LoadedDownload)
            &&& s.loaded_ul_rtts_us == probed(events, ProbeKind::LoadedUpload)
            &&& s.finished == finished_in(events)
            &&& match (s.active, running(events)) {
                (Some(a), Some(all)) => a.samples == window(all) && a.samples.len()
                    <= SAMPLE_BUFFER_CAP,
                (None, None) => true,
                _ => false,
            }
        }),
    decreases events.len(),
{
    if events.len() > 0 {
        law_state_follows_events(events.drop_last());
        if let UiEvent::Throughput(s) = events.last().0 {
            if let Some(all) = running(events.drop_last()) {
                law_chart_keeps_the_tail(all, s);
                law_chart_keeps_the_tail(all.push(s), s);
            }
        }
    }
}

/// A key press.
#[derive(Clone, Copy, Debug, PartialEq, Eq, Structural)]
pub enum Key {
    Char(char),
    Esc,
    Other,
}

/// Whether a key press ends the UI: `q`, Esc or Ctrl-C.
pub fn is_quit(key: Key, ctrl: bool) -> (quit: bool)
    ensures
        quit <==> key == Key::Char('q') || key == Key::Esc || (key == Key::Char('c') && ctrl),
{
    match key {
        Key::Char(c) => c == 'q' || (c == 'c' && ctrl),
        Key::Esc => true,
        Key::Other => false,
    }
}

/// A piece of text and how it is shown.
#[derive(Clone, Debug)]
pub struct Span {
    pub piece: Piece,
    pub tone: Tone,
}

/// The contents of a [`Span`].
#[verifier::ext_equal]
pub struct SpanView {
    pub piece: PieceView,
    pub tone: Tone,
}

impl View for Span {
    type V = SpanView;

    open spec fn view(&self) -> SpanView {
        SpanView { piece: self.piece@, tone: self.tone }
    }
}

/// The contents of a line of spans.
pub open spec fn spans_view(spans: Seq<Span>) -> Seq<SpanView> {
    spans.map_values(|s: Span| s@)
}

/// Text in a tone.
pub open spec fn toned(s: Seq<char>, tone: Tone) -> SpanView {
    SpanView { piece: text::shown(s), tone }
}

/// Text in the default tone.
pub open spec fn raw(s: Seq<char>) -> SpanView {
    toned(s, theme::plain())
}

/// Bold in no particular colour.
pub open spec fn bold() -> Tone {
    Tone { fg: None, bold: true }
}

fn span(s: &str, tone: Tone) -> (r: Span)
    ensures
        r@ == toned(s@, tone),
{
    Span { piece: text::piece(s), tone }
}

fn raw_span(s: &str) -> (r: Span)
    ensures
        r@ == raw(s@),
{
    span(s, Tone { fg: None, bold: false })
}

/// The first line of the header: the program, the mode, and the time of the planned time.
pub open spec fn title_spans(s: StateView, now_ns: u128, p: Palette) -> Seq<SpanView> {
    seq![
        toned("speedt"@, bold()),
        raw("  ·  "@),
        toned(
            match s.mode {
                Some(m) => m@,
                None => "…"@,
            },
            theme::coloured(p, theme::Colour::Cyan),
        ),
        raw("  ·  "@),
        raw(
            text::clock_text(session_time(s, now_ns)) + " / "@ + text::clock_text(
                s.total_planned_ns,
            ),
        ),
    ]
}

/// The first line of the header.
pub fn header_title(state: &State, now_ns: u128, p: Palette) -> (spans: Vec<Span>)
    ensures
        spans_view(spans@) == title_spans(state@, now_ns, p),
{
    let mode = match state.mode {
        Some(m) => m,
        None => "…",
    };
    let clock = text::fmt_clock(state.session_elapsed_ns(now_ns)).concat(" / ").concat(
        text::fmt_clock(state.total_planned_ns).as_str(),
    );
    let mut spans: Vec<Span> = Vec::new();
    spans.push(span("speedt", Tone { fg: None, bold: true }));
    spans.push(raw_span("  ·  "));
    spans.push(span(mode, theme::download_style(p)));
    spans.push(raw_span("  ·  "));
    spans.push(raw_span(clock.as_str()));
    assert(spans_view(spans@) =~= title_spans(state@, now_ns, p));
    spans
}

/// `s` when there is one.
pub open spec fn some_text(s: Option<Seq<char>>) -> Seq<Seq<char>> {
    match s {
        Some(t) => seq![t],
        None => Seq::empty(),
    }
}

/// The number of an autonomous system, and its organisation where that is known.
pub open spec fn asn_text(md: MetadataView) -> Option<Seq<char>> {
    match md.asn {
        Some(a) => Some(
            "AS"@ + text::dec(a as nat) + (match md.as_organization {
                Some(org) => if org.len() == 0 {
                    Seq::empty()
                } else {
                    " "@ + org
                },
                None => Seq::empty(),
            }),
        ),
        None => None,
    }
}

/// What is known of the connection, in the order in which it is shown.
pub open spec fn known_parts(md: MetadataView) -> Seq<Seq<char>> {
    some_text(
        match md.colo {
            Some(c) => Some("colo "@ + c),
            None => None,
        },
    ) + some_text(asn_text(md)) + some_text(md.http_protocol) + some_text(md.tls)
}

/// Parts with a muted dot between them.
pub open spec fn dotted(parts: Seq<Seq<char>>, p: Palette) -> Seq<SpanView>
    decreases parts.len(),
{
    if parts.len() == 0 {
        Seq::empty()
    } else {
        let before = dotted(parts.drop_last(), p);
        if parts.len() == 1 {
            before.push(raw(parts.last()))
        } else {
            before.push(toned("  ·  "@, theme::coloured(p, theme::Colour::DarkGray))).push(
                raw(parts.last()),
            )
        }
    }
}

/// The second line of the header: the connection, as far as it is known.
pub open spec fn metadata_spans(md: Option<MetadataView>, p: Palette) -> Seq<SpanView> {
    let muted = theme::coloured(p, theme::Colour::DarkGray);
    match md {
        None => seq![toned("(metadata pending…)"@, muted)],
        Some(md) => if known_parts(md).len() == 0 {
            seq![toned("(metadata unavailable)"@, muted)]
        } else {
            dotted(known_parts(md), p)
        },
    }
}

fn push_part(spans: &mut Vec<Span>, part: &str, p: Palette, Ghost(parts): Ghost<Seq<Seq<char>>>)
    requires
        spans_view(old(spans)@) == dotted(parts, p),
        old(spans).len() == 0 <==> parts.len() == 0,
    ensures
        spans_view(final(spans)@) == dotted(parts.push(part@), p),
        final(spans).len() > 0,
{
    if spans.len() > 0 {
        spans.push(span("  ·  ", theme::muted_style(p)));
    }
    spans.push(raw_span(part));
    assert(parts.push(part@).drop_last() =~= parts);
    assert(spans_view(spans@) =~= dotted(parts.push(part@), p));
}

/// The second line of the header.
pub fn metadata_segments(md: Option<&Metadata>, p: Palette) -> (spans: Vec<Span>)
    ensures
        spans_view(spans@) == metadata_spans(
            match md {
                Some(m) => Some(m@),
                None => None,
            },
            p,
        ),
{
    let mut spans: Vec<Span> = Vec::new();
    let md = match md {
        Some(md) => md,
        None => {
            spans.push(span("(metadata pending…)", theme::muted_style(p)));
            assert(spans_view(spans@) =~= metadata_spans(None, p));
            return spans;
        },
    };
    let ghost mut parts = Seq::<Seq<char>>::empty();
    assert(spans_view(spans@) =~= dotted(parts, p));
    if let Some(c) = &md.colo {
        let s = "colo ".to_owned().concat(c.as_str());
        push_part(&mut spans, s.as_str(), p, Ghost(parts));
        proof {
            parts = parts.push(s@);
        }
    }
    if let Some(asn) = md.asn {
        let mut s = "AS".to_owned().concat(text::decimal(asn as u128).as_str());
        let ghost head = s@;
        if let Some(org) = &md.as_organization {
            if !org.as_str().is_empty() {
                s = s.concat(" ").concat(org.as_str());
            }
        }
        assert(Some(s@) =~= asn_text(md@)) by {
            assert(head + Seq::<char>::empty() =~= head);
            if let Some(org) = md@.as_organization {
                assert(head + (" "@ + org) =~= head + " "@ + org);
            }
        }
        push_part(&mut spans, s.as_str(), p, Ghost(parts));
        proof {
            parts = parts.push(s@);
        }
    }
    if let Some(http) = &md.http_protocol {
        push_part(&mut spans, http.as_str(), p, Ghost(parts));
        proof {
            parts = parts.push(http@);
        }
    }
    if let Some(tls) = &md.tls {
        push_part(&mut spans, tls.as_str(), p, Ghost(parts));
        proof {
            parts = parts.push(tls@);
        }
    }
    assert(parts =~= known_parts(md@));
    if spans.len() == 0 {
        spans.push(span("(metadata unavailable)", theme::muted_style(p)));
        assert(spans_view(spans@) =~= metadata_spans(Some(md@), p));
    }
    spans
}

/// A row of the phase area.
#[derive(Clone, Debug)]
pub enum PhaseRow {
    /// The card of a finished phase.
    Finished(usize),
    /// The running phase.
    Active,
    /// A message while there is nothing to show.
    Message(String),
    /// Empty space.
    Padding,
}

/// The contents of a [`PhaseRow`].
#[verifier::ext_equal]
pub enum PhaseRowView {
    Finished(int),
    Active,
    Message(Seq<char>),
    Padding,
}

impl View for PhaseRow {
    type V = PhaseRowView;

    open spec fn view(&self) -> PhaseRowView {
        match self {
            PhaseRow::Finished(i) => PhaseRowView::Finished(*i as int),
            PhaseRow::Active => PhaseRowView::Active,
            PhaseRow::Message(s) => PhaseRowView::Message(s@),
            PhaseRow::Padding => PhaseRowView::Padding,
        }
    }
}

/// How high a row is.
#[derive(Clone, Copy, Debug, PartialEq, Eq, Structural)]
pub enum Height {
    Exactly(u16),
    AtLeast(u16),
}

impl PhaseRow {
    /// A finished phase takes four lines; the running one takes what is left, at least
    /// seven.
    pub fn height(&self) -> (h: Height)
        ensures
            h == match self@ {
                PhaseRowView::Finished(_) => Height::Exactly(4),
                PhaseRowView::Active => Height::AtLeast(7),
                _ => Height::AtLeast(0),
            },
    {
        match self {
            PhaseRow::Finished(_) => Height::Exactly(4),
            PhaseRow::Active => Height::AtLeast(7),
            _ => Height::AtLeast(0),
        }
    }
}

/// The phase area: a card for each finished phase, and below them the running phase, a
/// message while there is neither, or empty space.
pub open spec fn area_rows(s: StateView) -> Seq<PhaseRowView> {
    let cards = Seq::new(s.finished.len(), |i: int| PhaseRowView::Finished(i));
    cards.push(
        if s.active is Some {
            PhaseRowView::Active
        } else if s.finished.len() > 0 {
            PhaseRowView::Padding
        } else {
            PhaseRowView::Message(
                match s.last_error {
                    Some(e) => "error: "@ + e,
                    None => "waiting for first phase…"@,
                },
            )
        },
    )
}

/// The rows of the phase area.
pub fn phase_area(state: &State) -> (rows: Vec<PhaseRow>)
    ensures
        rows@.map_values(|r: PhaseRow| r@) == area_rows(state@),
{
    let mut rows: Vec<PhaseRow> = Vec::new();
    for i in 0..state.finished.len()
        invariant
            rows.len() == i,
            forall|k: int| 0 <= k < i ==> (#[trigger] rows@[k])@ == PhaseRowView::Finished(k),
    {
        rows.push(PhaseRow::Finished(i));
    }
    rows.push(
        if state.active.is_some() {
            PhaseRow::Active
        } else if state.finished.len() > 0 {
            PhaseRow::Padding
        } else {
            PhaseRow::Message(
                match &state.last_error {
                    Some(e) => "error: ".to_owned().concat(e.as_str()),
                    None => "waiting for first phase…".to_owned(),
                },
            )
        },
    );
    assert(rows@.map_values(|r: PhaseRow| r@) =~= area_rows(state@));
    rows
}

/// The card of a finished phase.
pub struct FinishedCard {
    pub title: String,
    pub rates: Vec<Piece>,
    pub totals: Vec<Piece>,
}

/// The first line of a finished card.
pub open spec fn card_rates(r: PhaseReport) -> Seq<PieceView> {
    seq![
        text::shown("mean "@),
        text::shown_num(r.mean_mbps, 1, 2, 0),
        text::shown(" Mbps · stable "@),
    ] + text::opt_measure(r.stable, MEGABIT, 2, " Mbps"@) + seq![text::shown(" · TTS "@)]
        + text::opt_measure(text::opt_ns(r.time_to_saturation_ns), 1_000_000_000, 1, "s"@)
}

/// The second line of a finished card.
pub open spec fn card_totals(r: PhaseReport) -> Seq<PieceView> {
    seq![
        text::shown("p50 "@),
        text::shown_num(r.timeline_summary.p50, MEGABIT, 2, 0),
        text::shown(" · p95 "@),
        text::shown_num(r.timeline_summary.p95, MEGABIT, 2, 0),
        text::shown(" · "@),
    ] + text::bytes_text(r.total_bytes, 1) + seq![
        text::shown(" · "@),
        text::shown_num(Ratio { whole: r.duration_ns, num: 0, den: 1 }, 1_000_000_000, 1, 0),
        text::shown("s"@),
    ]
}

/// The card of a finished phase.
pub fn finished_card(r: &PhaseReport) -> (c: FinishedCard)
    ensures
        c.title@ == " "@ + r.label@ + " ✓ "@,
        text::line_view(c.rates@) == card_rates(*r),
        text::line_view(c.totals@) == card_totals(*r),
{
    let title = " ".to_owned().concat(r.label).concat(" ✓ ");
    let mut rates: Vec<Piece> = Vec::new();
    rates.push(text::piece("mean "));
    rates.push(text::num(r.mean_mbps, 1, 2, 0));
    rates.push(text::piece(" Mbps · stable "));
    let rates = text::join(rates, text::fmt_opt_mbps(r.stable));
    let rates = text::join(rates, text::line(" · TTS "));
    let rates = text::join(rates, text::fmt_opt_secs(r.time_to_saturation_ns));
    assert(text::line_view(rates@) =~= card_rates(*r));
    let mut totals: Vec<Piece> = Vec::new();
    totals.push(text::piece("p50 "));
    totals.push(text::num(r.timeline_summary.p50, MEGABIT, 2, 0));
    totals.push(text::piece(" · p95 "));
    totals.push(text::num(r.timeline_summary.p95, MEGABIT, 2, 0));
    totals.push(text::piece(" · "));
    let totals = text::join(totals, text::fmt_bytes(r.total_bytes, 1));
    let totals = text::join(totals, text::line(" · "));
    let totals = text::join(
        totals,
        text::measure(Ratio { whole: r.duration_ns, num: 0, den: 1 }, 1_000_000_000, 1, "s"),
    );
    assert(text::line_view(totals@) =~= card_totals(*r));
    FinishedCard { title, rates, totals }
}

/// The rates of the samples.
pub open spec fn rates_of(samples: Seq<Sample>) -> Seq<u128> {
    samples.map_values(|s: Sample| s.rate)
}

fn rates(samples: &VecDeque<Sample>) -> (r: Vec<u128>)
    ensures
        r@ == rates_of(samples@),
{
    let mut r: Vec<u128> = Vec::new();
    for i in 0..samples.len()
        invariant
            r@ == rates_of(samples@).take(i as int),
    {
        r.push(samples[i].rate);
        assert(r@ =~= rates_of(samples@).take(i + 1));
    }
    assert(rates_of(samples@).take(samples.len() as int) =~= rates_of(samples@));
    r
}

/// The running phase as it is shown.
pub struct ActiveCard {
    pub title: String,
    pub tone: Tone,
    /// The share of the planned time that has passed, at most 1.
    pub gauge: Ratio,
    pub gauge_label: Vec<Piece>,
    /// The chart, in hundredths of a Mbit/s.
    pub chart: Vec<u64>,
    pub stats: Vec<Span>,
}

/// The planned time of a phase, at least a millisecond.
pub open spec fn planned_time(a: ActiveView) -> u128 {
    if a.planned_ns < 1_000_000 {
        1_000_000
    } else {
        a.planned_ns
    }
}

/// The share of the planned time that has passed, at most 1.
pub open spec fn progress(a: ActiveView, now_ns: u128) -> Ratio {
    let elapsed = since(now_ns, a.started_ns);
    let planned = planned_time(a);
    Ratio {
        whole: 0,
        num: if elapsed < planned {
            elapsed
        } else {
            planned
        },
        den: planned,
    }
}

/// The label of the gauge: time, planned time, and percent.
pub open spec fn gauge_text(a: ActiveView, now_ns: u128) -> Seq<PieceView> {
    seq![
        text::shown(
            text::clock_text(since(now_ns, a.started_ns)) + " / "@ + text::clock_text(
                planned_time(a),
            ) + "  ("@,
        ),
        PieceView::Percent(progress(a, now_ns)),
        text::shown("%)"@),
    ]
}

/// A number in a tone.
pub open spec fn toned_num(
    value: Ratio,
    per: u64,
    decimals: u8,
    width: u8,
    tone: Tone,
) -> SpanView {
    SpanView { piece: text::shown_num(value, per, decimals, width), tone }
}

/// Pieces in the default tone.
pub open spec fn raw_line(l: Seq<PieceView>) -> Seq<SpanView> {
    l.map_values(|p: PieceView| SpanView { piece: p, tone: theme::plain() })
}

/// The line under the chart: the rate now, two percentiles, and the mean of the last half.
pub open spec fn stats_spans(samples: Seq<Sample>) -> Seq<SpanView> {
    let rates = rates_of(samples);
    seq![
        raw("now "@),
        toned_num(text::whole(last_rate(samples) as int), MEGABIT, 2, 7, bold()),
        toned(" Mbps"@, bold()),
        raw("   p50 "@),
        toned_num(stats::percentile_ratio(rates, 50), MEGABIT, 2, 6, theme::plain()),
        raw("   p95 "@),
        toned_num(stats::percentile_ratio(rates, 95), MEGABIT, 2, 6, theme::plain()),
        raw("   stable "@),
    ] + raw_line(text::opt_measure(phase::stable_of(rates), MEGABIT, 2, " Mbps"@))
}

fn raw_spans(l: Vec<Piece>) -> (spans: Vec<Span>)
    ensures
        spans_view(spans@) == raw_line(text::line_view(l@)),
{
    let mut l = l;
    let ghost pieces = l@;
    let mut spans: Vec<Span> = Vec::new();
    let n: usize = l.len();
    for i in 0..n
        invariant
            n == pieces.len(),
            l@ == pieces.skip(i as int),
            spans.len() == i,
            forall|k: int|
                0 <= k < i ==> (#[trigger] spans@[k])@ == (SpanView {
                    piece: pieces[k]@,
                    tone: theme::plain(),
                }),
    {
        let piece = l.remove(0);
        assert(l@ =~= pieces.skip(i + 1));
        spans.push(Span { piece, tone: Tone { fg: None, bold: false } });
    }
    assert(spans_view(spans@) =~= raw_line(text::line_view(pieces)));
    spans
}

fn stats_line(active: &ActivePhase) -> (spans: Vec<Span>)
    ensures
        spans_view(spans@) == stats_spans(active.samples@),
{
    let plain = Tone { fg: None, bold: false };
    let rates = rates(&active.samples);
    let sorted = order::sorted(&rates);
    proof {
        rates@.lemma_sort_by_ensures(order::at_most());
    }
    let p50 = order::percentile(&sorted, 50);
    let p95 = order::percentile(&sorted, 95);
    let now = Ratio { whole: active.current_rate(), num: 0, den: 1 };
    let mut spans: Vec<Span> = Vec::new();
    spans.push(raw_span("now "));
    spans.push(
        Span { piece: text::num(now, MEGABIT, 2, 7), tone: Tone { fg: None, bold: true } },
    );
    spans.push(span(" Mbps", Tone { fg: None, bold: true }));
    spans.push(raw_span("   p50 "));
    spans.push(Span { piece: text::num(p50, MEGABIT, 2, 6), tone: plain });
    spans.push(raw_span("   p95 "));
    spans.push(Span { piece: text::num(p95, MEGABIT, 2, 6), tone: plain });
    spans.push(raw_span("   stable "));
    let ghost head = spans@;
    let mut tail = raw_spans(text::fmt_opt_mbps(phase::stable_rate(&rates)));
    let ghost rest = tail@;
    spans.append(&mut tail);
    assert(spans_view(spans@) =~= spans_view(head) + spans_view(rest));
    assert(spans_view(spans@) =~= stats_spans(active.samples@));
    spans
}

/// The tone of a phase.
pub open spec fn kind_tone(kind: PhaseKind, p: Palette) -> Tone {
    match kind {
        PhaseKind::Download => theme::coloured(p, theme::Colour::Cyan),
        PhaseKind::Upload => theme::coloured(p, theme::Colour::Magenta),
    }
}

/// The running phase as it is shown at `now_ns`.
pub fn active_card(active: &ActivePhase, now_ns: u128, p: Palette) -> (c: ActiveCard)
    ensures
        c.title@ == " "@ + active.label@ + " (live) "@,
        c.tone == kind_tone(active.kind, p),
        c.gauge == progress(active@, now_ns),
        text::line_view(c.gauge_label@) == gauge_text(active@, now_ns),
        c.chart@ == rates_of(active.samples@).map_values(|r: u128| chart_value(r)),
        spans_view(c.stats@) == stats_spans(active.samples@),
{
    let title = " ".to_owned().concat(active.label).concat(" (live) ");
    let tone = match active.kind {
        PhaseKind::Download => theme::download_style(p),
        PhaseKind::Upload => theme::upload_style(p),
    };
    let elapsed: u128 = active.elapsed_ns(now_ns);
    let planned: u128 = if active.planned_ns < 1_000_000 {
        1_000_000
    } else {
        active.planned_ns
    };
    let gauge = Ratio {
        whole: 0,
        num: if elapsed < planned {
            elapsed
        } else {
            planned
        },
        den: planned,
    };
    let mut gauge_label: Vec<Piece> = Vec::new();
    gauge_label.push(
        text::owned(
            text::fmt_clock(elapsed).concat(" / ").concat(
                text::fmt_clock(planned).as_str(),
            ).concat("  ("),
        ),
    );
    gauge_label.push(Piece::Percent(gauge));
    gauge_label.push(text::piece("%)"));
    assert(text::line_view(gauge_label@) =~= gauge_text(active@, now_ns));
    let mut chart: Vec<u64> = Vec::new();
    let ghost all = rates_of(active.samples@).map_values(|r: u128| chart_value(r));
    for i in 0..active.samples.len()
        invariant
            all == rates_of(active.samples@).map_values(|r: u128| chart_value(r)),
            chart@ == all.take(i as int),
    {
        chart.push(charted(active.samples[i].rate));
        assert(chart@ =~= all.take(i + 1));
    }
    assert(all.take(active.samples.len() as int) =~= all);
    let stats = stats_line(active);
    ActiveCard { title, tone, gauge, gauge_label, chart, stats }
}

/// The round-trip times as samples.
pub open spec fn as_samples(rtts_us: Seq<u64>) -> Seq<u128> {
    rtts_us.map_values(|us: u64| us as u128)
}

/// A percentile of round-trip times, in nanoseconds, if there are any.
pub open spec fn rtt_percentile(samples_us: Seq<u64>, pct: int) -> Option<u128> {
    if samples_us.len() == 0 {
        None
    } else {
        Some((order::percentile_of(as_samples(samples_us), pct) * 10) as u128)
    }
}

fn samples_of(rtts_us: &Vec<u64>) -> (v: Vec<u128>)
    ensures
        v@ == as_samples(rtts_us@),
{
    let mut v: Vec<u128> = Vec::new();
    for i in 0..rtts_us.len()
        invariant
            v@ == as_samples(rtts_us@).take(i as int),
    {
        v.push(rtts_us[i] as u128);
        assert(v@ =~= as_samples(rtts_us@).take(i + 1));
    }
    assert(as_samples(rtts_us@).take(rtts_us.len() as int) =~= as_samples(rtts_us@));
    v
}

/// The percentile of round-trip times given in microseconds, by linear interpolation.
pub fn rtt_percentile_ns(samples_us: &Vec<u64>, pct: u64) -> (ns: Option<u128>)
    requires
        pct <= 100,
    ensures
        ns == rtt_percentile(samples_us@, pct as int),
{
    if samples_us.len() == 0 {
        return None;
    }
    let samples = samples_of(samples_us);
    let sorted = order::sorted(&samples);
    proof {
        lemma_rtt_range(samples_us@, pct as int);
        samples@.lemma_sort_by_ensures(order::at_most());
    }
    let p = order::percentile(&sorted, pct);
    Some(p.whole * 1000 + p.num * 10)
}

/// A percentile of round-trip times is no more than the longest there can be.
proof fn lemma_rtt_range(samples_us: Seq<u64>, pct: int)
    requires
        samples_us.len() > 0,
        0 <= pct <= 100,
    ensures
        0 <= order::percentile_of(as_samples(samples_us), pct) <= 100 * u64::MAX,
{
    broadcast use vstd::seq_lib::group_to_multiset_ensures;

    let samples = as_samples(samples_us);
    let sorted = order::ascending(samples);
    samples.lemma_sort_by_ensures(order::at_most());
    vstd::seq_lib::to_multiset_len(samples);
    vstd::seq_lib::to_multiset_len(sorted);
    order::lemma_percentile_range(sorted, pct);
    let last = sorted.len() - 1;
    assert(sorted.contains(sorted[last]));
    assert(samples.to_multiset().count(sorted[last]) > 0);
    assert(samples.contains(sorted[last]));
}

/// A row of the live latency table.
pub struct LatencyLine {
    pub label: &'static str,
    pub count: String,
    pub p50: Vec<Piece>,
    pub p95: Vec<Piece>,
    /// The bufferbloat cell; none when there is no grade.
    pub bufferbloat: Option<GradeCell>,
}

/// A bufferbloat grade as it is shown.
pub struct GradeCell {
    pub text: Vec<Piece>,
    pub tone: Tone,
}

/// The text of a grade.
pub open spec fn grade_text(g: BufferbloatGrade) -> Seq<PieceView> {
    seq![
        text::shown("+"@),
        text::shown_num(Ratio { whole: g.added_latency_ns, num: 0, den: 1 }, 1_000_000, 1, 5),
        text::shown(" ms  grade "@),
        PieceView::Char(g.grade),
    ]
}

/// Shows a grade in its colour; an F is bold.
pub fn grade_cell(g: BufferbloatGrade, p: Palette) -> (c: GradeCell)
    ensures
        text::line_view(c.text@) == grade_text(g),
        c.tone == (Tone {
            fg: theme::coloured(p, theme::grade_colour(p, g.grade)).fg,
            bold: g.grade == 'F',
        }),
{
    let mut l: Vec<Piece> = Vec::new();
    l.push(text::piece("+"));
    l.push(text::num(Ratio { whole: g.added_latency_ns, num: 0, den: 1 }, 1_000_000, 1, 5));
    l.push(text::piece(" ms  grade "));
    l.push(Piece::Char(g.grade));
    assert(text::line_view(l@) =~= grade_text(g));
    let style = theme::grade_style(p, g.grade);
    GradeCell { text: l, tone: Tone { fg: style.fg, bold: g.grade == 'F' } }
}

/// What a row of the live latency table shows of some round-trip times.
pub open spec fn shows_rtts(
    l: LatencyLine,
    label: Seq<char>,
    samples_us: Seq<u64>,
    g: Option<BufferbloatGrade>,
    p: Palette,
) -> bool {
    &&& l.label@ == label
    &&& l.count@ == text::count_text(samples_us.len())
    &&& text::line_view(l.p50@) == text::opt_measure(
        text::opt_ns(rtt_percentile(samples_us, 50)),
        1_000_000,
        1,
        " ms"@,
    )
    &&& text::line_view(l.p95@) == text::opt_measure(
        text::opt_ns(rtt_percentile(samples_us, 95)),
        1_000_000,
        1,
        " ms"@,
    )
    &&& match (l.bufferbloat, g) {
        (Some(c), Some(g)) => {
            &&& text::line_view(c.text@) == grade_text(g)
            &&& c.tone == Tone {
                fg: theme::coloured(p, theme::grade_colour(p, g.grade)).fg,
                bold: g.grade == 'F',
            }
        },
        (None, None) => true,
        _ => false,
    }
}

fn latency_line(
    label: &'static str,
    samples_us: &Vec<u64>,
    g: Option<BufferbloatGrade>,
    p: Palette,
) -> (l: LatencyLine)
    ensures
        shows_rtts(l, label@, samples_us@, g, p),
{
    LatencyLine {
        label,
        count: text::fmt_count(samples_us.len()),
        p50: text::fmt_opt_ms(rtt_percentile_ns(samples_us, 50)),
        p95: text::fmt_opt_ms(rtt_percentile_ns(samples_us, 95)),
        bufferbloat: match g {
            Some(g) => Some(grade_cell(g, p)),
            None => None,
        },
    }
}

/// The bufferbloat between two sets of round-trip times.
pub open spec fn live_bloat(idle_us: Seq<u64>, loaded_us: Seq<u64>) -> Option<BufferbloatGrade> {
    stats::bloat(rtt_percentile(idle_us, 50), rtt_percentile(loaded_us, 50))
}

/// The live latency table: idle, under download, under upload.
pub fn latency_lines(state: &State, p: Palette) -> (lines: Vec<LatencyLine>)
    ensures
        lines.len() == 3,
        shows_rtts(lines@[0], "idle"@, state@.idle_rtts_us, None, p),
        shows_rtts(
            lines@[1],
            "under download"@,
            state@.loaded_dl_rtts_us,
            live_bloat(state@.idle_rtts_us, state@.loaded_dl_rtts_us),
            p,
        ),
        shows_rtts(
            lines@[2],
            "under upload"@,
            state@.loaded_ul_rtts_us,
            live_bloat(state@.idle_rtts_us, state@.loaded_ul_rtts_us),
            p,
        ),
{
    let idle_p50 = rtt_percentile_ns(&state.idle_rtts_us, 50);
    let bb_dl = stats::bufferbloat(idle_p50, rtt_percentile_ns(&state.loaded_dl_rtts_us, 50));
    let bb_ul = stats::bufferbloat(idle_p50, rtt_percentile_ns(&state.loaded_ul_rtts_us, 50));
    let mut lines: Vec<LatencyLine> = Vec::new();
    lines.push(latency_line("idle", &state.idle_rtts_us, None, p));
    lines.push(latency_line("under download", &state.loaded_dl_rtts_us, bb_dl, p));
    lines.push(latency_line("under upload", &state.loaded_ul_rtts_us, bb_ul, p));
    lines
}

/// The footer: the last error, if there is one, and how to quit.
pub open spec fn footer_spans(last_error: Option<Seq<char>>, p: Palette) -> Seq<SpanView> {
    let hint = toned("q / Esc / Ctrl-C"@, theme::coloured(p, theme::Colour::DarkGray));
    match last_error {
        Some(e) => seq![
            toned(
                "error: "@,
                Tone { bold: true, ..theme::coloured(p, theme::Colour::Red) },
            ),
            raw(e),
            raw("    "@),
            hint,
            raw(" quit "@),
        ],
        None => seq![hint, raw(" quit"@)],
    }
}

/// The footer.
pub fn footer(state: &State, p: Palette) -> (spans: Vec<Span>)
    ensures
        spans_view(spans@) == footer_spans(state@.last_error, p),
{
    let mut spans: Vec<Span> = Vec::new();
    match &state.last_error {
        Some(e) => {
            let red = theme::error_style(p);
            spans.push(span("error: ", Tone { fg: red.fg, bold: true }));
            spans.push(raw_span(e.as_str()));
            spans.push(raw_span("    "));
            spans.push(span("q / Esc / Ctrl-C", theme::muted_style(p)));
            spans.push(raw_span(" quit "));
        },
        None => {
            spans.push(span("q / Esc / Ctrl-C", theme::muted_style(p)));
            spans.push(raw_span(" quit"));
        },
    }
    assert(spans_view(spans@) =~= footer_spans(state@.last_error, p));
    spans
}

/// Time that has passed makes up the rest from the start to now; before the start it is none,
/// and so it is before a session has started.
pub proof fn law_elapsed(s: StateView, now_ns: u128, start_ns: u128)
    ensures
        start_ns <= now_ns ==> start_ns + since(now_ns, start_ns) == now_ns,
        now_ns < start_ns ==> since(now_ns, start_ns) == 0,
        s.session_started_ns is None ==> session_time(s, now_ns) == 0,
        s.session_started_ns matches Some(t) ==> {
            &&& t <= now_ns ==> t + session_time(s, now_ns) == now_ns
            &&& now_ns < t ==> session_time(s, now_ns) == 0
        },
{
}

/// The chart holds the last 240 samples, in the order in which they came, and the rate now is
/// that of the last.
pub proof fn law_window(all: Seq<Sample>, s: Sample)
    ensures
        window(all).len() <= 240,
        all.len() <= 240 ==> window(all) == all,
        all.len() > 240 ==> window(all).len() == 240,
        forall|i: int|
            0 <= i < window(all).len() ==> #[trigger] window(all)[i] == all[all.len() - window(
                all,
            ).len() + i],
        last_rate(Seq::<Sample>::empty()) == 0,
        last_rate(window(all.push(s))) == s.rate,
{
}

/// Two states that differ in nothing but what they know of the session as such.
pub open spec fn same_but_session(a: StateView, b: StateView) -> bool {
    &&& a.active == b.active
    &&& a.finished == b.finished
    &&& a.idle_rtts_us == b.idle_rtts_us
    &&& a.loaded_dl_rtts_us == b.loaded_dl_rtts_us
    &&& a.loaded_ul_rtts_us == b.loaded_ul_rtts_us
    &&& a.last_error == b.last_error
}

/// Two states that know the same of the session as such.
pub open spec fn same_session(a: StateView, b: StateView) -> bool {
    &&& a.mode == b.mode
    &&& a.metadata == b.metadata
    &&& a.session_started_ns == b.session_started_ns
    &&& a.total_planned_ns == b.total_planned_ns
}

/// A session that starts is known by its mode, its connection, its plan and its time, and only
/// its start changes these. A phase that starts runs from then on without samples. A sample
/// changes nothing of the running phase but its samples. Whatever ends a phase or the session
/// leaves none running. Only an error changes the last error, and it changes nothing else.
pub proof fn law_events(s: StateView, ev: UiEvent, now_ns: u128)
    ensures
        ({
            let t = applied(s, ev, now_ns);
            &&& ev matches UiEvent::SessionStarted { mode, total_planned_ns, metadata, .. } ==> {
                &&& t.mode == Some(mode)
                &&& t.metadata == Some(metadata@)
                &&& t.session_started_ns == Some(now_ns)
                &&& t.total_planned_ns == total_planned_ns
                &&& same_but_session(s, t)
            }
            &&& !(ev is SessionStarted) ==> same_session(s, t)
            &&& ev matches UiEvent::PhaseStarted { kind, label, planned_ns } ==> {
                &&& t.active matches Some(a) && a.kind == kind && a.label == label && a.started_ns
                    == now_ns && a.planned_ns == planned_ns && a.samples.len() == 0
            }
            &&& ev matches UiEvent::Throughput(sample) ==> {
                &&& t.active is Some <==> s.active is Some
                &&& s.active is Some ==> t.active->0 == (ActiveView {
                    samples: t.active->0.samples,
                    ..s.active->0
                }) && t.active->0.samples.len() > 0 && t.active->0.samples.last() == sample
                &&& s.active is Some && s.active->0.samples.len() < 240
                    ==> t.active->0.samples.drop_last() =~= s.active->0.samples
                &&& s.active is Some && s.active->0.samples.len() == 240
                    ==> t.active->0.samples.drop_last() =~= s.active->0.samples.drop_first()
            }
            &&& ev is PhaseFinished || ev is SessionFinished ==> t.active is None
            &&& ev is LatencyProbe || ev is Error ==> t.active == s.active
            &&& ev matches UiEvent::Error(e) ==> t.last_error == Some(e@)
            &&& !(ev is Error) ==> t.last_error == s.last_error
            &&& ev matches UiEvent::PhaseFinished(rep) ==> t.finished == s.finished.push(rep)
            &&& !(ev is PhaseFinished) ==> t.finished == s.finished
            &&& ev matches UiEvent::LatencyProbe { kind, rtt_us } ==> {
                &&& t.idle_rtts_us == (if kind == ProbeKind::Idle {
                    s.idle_rtts_us.push(rtt_us)
                } else {
                    s.idle_rtts_us
                })
                &&& t.loaded_dl_rtts_us == (if kind == ProbeKind::LoadedDownload {
                    s.loaded_dl_rtts_us.push(rtt_us)
                } else {
                    s.loaded_dl_rtts_us
                })
                &&& t.loaded_ul_rtts_us == (if kind == ProbeKind::LoadedUpload {
                    s.loaded_ul_rtts_us.push(rtt_us)
                } else {
                    s.loaded_ul_rtts_us
                })
            }
            &&& !(ev is LatencyProbe) ==> t.idle_rtts_us == s.idle_rtts_us && t.loaded_dl_rtts_us
                == s.loaded_dl_rtts_us && t.loaded_ul_rtts_us == s.loaded_ul_rtts_us
        }),
{
}

/// Whether a span shows a text.
pub open spec fn says(s: SpanView, t: Seq<char>) -> bool {
    s.piece == PieceView::Text(t)
}

/// The header tells the mode, once it is known, and the time that has passed of the time that
/// is planned.
pub proof fn law_header(s: StateView, now_ns: u128, p: Palette)
    ensures
        ({
            let t = title_spans(s, now_ns, p);
            &&& t.len() == 5
            &&& says(t[0], "speedt"@) && t[0].tone.bold && t[0].tone.fg is None
            &&& says(t[1], "  ·  "@) && says(t[3], "  ·  "@)
            &&& s.mode is Some ==> says(t[2], s.mode->0@)
            &&& s.mode is None ==> says(t[2], "…"@)
            &&& t[2].tone == theme::coloured(p, theme::Colour::Cyan)
            &&& says(
                t[4],
                text::clock_text(session_time(s, now_ns)) + " / "@ + text::clock_text(
                    s.total_planned_ns,
                ),
            )
            &&& forall|i: int|
                i == 1 || i == 3 || i == 4 ==> (#[trigger] t[i]).tone.fg is None
                    && !t[i].tone.bold
        }),
{
}

/// The line of the connection shows each thing that is known of it and nothing else.
pub proof fn law_known_parts(md: MetadataView)
    ensures
        ({
            let parts = known_parts(md);
            let count = |known: bool|
                if known {
                    1int
                } else {
                    0int
                };
            let (c, a) = (count(md.colo is Some), count(md.asn is Some));
            let (h, t) = (count(md.http_protocol is Some), count(md.tls is Some));
            &&& parts.len() == c + a + h + t
            &&& md.colo is Some ==> parts[0] == "colo "@ + md.colo->0
            &&& md.asn is Some && (md.as_organization is None || md.as_organization->0.len() == 0)
                ==> parts[c] =~= "AS"@ + text::dec(md.asn->0 as nat)
            &&& md.asn is Some && md.as_organization is Some && md.as_organization->0.len() > 0
                ==> parts[c] =~= "AS"@ + text::dec(md.asn->0 as nat) + " "@ + md.as_organization->0
            &&& md.http_protocol is Some ==> parts[c + a] == md.http_protocol->0
            &&& md.tls is Some ==> parts[c + a + h] == md.tls->0
        }),
{
    assert("AS"@ + text::dec(md.asn->0 as nat) + Seq::<char>::empty() =~= "AS"@ + text::dec(
        md.asn->0 as nat,
    ));
}

/// Parts stand in a line in their order, with a muted dot between each two.
pub proof fn law_dotted(parts: Seq<Seq<char>>, p: Palette)
    requires
        parts.len() > 0,
    ensures
        dotted(parts, p).len() == 2 * parts.len() - 1,
        forall|i: int|
            0 <= i < parts.len() ==> dotted(parts, p)[2 * i] == raw(#[trigger] parts[i]) && says(
                dotted(parts, p)[2 * i],
                parts[i],
            ),
        forall|j: int|
            0 <= j < dotted(parts, p).len() && j % 2 == 1 ==> says(
                #[trigger] dotted(parts, p)[j],
                "  ·  "@,
            ) && dotted(parts, p)[j].tone == theme::coloured(p, theme::Colour::DarkGray),
    decreases parts.len(),
{
    let before = parts.drop_last();
    if before.len() > 0 {
        law_dotted(before, p);
        let (d, e) = (dotted(before, p), dotted(parts, p));
        assert forall|i: int| 0 <= i < parts.len() implies e[2 * i] == raw(#[trigger] parts[i]) by {
            if i < before.len() {
                assert(before[i] == parts[i]);
                assert(e[2 * i] == d[2 * i]);
            }
        }
        assert forall|j: int| 0 <= j < e.len() && j % 2 == 1 implies says(
            #[trigger] e[j],
            "  ·  "@,
        ) && e[j].tone == theme::coloured(p, theme::Colour::DarkGray) by {
            if j < d.len() {
                assert(e[j] == d[j]);
            }
        }
    } else {
        assert(dotted(before, p) =~= Seq::<SpanView>::empty());
    }
}

/// While nothing is known of the connection, a muted line says so.
pub proof fn law_metadata_line(md: Option<MetadataView>, p: Palette)
    ensures
        ({
            let t = metadata_spans(md, p);
            let muted = theme::coloured(p, theme::Colour::DarkGray);
            &&& md is None ==> t.len() == 1 && says(t[0], "(metadata pending…)"@) && t[0].tone
                == muted
            &&& md is Some && known_parts(md->0).len() == 0 ==> t.len() == 1 && says(
                t[0],
                "(metadata unavailable)"@,
            ) && t[0].tone == muted
            &&& md is Some && known_parts(md->0).len() > 0 ==> t.len() == 2 * known_parts(
                md->0,
            ).len() - 1 && forall|i: int|
                0 <= i < known_parts(md->0).len() ==> says(
                    t[2 * i],
                    #[trigger] known_parts(md->0)[i],
                )
        }),
{
    if let Some(m) = md {
        if known_parts(m).len() > 0 {
            law_dotted(known_parts(m), p);
        }
    }
}

/// The phase area has a card for each finished phase, in order, and one row below: the
/// running phase if there is one, room if a phase has finished, and else the last error or
/// that none has started.
pub proof fn law_phase_area(s: StateView)
    ensures
        ({
            let t = area_rows(s);
            let n = s.finished.len() as int;
            &&& t.len() == n + 1
            &&& forall|i: int| 0 <= i < n ==> #[trigger] t[i] == PhaseRowView::Finished(i)
            &&& s.active is Some <==> t[n] == PhaseRowView::Active
            &&& s.active is None && n > 0 ==> t[n] == PhaseRowView::Padding
            &&& s.active is None && n == 0 && s.last_error is Some ==> t[n]
                == PhaseRowView::Message("error: "@ + s.last_error->0)
            &&& s.active is None && n == 0 && s.last_error is None ==> t[n]
                == PhaseRowView::Message("waiting for first phase…"@)
        }),
{
}

/// A number of a card: `value / per`.
pub open spec fn figure(piece: PieceView, value: Ratio, per: u64, decimals: u8, width: u8) -> bool {
    piece matches PieceView::Num(n) && n.value == value && n.per == per && n.decimals == decimals
        && n.width == width
}

/// A finished phase shows its mean, its stable rate and its time to saturation, with a dash
/// for what there is none of.
pub proof fn law_card_rates(r: PhaseReport)
    ensures
        ({
            let t = card_rates(r);
            let k = if r.stable is Some {
                5int
            } else {
                4
            };
            &&& t[0] == PieceView::Text("mean "@)
            &&& figure(t[1], r.mean_mbps, 1, 2, 0)
            &&& t[2] == PieceView::Text(" Mbps · stable "@)
            &&& r.stable is Some ==> figure(t[3], r.stable->0, 1_000_000_000_000, 2, 0) && t[4]
                == PieceView::Text(" Mbps"@)
            &&& r.stable is None ==> t[3] == PieceView::Text("-"@)
            &&& t[k] == PieceView::Text(" · TTS "@)
            &&& r.time_to_saturation_ns is Some ==> t.len() == k + 3 && figure(
                t[k + 1],
                Ratio { whole: r.time_to_saturation_ns->0, num: 0, den: 1 },
                1_000_000_000,
                1,
                0,
            ) && t[k + 2] == PieceView::Text("s"@)
            &&& r.time_to_saturation_ns is None ==> t.len() == k + 2 && t[k + 1]
                == PieceView::Text("-"@)
        }),
{
}

/// A finished phase shows its median and 95th percentile, its bytes and how long it took.
pub proof fn law_card_totals(r: PhaseReport)
    ensures
        ({
            let t = card_totals(r);
            let s = r.timeline_summary;
            &&& t.len() == 10
            &&& t[0] == PieceView::Text("p50 "@)
            &&& figure(t[1], s.p50, 1_000_000_000_000, 2, 0)
            &&& t[2] == PieceView::Text(" · p95 "@)
            &&& figure(t[3], s.p95, 1_000_000_000_000, 2, 0)
            &&& t[4] == PieceView::Text(" · "@)
            &&& figure(
                t[5],
                Ratio { whole: r.total_bytes as u128, num: 0, den: 1 },
                text::byte_unit(r.total_bytes).0,
                1,
                0,
            )
            &&& t[6] == PieceView::Text(text::byte_unit(r.total_bytes).1)
            &&& t[7] == PieceView::Text(" · "@)
            &&& figure(t[8], Ratio { whole: r.duration_ns, num: 0, den: 1 }, 1_000_000_000, 1, 0)
            &&& t[9] == PieceView::Text("s"@)
        }),
{
}

/// The gauge is between nothing and full. It is full from the moment the planned time has
/// passed, which counts as a millisecond at least, and before that it has as much of it as
/// has passed.
pub proof fn law_gauge(a: ActiveView, now_ns: u128)
    ensures
        ({
            let g = progress(a, now_ns);
            let passed = if now_ns >= a.started_ns {
                now_ns - a.started_ns
            } else {
                0
            };
            &&& g.whole == 0
            &&& g.num <= g.den
            &&& g.den >= 1_000_000
            &&& a.planned_ns >= 1_000_000 ==> g.den == a.planned_ns
            &&& a.planned_ns < 1_000_000 ==> g.den == 1_000_000
            &&& passed <= g.den ==> g.num == passed
            &&& passed >= g.den ==> g.num == g.den
            &&& gauge_text(a, now_ns) =~= seq![
                PieceView::Text(
                    text::clock_text(passed as u128) + " / "@ + text::clock_text(g.den) + "  ("@,
                ),
                PieceView::Percent(g),
                PieceView::Text("%)"@),
            ]
        }),
{
}

/// The gauge never falls back while time goes on.
pub proof fn law_gauge_rises(a: ActiveView, sooner_ns: u128, later_ns: u128)
    requires
        sooner_ns <= later_ns,
    ensures
        progress(a, sooner_ns).num <= progress(a, later_ns).num,
        progress(a, sooner_ns).den == progress(a, later_ns).den,
{
}

/// The chart shows a rate in whole hundredths of a Mbit/s, rounded down, and no more than a
/// `u64` holds.
pub proof fn law_chart_value(rate: u128)
    ensures
        chart_value(rate) * 10_000_000_000 <= rate,
        chart_value(rate) < 0xffff_ffff_ffff_ffff ==> rate < (chart_value(rate) + 1)
            * 10_000_000_000,
{
}

/// The chart has a value for each kept sample, in order.
pub proof fn law_rates(samples: Seq<Sample>)
    ensures
        rates_of(samples).len() == samples.len(),
        forall|i: int|
            0 <= i < samples.len() ==> rates_of(samples)[i] == (#[trigger] samples[i]).rate,
{
}

/// The line under the chart shows the rate of the last sample, the median and the 95th
/// percentile of the kept ones, and their stable rate, each under its name.
pub proof fn law_stats_line(samples: Seq<Sample>)
    ensures
        ({
            let t = stats_spans(samples);
            let rates = Seq::new(samples.len(), |i: int| samples[i].rate);
            let now = if samples.len() == 0 {
                0
            } else {
                samples[samples.len() - 1].rate
            };
            let stable = phase::stable_of(rates);
            &&& says(t[0], "now "@)
            &&& figure(
                t[1].piece,
                Ratio { whole: now, num: 0, den: 1 },
                1_000_000_000_000,
                2,
                7,
            )
            &&& says(t[2], " Mbps"@)
            &&& t[1].tone.bold && t[2].tone.bold
            &&& says(t[3], "   p50 "@)
            &&& figure(t[4].piece, stats::percentile_ratio(rates, 50), 1_000_000_000_000, 2, 6)
            &&& says(t[5], "   p95 "@)
            &&& figure(t[6].piece, stats::percentile_ratio(rates, 95), 1_000_000_000_000, 2, 6)
            &&& says(t[7], "   stable "@)
            &&& stable is Some ==> t.len() == 10 && figure(
                t[8].piece,
                stable->0,
                1_000_000_000_000,
                2,
                0,
            ) && says(t[9], " Mbps"@)
            &&& stable is None ==> t.len() == 9 && says(t[8], "-"@)
        }),
{
    assert(rates_of(samples) =~= Seq::new(samples.len(), |i: int| samples[i].rate));
}

/// A download is cyan and an upload is magenta, where there are colours.
pub proof fn law_kind_tones(p: Palette)
    requires
        !p.no_color,
    ensures
        kind_tone(PhaseKind::Download, p).fg == Some(theme::Colour::Cyan),
        kind_tone(PhaseKind::Upload, p).fg == Some(theme::Colour::Magenta),
        !kind_tone(PhaseKind::Download, p).bold,
        !kind_tone(PhaseKind::Upload, p).bold,
{
}

/// A percentile of round-trip times lies among them in order, at its share of the way from the
/// first to the last, and between the two that are nearest to that place where none is there.
/// It is shown in nanoseconds.
pub proof fn law_rtt_percentile(samples_us: Seq<u64>, sorted: Seq<u128>, pct: int)
    requires
        0 <= pct <= 100,
        sorted.to_multiset() == Seq::new(
            samples_us.len(),
            |i: int| samples_us[i] as u128,
        ).to_multiset(),
        forall|i: int, j: int| 0 <= i <= j < sorted.len() ==> sorted[i] <= sorted[j],
    ensures
        samples_us.len() == 0 <==> rtt_percentile(samples_us, pct) is None,
        samples_us.len() > 0 ==> ({
            let k = pct * (samples_us.len() - 1);
            let above = if k / 100 + 1 < samples_us.len() {
                k / 100 + 1
            } else {
                samples_us.len() - 1
            };
            rtt_percentile(samples_us, pct)->0 == 10 * ((100 - k % 100) * sorted[k / 100] + (k
                % 100) * sorted[above])
        }),
{
    let xs = Seq::new(samples_us.len(), |i: int| samples_us[i] as u128);
    assert(as_samples(samples_us) =~= xs);
    if samples_us.len() > 0 {
        vstd::seq_lib::to_multiset_len(xs);
        vstd::seq_lib::to_multiset_len(sorted);
        order::law_ascending(xs);
        let asc = order::ascending(xs);
        assert(asc =~= sorted) by {
            xs.lemma_sort_by_ensures(order::at_most());
            vstd::seq_lib::lemma_sorted_unique(asc, sorted, order::at_most());
        }
        lemma_rtt_range(samples_us, pct);
        order::law_percentile_is_weighted(sorted, pct);
    }
}

/// What a row of the live latency table shows: how many round trips, two percentiles in
/// milliseconds, and the grade if there is one.
pub proof fn law_live_row(
    l: LatencyLine,
    label: Seq<char>,
    samples_us: Seq<u64>,
    g: Option<BufferbloatGrade>,
    p: Palette,
)
    requires
        shows_rtts(l, label, samples_us, g, p),
    ensures
        ({
            let cell = |t: Seq<PieceView>, ns: Option<u128>|
                {
                    &&& ns is None ==> t == seq![PieceView::Text("-"@)]
                    &&& ns is Some ==> t.len() == 2 && figure(
                        t[0],
                        Ratio { whole: ns->0, num: 0, den: 1 },
                        1_000_000,
                        1,
                        0,
                    ) && t[1] == PieceView::Text(" ms"@)
                };
            &&& l.label@ == label
            &&& samples_us.len() > 0 ==> l.count@.fold_left(0int, text::read_digit())
                == samples_us.len()
            &&& samples_us.len() == 0 ==> l.count@ == "-"@
            &&& cell(text::line_view(l.p50@), rtt_percentile(samples_us, 50))
            &&& cell(text::line_view(l.p95@), rtt_percentile(samples_us, 95))
            &&& l.bufferbloat is Some <==> g is Some
            &&& g is Some ==> {
                let t = text::line_view(l.bufferbloat->0.text@);
                &&& t.len() == 4
                &&& t[0] == PieceView::Text("+"@)
                &&& figure(
                    t[1],
                    Ratio { whole: g->0.added_latency_ns, num: 0, den: 1 },
                    1_000_000,
                    1,
                    5,
                )
                &&& t[2] == PieceView::Text(" ms  grade "@)
                &&& t[3] == PieceView::Char(g->0.grade)
                &&& l.bufferbloat->0.tone.bold <==> g->0.grade == 'F'
                &&& l.bufferbloat->0.tone.fg == theme::coloured(
                    p,
                    theme::grade_colour(p, g->0.grade),
                ).fg
            }
        }),
{
    text::law_decimal(samples_us.len());
}

/// The live grade is that of what load adds to the idle median, as far as both are known.
pub proof fn law_live_grade(idle_us: Seq<u64>, loaded_us: Seq<u64>)
    ensures
        ({
            let g = live_bloat(idle_us, loaded_us);
            let (idle, loaded) = (rtt_percentile(idle_us, 50), rtt_percentile(loaded_us, 50));
            &&& g is Some ==> idle_us.len() > 0 && loaded_us.len() > 0
            &&& g is Some <==> idle is Some && loaded is Some && idle->0 > 0
            &&& g is Some && idle->0 <= loaded->0 ==> g->0.added_latency_ns + idle->0 == loaded->0
            &&& g is Some && loaded->0 < idle->0 ==> g->0.added_latency_ns == 0
        }),
{
    stats::law_bufferbloat(rtt_percentile(idle_us, 50), rtt_percentile(loaded_us, 50));
}

/// The footer always ends with how to quit, and starts with the last error if there is one.
pub proof fn law_footer(last_error: Option<Seq<char>>, p: Palette)
    ensures
        ({
            let t = footer_spans(last_error, p);
            let muted = theme::coloured(p, theme::Colour::DarkGray);
            let red = theme::coloured(p, theme::Colour::Red);
            &&& last_error is None ==> t.len() == 2 && says(t[0], "q / Esc / Ctrl-C"@) && t[0].tone
                == muted && says(t[1], " quit"@)
            &&& last_error is Some ==> t.len() == 5 && says(t[0], "error: "@) && t[0].tone.bold
                && t[0].tone.fg == red.fg && says(t[1], last_error->0) && says(t[2], "    "@)
                && says(t[3], "q / Esc / Ctrl-C"@) && t[3].tone == muted && says(t[4], " quit "@)
        }),
{
}

/// Before anything has come, the live UI knows nothing, and waits for the first phase.
pub proof fn law_starts_empty(now_ns: u128)
    ensures
        ({
            let s = fresh();
            &&& s.mode is None && s.metadata is None && s.session_started_ns is None
            &&& s.active is None && s.last_error is None
            &&& s.total_planned_ns == 0 && session_time(s, now_ns) == 0
            &&& s.finished.len() == 0 && s.idle_rtts_us.len() == 0
            &&& s.loaded_dl_rtts_us.len() == 0 && s.loaded_ul_rtts_us.len() == 0
            &&& area_rows(s) == seq![PhaseRowView::Message("waiting for first phase…"@)]
        }),
{
    assert(area_rows(fresh()) =~= seq![PhaseRowView::Message("waiting for first phase…"@)]);
}

/// What is told of a state and of a line is what it holds.
pub proof fn law_views(s: State, spans: Seq<Span>, i: int)
    requires
        0 <= i < spans.len(),
    ensures
        s@.mode == s.mode,
        s@.session_started_ns == s.session_started_ns,
        s@.total_planned_ns == s.total_planned_ns,
        s@.finished == s.finished@,
        s@.idle_rtts_us == s.idle_rtts_us@,
        s@.loaded_dl_rtts_us == s.loaded_dl_rtts_us@,
        s@.loaded_ul_rtts_us == s.loaded_ul_rtts_us@,
        s.metadata is Some <==> s@.metadata is Some,
        s.metadata is Some ==> s@.metadata->0 == (*s.metadata->0)@,
        s.last_error is Some <==> s@.last_error is Some,
        s.last_error is Some ==> s@.last_error->0 == s.last_error->0@,
        s.active is Some <==> s@.active is Some,
        s.active is Some ==> ({
            let (a, v) = (s.active->0, s@.active->0);
            &&& v.kind == a.kind && v.label == a.label && v.started_ns == a.started_ns
            &&& v.planned_ns == a.planned_ns && v.samples == a.samples@
        }),
        spans_view(spans).len() == spans.len(),
        spans_view(spans)[i].piece == spans[i].piece@ && spans_view(spans)[i].tone == spans[i].tone,
{
}

}
