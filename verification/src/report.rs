//! What a session reports, and the tables and lines that show it.

use vstd::prelude::*;

use crate::metadata::{Metadata, MetadataView};
use crate::sampler::{Sample, MEGABIT};
use crate::stats::{BufferbloatGrade, LatencySummary, Ratio, Summary};
use crate::text;
use crate::text::{Double, Piece, PieceView};

verus! {

/// One throughput phase.
#[derive(Clone, Debug)]
pub struct PhaseReport {
    pub label: &'static str,
    pub duration_ns: u128,
    pub total_bytes: u64,
    pub requests: u64,
    pub errors: u64,
    /// Mean over the whole phase, in Mbit/s.
    pub mean_mbps: Ratio,
    /// Rates after the warm-up, in millionths of a bit per second.
    pub timeline_summary: Summary,
    pub timeline: Vec<Sample>,
    /// Mean rate over the last half of what follows the warm-up, in millionths of a bit
    /// per second.
    pub stable: Option<Ratio>,
    pub time_to_p90_ns: Option<u128>,
    pub time_to_saturation_ns: Option<u128>,
}

/// Latency, idle and under load.
#[derive(Clone, Debug)]
pub struct LatencyReport {
    pub idle: Option<LatencySummary>,
    pub loaded_download: Option<LatencySummary>,
    pub loaded_upload: Option<LatencySummary>,
    pub bufferbloat_download: Option<BufferbloatGrade>,
    pub bufferbloat_upload: Option<BufferbloatGrade>,
}

/// A point in time, as seconds and nanoseconds since the Unix epoch.
#[derive(Clone, Copy, Debug, PartialEq, Eq, Structural)]
pub struct Timestamp {
    pub secs: i64,
    pub nanos: u32,
}

/// A whole session.
#[derive(Clone, Debug)]
pub struct SessionReport {
    pub mode: &'static str,
    pub started_at: Timestamp,
    pub ended_at: Timestamp,
    pub metadata: Metadata,
    pub latency: LatencyReport,
    pub download: Option<PhaseReport>,
    pub upload: Option<PhaseReport>,
}

/// A part of the human report.
#[derive(Clone, Copy, Debug, PartialEq, Eq, Structural)]
pub enum Section {
    Metadata,
    Latency,
    Download,
    Upload,
    Card,
}

/// The parts that a human report shows, in order. Tables and card are left out when there
/// is nothing to put into them.
pub open spec fn sections_of(rep: SessionReport) -> Seq<Section> {
    let l = rep.latency;
    let latency = l.idle is Some || l.loaded_download is Some || l.loaded_upload is Some;
    let card = rep.download is Some || rep.upload is Some || l.idle is Some;
    seq![Section::Metadata] + only_if(latency, Section::Latency) + only_if(
        rep.download is Some,
        Section::Download,
    ) + only_if(rep.upload is Some, Section::Upload) + only_if(card, Section::Card)
}

/// `section` when `shown`.
pub open spec fn only_if(shown: bool, section: Section) -> Seq<Section> {
    if shown {
        seq![section]
    } else {
        Seq::empty()
    }
}

/// Decides what a human report shows.
pub fn sections(rep: &SessionReport) -> (s: Vec<Section>)
    ensures
        s@ == sections_of(*rep),
{
    let mut s: Vec<Section> = Vec::new();
    s.push(Section::Metadata);
    let latency = &rep.latency;
    if latency.idle.is_some() || latency.loaded_download.is_some()
        || latency.loaded_upload.is_some() {
        s.push(Section::Latency);
    }
    if rep.download.is_some() {
        s.push(Section::Download);
    }
    if rep.upload.is_some() {
        s.push(Section::Upload);
    }
    if rep.download.is_some() || rep.upload.is_some() || latency.idle.is_some() {
        s.push(Section::Card);
    }
    assert(s@ =~= sections_of(*rep));
    s
}

/// A row of a table: its label and its cells.
#[derive(Clone, Debug)]
pub struct Row {
    pub label: &'static str,
    pub cells: Vec<Vec<Piece>>,
}

/// The contents of a [`Row`].
#[verifier::ext_equal]
pub struct RowView {
    pub label: Seq<char>,
    pub cells: Seq<Seq<PieceView>>,
}

impl View for Row {
    type V = RowView;

    open spec fn view(&self) -> RowView {
        RowView { label: self.label@, cells: text::lines_view(self.cells@) }
    }
}

/// The contents of a table.
pub open spec fn rows_view(rows: Seq<Row>) -> Seq<RowView> {
    rows.map_values(|r: Row| r@)
}

/// A row with one cell.
pub open spec fn row_of(label: Seq<char>, cell: Seq<PieceView>) -> RowView {
    RowView { label, cells: seq![cell] }
}

fn row(label: &'static str, cell: Vec<Piece>) -> (r: Row)
    ensures
        r@ == row_of(label@, text::line_view(cell@)),
{
    let mut cells: Vec<Vec<Piece>> = Vec::new();
    cells.push(cell);
    assert(text::lines_view(cells@) =~= seq![text::line_view(cell@)]);
    Row { label, cells }
}

/// A cell of text.
pub open spec fn cell(s: Seq<char>) -> Seq<PieceView> {
    seq![text::shown(s)]
}

/// The organisation and the number of an autonomous system.
pub open spec fn isp_text(md: MetadataView) -> Seq<char> {
    text::or_dash(md.as_organization) + " ("@ + (match md.asn {
        Some(a) => "AS"@ + text::dec(a as nat),
        None => "-"@,
    }) + ")"@
}

/// City, region and country.
pub open spec fn geo_text(md: MetadataView) -> Seq<char> {
    text::or_dash(md.city) + ", "@ + text::or_dash(md.region) + ", "@ + text::or_dash(md.country)
}

/// The table of connection metadata. What is not known is a dash.
pub open spec fn metadata_table(md: MetadataView) -> Seq<RowView> {
    seq![
        row_of("Client IP"@, cell(text::or_dash(md.client_ip))),
        row_of("ISP / ASN"@, cell(isp_text(md))),
        row_of("Geo"@, cell(geo_text(md))),
        row_of("Cloudflare colo"@, cell(text::or_dash(md.colo))),
        row_of("HTTP"@, cell(text::or_dash(md.http_protocol))),
        row_of("TLS"@, cell(text::or_dash(md.tls))),
    ]
}

/// The rows of the metadata table.
pub fn metadata_rows(md: &Metadata) -> (rows: Vec<Row>)
    ensures
        rows_view(rows@) == metadata_table(md@),
{
    let asn = match md.asn {
        Some(a) => "AS".to_owned().concat(text::decimal(a as u128).as_str()),
        None => "-".to_owned(),
    };
    let isp = text::dashed(&md.as_organization).to_owned().concat(" (").concat(
        asn.as_str(),
    ).concat(")");
    let geo = text::dashed(&md.city).to_owned().concat(", ").concat(
        text::dashed(&md.region),
    ).concat(", ").concat(text::dashed(&md.country));
    let mut rows: Vec<Row> = Vec::new();
    rows.push(row("Client IP", text::line(text::dashed(&md.client_ip))));
    rows.push(row("ISP / ASN", text::line(isp.as_str())));
    rows.push(row("Geo", text::line(geo.as_str())));
    rows.push(row("Cloudflare colo", text::line(text::dashed(&md.colo))));
    rows.push(row("HTTP", text::line(text::dashed(&md.http_protocol))));
    rows.push(row("TLS", text::line(text::dashed(&md.tls))));
    assert(rows_view(rows@) =~= metadata_table(md@));
    rows
}

/// Microseconds, shown as milliseconds.
pub open spec fn ms_text(us: u64) -> Seq<PieceView> {
    seq![text::shown_num(text::whole(us as int), 1000, 2, 0), text::shown(" ms"@)]
}

/// Shows microseconds as milliseconds.
pub fn fmt_ms(us: u64) -> (l: Vec<Piece>)
    ensures
        text::line_view(l@) == ms_text(us),
{
    text::measure(Ratio { whole: us as u128, num: 0, den: 1 }, 1000, 2, " ms")
}

/// The columns of the latency table after its label.
pub open spec fn latency_cells(s: Option<LatencySummary>) -> Seq<Seq<PieceView>> {
    match s {
        Some(s) => seq![
            cell(text::dec(s.count as nat)),
            ms_text(s.min_us),
            ms_text(s.p50_us),
            ms_text(s.p95_us),
            ms_text(s.p99_us),
            ms_text(s.max_us),
            seq![
                PieceView::Double(
                    Double { bits: s.jitter_us_bits, per: 1000, decimals: 2, width: 0 },
                ),
                text::shown(" ms"@),
            ],
        ],
        None => seq![
            cell("-"@),
            cell("-"@),
            cell("-"@),
            cell("-"@),
            cell("-"@),
            cell("-"@),
            cell("-"@),
        ],
    }
}

fn latency_row(label: &'static str, s: &Option<LatencySummary>) -> (r: Row)
    ensures
        r@ == (RowView { label: label@, cells: latency_cells(*s) }),
{
    let mut cells: Vec<Vec<Piece>> = Vec::new();
    match s {
        Some(s) => {
            cells.push(text::line(text::decimal(s.count as u128).as_str()));
            cells.push(fmt_ms(s.min_us));
            cells.push(fmt_ms(s.p50_us));
            cells.push(fmt_ms(s.p95_us));
            cells.push(fmt_ms(s.p99_us));
            cells.push(fmt_ms(s.max_us));
            let mut jitter: Vec<Piece> = Vec::new();
            jitter.push(
                Piece::Double(
                    Double { bits: s.jitter_us_bits, per: 1000, decimals: 2, width: 0 },
                ),
            );
            jitter.push(text::piece(" ms"));
            assert(text::line_view(jitter@) =~= latency_cells(Some(*s))[6]);
            cells.push(jitter);
        },
        None => {
            for i in 0..7usize
                invariant
                    cells.len() == i,
                    forall|k: int|
                        0 <= k < i ==> text::line_view(#[trigger] cells@[k]@) == cell("-"@),
            {
                cells.push(text::line("-"));
            }
        },
    }
    assert(text::lines_view(cells@) =~= latency_cells(*s));
    Row { label, cells }
}

/// The latency table.
pub open spec fn latency_table(r: LatencyReport) -> Seq<RowView> {
    seq![
        RowView { label: "idle"@, cells: latency_cells(r.idle) },
        RowView { label: "under download"@, cells: latency_cells(r.loaded_download) },
        RowView { label: "under upload"@, cells: latency_cells(r.loaded_upload) },
    ]
}

/// The rows of the latency table.
pub fn latency_rows(r: &LatencyReport) -> (rows: Vec<Row>)
    ensures
        rows_view(rows@) == latency_table(*r),
{
    let mut rows: Vec<Row> = Vec::new();
    rows.push(latency_row("idle", &r.idle));
    rows.push(latency_row("under download", &r.loaded_download));
    rows.push(latency_row("under upload", &r.loaded_upload));
    assert(rows_view(rows@) =~= latency_table(*r));
    rows
}

/// The line of a bufferbloat grade behind a heading.
pub open spec fn grade_line(heading: Seq<char>, g: BufferbloatGrade) -> Seq<PieceView> {
    seq![
        text::shown(heading),
        text::shown_num(Ratio { whole: g.added_latency_ns, num: 0, den: 1 }, 1_000_000, 1, 0),
        text::shown(" ms  →  grade "@),
        PieceView::Char(g.grade),
    ]
}

fn grade_line_of(heading: &str, g: &BufferbloatGrade) -> (l: Vec<Piece>)
    ensures
        text::line_view(l@) == grade_line(heading@, *g),
{
    let mut l: Vec<Piece> = Vec::new();
    l.push(text::piece(heading));
    l.push(text::num(Ratio { whole: g.added_latency_ns, num: 0, den: 1 }, 1_000_000, 1, 0));
    l.push(text::piece(" ms  →  grade "));
    l.push(Piece::Char(g.grade));
    assert(text::line_view(l@) =~= grade_line(heading@, *g));
    l
}

/// The lines under the latency table: one for each bufferbloat grade.
pub open spec fn bufferbloat_text(r: LatencyReport) -> Seq<Seq<PieceView>> {
    (match r.bufferbloat_download {
        Some(g) => seq![grade_line("  Bufferbloat (download): +"@, g)],
        None => Seq::empty(),
    }) + (match r.bufferbloat_upload {
        Some(g) => seq![grade_line("  Bufferbloat (upload):   +"@, g)],
        None => Seq::empty(),
    })
}

/// The bufferbloat lines.
pub fn bufferbloat_lines(r: &LatencyReport) -> (lines: Vec<Vec<Piece>>)
    ensures
        text::lines_view(lines@) == bufferbloat_text(*r),
{
    let mut lines: Vec<Vec<Piece>> = Vec::new();
    if let Some(g) = &r.bufferbloat_download {
        lines.push(grade_line_of("  Bufferbloat (download): +", g));
    }
    if let Some(g) = &r.bufferbloat_upload {
        lines.push(grade_line_of("  Bufferbloat (upload):   +", g));
    }
    assert(text::lines_view(lines@) =~= bufferbloat_text(*r));
    lines
}

/// A rate, shown as Mbit/s.
pub open spec fn mbps_text(rate: Ratio) -> Seq<PieceView> {
    seq![text::shown_num(rate, MEGABIT, 2, 0), text::shown(" Mbps"@)]
}

/// Shows a rate as Mbit/s.
pub fn fmt_mbps(rate: Ratio) -> (l: Vec<Piece>)
    ensures
        text::line_view(l@) == mbps_text(rate),
{
    text::measure(rate, MEGABIT, 2, " Mbps")
}

fn whole_mbps(rate: u128) -> (l: Vec<Piece>)
    ensures
        text::line_view(l@) == mbps_text(text::whole(rate as int)),
{
    fmt_mbps(Ratio { whole: rate, num: 0, den: 1 })
}

/// Nanoseconds, shown as seconds.
pub open spec fn secs_text(ns: u128) -> Seq<PieceView> {
    seq![
        text::shown_num(Ratio { whole: ns, num: 0, den: 1 }, 1_000_000_000, 2, 0),
        text::shown(" s"@),
    ]
}

fn fmt_secs(ns: u128) -> (l: Vec<Piece>)
    ensures
        text::line_view(l@) == secs_text(ns),
{
    text::measure(Ratio { whole: ns, num: 0, den: 1 }, 1_000_000_000, 2, " s")
}

/// The rows that a phase table has in any case, before the optional ones.
pub open spec fn rate_rows(p: PhaseReport) -> Seq<RowView> {
    let s = p.timeline_summary;
    seq![
        row_of("mean"@, seq![text::shown_num(p.mean_mbps, 1, 2, 0), text::shown(" Mbps"@)]),
        row_of("p50"@, mbps_text(s.p50)),
        row_of("p75"@, mbps_text(s.p75)),
        row_of("p90"@, mbps_text(s.p90)),
        row_of("p95"@, mbps_text(s.p95)),
        row_of("p99"@, mbps_text(s.p99)),
        row_of("max"@, mbps_text(text::whole(s.max as int))),
        row_of("min"@, mbps_text(text::whole(s.min as int))),
        row_of("stdev"@, mbps_text(text::whole(s.stdev as int))),
    ]
}

/// A row for a time that may not have come.
pub open spec fn time_row(label: Seq<char>, t: Option<u128>) -> Seq<RowView> {
    match t {
        Some(ns) => seq![row_of(label, secs_text(ns))],
        None => Seq::empty(),
    }
}

/// The rows that a phase table has in any case, after the optional ones.
pub open spec fn total_rows(p: PhaseReport) -> Seq<RowView> {
    seq![
        row_of("bytes"@, text::bytes_text(p.total_bytes, 2)),
        row_of("duration"@, secs_text(p.duration_ns)),
        row_of("requests issued"@, cell(text::dec(p.requests as nat))),
        row_of("errors"@, cell(text::dec(p.errors as nat))),
    ]
}

/// The table of a throughput phase.
pub open spec fn phase_table(p: PhaseReport) -> Seq<RowView> {
    rate_rows(p) + (match p.stable {
        Some(s) => seq![row_of("stable (last 50%)"@, mbps_text(s))],
        None => Seq::empty(),
    }) + time_row("time to saturation"@, p.time_to_saturation_ns) + time_row(
        "time to 90% peak"@,
        p.time_to_p90_ns,
    ) + total_rows(p)
}

/// The rows of a phase table.
pub fn phase_rows(p: &PhaseReport) -> (rows: Vec<Row>)
    ensures
        rows_view(rows@) == phase_table(*p),
{
    let s = &p.timeline_summary;
    let mut rows: Vec<Row> = Vec::new();
    rows.push(row("mean", text::measure(p.mean_mbps, 1, 2, " Mbps")));
    rows.push(row("p50", fmt_mbps(s.p50)));
    rows.push(row("p75", fmt_mbps(s.p75)));
    rows.push(row("p90", fmt_mbps(s.p90)));
    rows.push(row("p95", fmt_mbps(s.p95)));
    rows.push(row("p99", fmt_mbps(s.p99)));
    rows.push(row("max", whole_mbps(s.max)));
    rows.push(row("min", whole_mbps(s.min)));
    rows.push(row("stdev", whole_mbps(s.stdev)));
    assert(rows_view(rows@) =~= rate_rows(*p));
    if let Some(s) = p.stable {
        rows.push(row("stable (last 50%)", fmt_mbps(s)));
    }
    if let Some(t) = p.time_to_saturation_ns {
        rows.push(row("time to saturation", fmt_secs(t)));
    }
    if let Some(t) = p.time_to_p90_ns {
        rows.push(row("time to 90% peak", fmt_secs(t)));
    }
    rows.push(row("bytes", text::fmt_bytes(p.total_bytes, 2)));
    rows.push(row("duration", fmt_secs(p.duration_ns)));
    rows.push(row("requests issued", text::line(text::decimal(p.requests as u128).as_str())));
    rows.push(row("errors", text::line(text::decimal(p.errors as u128).as_str())));
    assert(rows_view(rows@) =~= phase_table(*p));
    rows
}

/// The headline numbers. The plain renderer and the live UI's results screen share them, so
/// that both show the same.
#[derive(Clone, Debug)]
pub struct SummaryCard {
    pub dl_mean_mbps: Ratio,
    pub ul_mean_mbps: Ratio,
    pub idle_p50_us: u64,
    pub bufferbloat: Vec<Piece>,
}

/// The mean of a phase, or 0 where it did not run.
pub open spec fn mean_or_zero(p: Option<PhaseReport>) -> Ratio {
    match p {
        Some(p) => p.mean_mbps,
        None => Ratio { whole: 0, num: 0, den: 1 },
    }
}

/// The bufferbloat of a card, or a dash.
pub open spec fn card_bufferbloat(g: Option<BufferbloatGrade>) -> Seq<PieceView> {
    match g {
        Some(g) => seq![
            text::shown("+"@),
            text::shown_num(Ratio { whole: g.added_latency_ns, num: 0, den: 1 }, 1_000_000, 0, 0),
            text::shown(" ms ("@),
            PieceView::Char(g.grade),
            text::shown(")"@),
        ],
        None => seq![text::shown("-"@)],
    }
}

/// Picks the headline numbers of a report. What was not measured is 0 or a dash.
pub fn summary_card(rep: &SessionReport) -> (c: SummaryCard)
    ensures
        c.dl_mean_mbps == mean_or_zero(rep.download),
        c.ul_mean_mbps == mean_or_zero(rep.upload),
        c.idle_p50_us == match rep.latency.idle {
            Some(s) => s.p50_us,
            None => 0,
        },
        text::line_view(c.bufferbloat@) == card_bufferbloat(rep.latency.bufferbloat_download),
{
    let mut bufferbloat: Vec<Piece> = Vec::new();
    match &rep.latency.bufferbloat_download {
        Some(g) => {
            bufferbloat.push(text::piece("+"));
            bufferbloat.push(
                text::num(Ratio { whole: g.added_latency_ns, num: 0, den: 1 }, 1_000_000, 0, 0),
            );
            bufferbloat.push(text::piece(" ms ("));
            bufferbloat.push(Piece::Char(g.grade));
            bufferbloat.push(text::piece(")"));
        },
        None => {
            bufferbloat.push(text::piece("-"));
        },
    }
    assert(text::line_view(bufferbloat@) =~= card_bufferbloat(rep.latency.bufferbloat_download));
    SummaryCard {
        dl_mean_mbps: match &rep.download {
            Some(p) => p.mean_mbps,
            None => Ratio::zero(),
        },
        ul_mean_mbps: match &rep.upload {
            Some(p) => p.mean_mbps,
            None => Ratio::zero(),
        },
        idle_p50_us: match &rep.latency.idle {
            Some(s) => s.p50_us,
            None => 0,
        },
        bufferbloat,
    }
}

/// The line of a card.
pub open spec fn card_text(c: SummaryCard) -> Seq<PieceView> {
    seq![
        text::shown("  ⇣ "@),
        text::shown_num(c.dl_mean_mbps, 1, 2, 8),
        text::shown(" Mbps   ⇡ "@),
        text::shown_num(c.ul_mean_mbps, 1, 2, 8),
        text::shown(" Mbps   ping "@),
        text::shown_num(text::whole(c.idle_p50_us as int), 1000, 1, 5),
        text::shown(" ms   bufferbloat "@),
    ] + text::line_view(c.bufferbloat@)
}

/// Lays out a card as a single line.
pub fn format_summary_card(card: SummaryCard) -> (l: Vec<Piece>)
    ensures
        text::line_view(l@) == card_text(card),
{
    let mut l: Vec<Piece> = Vec::new();
    l.push(text::piece("  ⇣ "));
    l.push(text::num(card.dl_mean_mbps, 1, 2, 8));
    l.push(text::piece(" Mbps   ⇡ "));
    l.push(text::num(card.ul_mean_mbps, 1, 2, 8));
    l.push(text::piece(" Mbps   ping "));
    l.push(text::num(Ratio { whole: card.idle_p50_us as u128, num: 0, den: 1 }, 1000, 1, 5));
    l.push(text::piece(" ms   bufferbloat "));
    let r = text::join(l, card.bufferbloat);
    assert(text::line_view(r@) =~= card_text(card));
    r
}

impl Section {
    /// The place of a section on the page.
    pub open spec fn place(self) -> int {
        match self {
            Section::Metadata => 0,
            Section::Latency => 1,
            Section::Download => 2,
            Section::Upload => 3,
            Section::Card => 4,
        }
    }
}

/// A report shows the connection in any case, the latency when some was measured, each phase
/// that was measured whatever else was, and the card when there is a phase or an idle
/// latency to put on it. Each is shown once, in the order of the page.
pub proof fn law_sections(rep: SessionReport)
    ensures
        ({
            let s = sections_of(rep);
            let l = rep.latency;
            &&& s.contains(Section::Metadata)
            &&& s.contains(Section::Latency) <==> !(l.idle is None && l.loaded_download is None
                && l.loaded_upload is None)
            &&& s.contains(Section::Download) <==> rep.download is Some
            &&& s.contains(Section::Upload) <==> rep.upload is Some
            &&& s.contains(Section::Card) <==> !(rep.download is None && rep.upload is None
                && l.idle is None)
            &&& forall|i: int, j: int|
                0 <= i < j < s.len() ==> (#[trigger] s[i]).place() < (#[trigger] s[j]).place()
        }),
{
    let s = sections_of(rep);
    let l = rep.latency;
    let latency = l.idle is Some || l.loaded_download is Some || l.loaded_upload is Some;
    let a = seq![Section::Metadata];
    let b = a + only_if(latency, Section::Latency);
    let c = b + only_if(rep.download is Some, Section::Download);
    let d = c + only_if(rep.upload is Some, Section::Upload);
    assert(a[0] == Section::Metadata);
    assert(latency ==> b[1] == Section::Latency);
    assert(rep.download is Some ==> c[b.len() as int] == Section::Download);
    assert(rep.upload is Some ==> d[c.len() as int] == Section::Upload);
    assert(s[0] == Section::Metadata);
    if latency {
        assert(s[1] == Section::Latency);
    }
    if rep.download is Some {
        assert(s[b.len() as int] == Section::Download);
    }
    if rep.upload is Some {
        assert(s[c.len() as int] == Section::Upload);
    }
    if rep.download is Some || rep.upload is Some || l.idle is Some {
        assert(s[d.len() as int] == Section::Card);
    }
}

/// A row of one cell that holds a text.
pub open spec fn tells(row: RowView, label: Seq<char>, s: Seq<char>) -> bool {
    row.label == label && row.cells == seq![seq![PieceView::Text(s)]]
}

/// A row of one cell that holds a number with its unit: `value / per`, to two decimals.
pub open spec fn measures(
    row: RowView,
    label: Seq<char>,
    value: Ratio,
    per: u64,
    unit: Seq<char>,
) -> bool {
    &&& row.label == label
    &&& row.cells.len() == 1
    &&& row.cells[0].len() == 2
    &&& row.cells[0][0] matches PieceView::Num(n) && n.value.scaled() * value.den
        == value.scaled() * n.value.den && n.value.den == value.den && n.per == per && n.decimals
        == 2 && n.width == 0
    &&& row.cells[0][1] == PieceView::Text(unit)
}

/// The connection table has a row for each thing that is told of a connection, and what is
/// known stands in it in full.
pub proof fn law_metadata_table(md: MetadataView)
    ensures
        ({
            let t = metadata_table(md);
            let known = |s: Option<Seq<char>>|
                if s is Some {
                    s->0
                } else {
                    "-"@
                };
            &&& t.len() == 6
            &&& tells(t[0], "Client IP"@, known(md.client_ip))
            &&& md.asn is Some ==> tells(
                t[1],
                "ISP / ASN"@,
                known(md.as_organization) + " ("@ + ("AS"@ + text::dec(md.asn->0 as nat)) + ")"@,
            )
            &&& md.asn is None ==> tells(
                t[1],
                "ISP / ASN"@,
                known(md.as_organization) + " ("@ + "-"@ + ")"@,
            )
            &&& tells(
                t[2],
                "Geo"@,
                known(md.city) + ", "@ + known(md.region) + ", "@ + known(md.country),
            )
            &&& tells(t[3], "Cloudflare colo"@, known(md.colo))
            &&& tells(t[4], "HTTP"@, known(md.http_protocol))
            &&& tells(t[5], "TLS"@, known(md.tls))
        }),
{
}

/// A cell that shows microseconds as milliseconds, to two decimals.
pub open spec fn shows_ms(cell: Seq<PieceView>, us: u64) -> bool {
    &&& cell.len() == 2
    &&& cell[0] == PieceView::Num(
        text::Num {
            value: Ratio { whole: us as u128, num: 0, den: 1 },
            per: 1000,
            decimals: 2,
            width: 0,
        },
    )
    &&& cell[1] == PieceView::Text(" ms"@)
}

/// The cells of a latency summary: how many, then the least, three percentiles, the greatest
/// and the jitter; dashes where there is none.
pub open spec fn tells_latency(cells: Seq<Seq<PieceView>>, s: Option<LatencySummary>) -> bool {
    &&& cells.len() == 7
    &&& s is None ==> forall|i: int|
        0 <= i < 7 ==> #[trigger] cells[i] == seq![PieceView::Text("-"@)]
    &&& s is Some ==> {
        &&& cells[0] == seq![PieceView::Text(text::dec(s->0.count as nat))]
        &&& shows_ms(cells[1], s->0.min_us)
        &&& shows_ms(cells[2], s->0.p50_us)
        &&& shows_ms(cells[3], s->0.p95_us)
        &&& shows_ms(cells[4], s->0.p99_us)
        &&& shows_ms(cells[5], s->0.max_us)
        &&& cells[6].len() == 2
        &&& cells[6][0] matches PieceView::Double(d) && d.bits == s->0.jitter_us_bits && d.per
            == 1000 && d.decimals == 2 && d.width == 0
        &&& cells[6][1] == PieceView::Text(" ms"@)
    }
}

/// The latency table has three rows, each for its own summary.
pub proof fn law_latency_table(r: LatencyReport)
    ensures
        ({
            let t = latency_table(r);
            &&& t.len() == 3
            &&& t[0].label == "idle"@ && tells_latency(t[0].cells, r.idle)
            &&& t[1].label == "under download"@ && tells_latency(t[1].cells, r.loaded_download)
            &&& t[2].label == "under upload"@ && tells_latency(t[2].cells, r.loaded_upload)
        }),
{
}

/// There is a line for each grade and no other, the download before the upload, with what
/// load added and the grade.
pub proof fn law_bufferbloat_lines(r: LatencyReport)
    ensures
        ({
            let t = bufferbloat_text(r);
            let (d, u) = (r.bufferbloat_download, r.bufferbloat_upload);
            let line = |heading: Seq<char>, g: BufferbloatGrade|
                seq![
                    PieceView::Text(heading),
                    PieceView::Num(
                        text::Num {
                            value: Ratio { whole: g.added_latency_ns, num: 0, den: 1 },
                            per: 1_000_000,
                            decimals: 1,
                            width: 0,
                        },
                    ),
                    PieceView::Text(" ms  →  grade "@),
                    PieceView::Char(g.grade),
                ];
            &&& d is None && u is None ==> t.len() == 0
            &&& d is Some && u is None ==> t =~= seq![
                line("  Bufferbloat (download): +"@, d->0),
            ]
            &&& d is None && u is Some ==> t =~= seq![
                line("  Bufferbloat (upload):   +"@, u->0),
            ]
            &&& d is Some && u is Some ==> t =~= seq![
                line("  Bufferbloat (download): +"@, d->0),
                line("  Bufferbloat (upload):   +"@, u->0),
            ]
        }),
{
}

/// The table of a phase has a row for each of its figures under its name, for the stable rate
/// and the two times where there are such, and for its totals.
pub proof fn law_phase_table(p: PhaseReport)
    ensures
        ({
            let t = phase_table(p);
            let s = p.timeline_summary;
            let whole = |n: u128| Ratio { whole: n, num: 0, den: 1 };
            let stable = if p.stable is Some {
                1int
            } else {
                0
            };
            let saturation = if p.time_to_saturation_ns is Some {
                1int
            } else {
                0
            };
            let peak = if p.time_to_p90_ns is Some {
                1int
            } else {
                0
            };
            let k = 9 + stable + saturation + peak;
            &&& t.len() == k + 4
            &&& measures(t[0], "mean"@, p.mean_mbps, 1, " Mbps"@)
            &&& measures(t[1], "p50"@, s.p50, 1_000_000_000_000, " Mbps"@)
            &&& measures(t[2], "p75"@, s.p75, 1_000_000_000_000, " Mbps"@)
            &&& measures(t[3], "p90"@, s.p90, 1_000_000_000_000, " Mbps"@)
            &&& measures(t[4], "p95"@, s.p95, 1_000_000_000_000, " Mbps"@)
            &&& measures(t[5], "p99"@, s.p99, 1_000_000_000_000, " Mbps"@)
            &&& measures(t[6], "max"@, whole(s.max), 1_000_000_000_000, " Mbps"@)
            &&& measures(t[7], "min"@, whole(s.min), 1_000_000_000_000, " Mbps"@)
            &&& measures(t[8], "stdev"@, whole(s.stdev), 1_000_000_000_000, " Mbps"@)
            &&& p.stable is Some ==> measures(
                t[9],
                "stable (last 50%)"@,
                p.stable->0,
                1_000_000_000_000,
                " Mbps"@,
            )
            &&& p.time_to_saturation_ns is Some ==> measures(
                t[9 + stable],
                "time to saturation"@,
                whole(p.time_to_saturation_ns->0),
                1_000_000_000,
                " s"@,
            )
            &&& p.time_to_p90_ns is Some ==> measures(
                t[9 + stable + saturation],
                "time to 90% peak"@,
                whole(p.time_to_p90_ns->0),
                1_000_000_000,
                " s"@,
            )
            &&& measures(
                t[k],
                "bytes"@,
                whole(p.total_bytes as u128),
                text::byte_unit(p.total_bytes).0,
                text::byte_unit(p.total_bytes).1,
            )
            &&& measures(t[k + 1], "duration"@, whole(p.duration_ns), 1_000_000_000, " s"@)
            &&& tells(t[k + 2], "requests issued"@, text::dec(p.requests as nat))
            &&& tells(t[k + 3], "errors"@, text::dec(p.errors as nat))
        }),
{
}

/// The card has the mean of each phase that ran, the idle median, and the grade under
/// download; what was not measured is 0 or a dash.
pub proof fn law_card(p: Option<PhaseReport>, g: Option<BufferbloatGrade>, c: SummaryCard)
    ensures
        p is Some ==> mean_or_zero(p) == p->0.mean_mbps,
        p is None ==> mean_or_zero(p).scaled() == 0,
        g is None ==> card_bufferbloat(g) == seq![PieceView::Text("-"@)],
        g is Some ==> ({
            let t = card_bufferbloat(g);
            &&& t.len() == 5
            &&& t[0] == PieceView::Text("+"@)
            &&& t[1] matches PieceView::Num(n) && n.value == (Ratio {
                whole: g->0.added_latency_ns,
                num: 0,
                den: 1,
            }) && n.per == 1_000_000 && n.decimals == 0 && n.width == 0
            &&& t[2] == PieceView::Text(" ms ("@)
            &&& t[3] == PieceView::Char(g->0.grade)
            &&& t[4] == PieceView::Text(")"@)
        }),
        ({
            let t = card_text(c);
            let rest = text::line_view(c.bufferbloat@);
            &&& t.len() == 7 + rest.len()
            &&& t[0] == PieceView::Text("  ⇣ "@)
            &&& t[1] matches PieceView::Num(n) && n.value == c.dl_mean_mbps && n.per == 1
                && n.decimals == 2 && n.width == 8
            &&& t[2] == PieceView::Text(" Mbps   ⇡ "@)
            &&& t[3] matches PieceView::Num(n) && n.value == c.ul_mean_mbps && n.per == 1
                && n.decimals == 2 && n.width == 8
            &&& t[4] == PieceView::Text(" Mbps   ping "@)
            &&& t[5] matches PieceView::Num(n) && n.value == (Ratio {
                whole: c.idle_p50_us as u128,
                num: 0,
                den: 1,
            }) && n.per == 1000 && n.decimals == 1 && n.width == 5
            &&& t[6] == PieceView::Text(" ms   bufferbloat "@)
            &&& forall|i: int| 0 <= i < rest.len() ==> t[7 + i] == #[trigger] rest[i]
        }),
{
    assert(0 * 1 + 0 == 0) by (nonlinear_arith);
    assert(mean_or_zero(None).scaled() == 0);
}

}
