use speedt::metadata::Metadata;
use speedt::phase::build_phase_report;
use speedt::report::{LatencyReport, PhaseReport, SessionReport, Timestamp};
use speedt::sampler::{Sample, MEGABIT};
use speedt::stats::{BufferbloatGrade, Ratio};
use speedt::text::Piece;
use speedt::ui::theme::{
    download_style, error_style, grade_style, key_hint_style, muted_style, no_color_active,
    success_style, truecolor_active, upload_style, warn_style, Colour, Palette, Tone,
};
use speedt::ui::tui::{
    active_card, finished_card, footer, grade_cell, header_title, is_quit, latency_lines,
    metadata_segments, phase_area, rtt_percentile_ns, Height, Key, PhaseRow, Span, State,
    SAMPLE_BUFFER_CAP,
};
use speedt::ui::{PhaseKind, ProbeKind, UiEvent};

const SEC: u128 = 1_000_000_000;

const COLOURS: Palette = Palette { no_color: false, truecolor: false };

const MONOCHROME: Palette = Palette { no_color: true, truecolor: true };

const PLAIN: Tone = Tone { fg: None, bold: false };

fn line_text(line: &[Piece]) -> String {
    let mut s = String::new();
    for p in line {
        match p {
            Piece::Text(t) => s.push_str(t),
            Piece::Char(c) => s.push(*c),
            Piece::Num(n) => {
                let v = (n.value.whole as f64 + n.value.num as f64 / n.value.den as f64) / n.per as f64;
                s.push_str(&format!("{:>1$.2$}", v, n.width as usize, n.decimals as usize));
            }
            Piece::Double(_) => unreachable!(),
            Piece::Percent(r) => s.push_str(&format!("{:.0}", r.num as f64 / r.den as f64 * 100.0)),
        }
    }
    s
}

fn span_text(spans: &[Span]) -> String {
    spans.iter().map(|s| line_text(&[s.piece.clone()])).collect()
}

fn in_colour(c: Colour) -> Tone {
    Tone { fg: Some(c), bold: false }
}

fn sample(t_ms: u128, mbps: u64) -> Sample {
    Sample { t_ns: t_ms * 1_000_000, rate: mbps as u128 * MEGABIT as u128, cumulative_bytes: 0 }
}

fn started(mode: &'static str, total_planned_ns: u128) -> UiEvent {
    UiEvent::SessionStarted {
        mode,
        total_planned_ns,
        metadata: Box::new(Metadata::default()),
        started_at: Timestamp { secs: 0, nanos: 0 },
        idle_probes_planned: 0,
        loaded_probes_planned: 0,
    }
}

fn phase_started(kind: PhaseKind) -> UiEvent {
    UiEvent::PhaseStarted { kind, label: "download", planned_ns: 10 * SEC }
}

fn done(label: &'static str) -> PhaseReport {
    let timeline = (10..20u128).map(|i| sample(i * 100, 80)).collect();
    build_phase_report(label, 20_000_000, 3, 0, 2 * SEC, timeline)
}

fn session_report() -> SessionReport {
    let t = Timestamp { secs: 0, nanos: 0 };
    SessionReport {
        mode: "quick",
        started_at: t,
        ended_at: t,
        metadata: Metadata::default(),
        latency: LatencyReport {
            idle: None,
            loaded_download: None,
            loaded_upload: None,
            bufferbloat_download: None,
            bufferbloat_upload: None,
        },
        download: None,
        upload: None,
    }
}

#[test]
fn no_color_counts_when_set() {
    assert!(no_color_active(Some("")));
    assert!(no_color_active(Some("1")));
    assert!(!no_color_active(None));
}

#[test]
fn truecolor_is_signalled_by_two_values() {
    assert!(truecolor_active(Some("truecolor")));
    assert!(truecolor_active(Some("24bit")));
    assert!(!truecolor_active(Some("yes")));
    assert!(!truecolor_active(Some("")));
    assert!(!truecolor_active(None));
}

#[test]
fn named_tones() {
    assert_eq!(download_style(COLOURS), in_colour(Colour::Cyan));
    assert_eq!(upload_style(COLOURS), in_colour(Colour::Magenta));
    assert_eq!(success_style(COLOURS), in_colour(Colour::Green));
    assert_eq!(warn_style(COLOURS), in_colour(Colour::Yellow));
    assert_eq!(error_style(COLOURS), in_colour(Colour::Red));
    assert_eq!(muted_style(COLOURS), in_colour(Colour::DarkGray));
    assert_eq!(key_hint_style(COLOURS), Tone { fg: Some(Colour::Yellow), bold: true });
}

#[test]
fn no_color_makes_every_tone_plain() {
    let p = MONOCHROME;
    for t in [
        download_style(p),
        upload_style(p),
        success_style(p),
        warn_style(p),
        error_style(p),
        muted_style(p),
        key_hint_style(p),
        grade_style(p, 'C'),
    ] {
        assert_eq!(t, PLAIN);
    }
}

#[test]
fn grades_have_colours() {
    let fg = |p: Palette, g: char| grade_style(p, g).fg.unwrap();
    assert_eq!(fg(COLOURS, 'A'), Colour::Green);
    assert_eq!(fg(COLOURS, 'B'), Colour::Yellow);
    assert_eq!(fg(COLOURS, 'C'), Colour::Yellow);
    assert_eq!(fg(COLOURS, 'D'), Colour::Red);
    assert_eq!(fg(COLOURS, 'F'), Colour::Red);
    assert_eq!(fg(COLOURS, '?'), Colour::Gray);
    let rich = Palette { no_color: false, truecolor: true };
    assert_eq!(fg(rich, 'C'), Colour::Rgb(184, 134, 11));
    assert_eq!(fg(rich, 'B'), Colour::Yellow);
}

#[test]
fn keys_that_quit() {
    assert!(is_quit(Key::Char('q'), false));
    assert!(is_quit(Key::Esc, false));
    assert!(is_quit(Key::Char('c'), true));
    assert!(!is_quit(Key::Char('c'), false));
    assert!(!is_quit(Key::Char('Q'), false));
    assert!(!is_quit(Key::Other, true));
}

#[test]
fn the_chart_keeps_the_last_samples() {
    let mut s = State::default();
    s.apply(UiEvent::Throughput(sample(0, 9)), 0);
    assert!(s.active.is_none());
    s.apply(phase_started(PhaseKind::Download), 5);
    for i in 0..(SAMPLE_BUFFER_CAP as u64 + 60) {
        s.apply(UiEvent::Throughput(sample(i as u128, i)), 6);
    }
    let a = s.active.as_ref().unwrap();
    assert_eq!(a.samples.len(), 240);
    assert_eq!(a.samples[0], sample(60, 60));
    assert_eq!(a.samples[239], sample(299, 299));
    assert_eq!(a.current_rate(), 299 * MEGABIT as u128);
    assert_eq!(a.elapsed_ns(105), 100);
    assert_eq!(a.elapsed_ns(1), 0);
}

#[test]
fn the_state_follows_the_events() {
    let mut s = State::default();
    assert_eq!(s.session_elapsed_ns(77), 0);
    s.apply(started("quick", 22 * SEC), 100);
    assert_eq!(s.mode, Some("quick"));
    assert_eq!(s.total_planned_ns, 22 * SEC);
    assert_eq!(s.session_elapsed_ns(150), 50);
    assert!(s.metadata.is_some());
    s.apply(UiEvent::LatencyProbe { kind: ProbeKind::Idle, rtt_us: 1 }, 110);
    s.apply(UiEvent::LatencyProbe { kind: ProbeKind::LoadedDownload, rtt_us: 2 }, 120);
    s.apply(UiEvent::LatencyProbe { kind: ProbeKind::LoadedUpload, rtt_us: 3 }, 130);
    s.apply(UiEvent::LatencyProbe { kind: ProbeKind::Idle, rtt_us: 4 }, 140);
    assert_eq!(s.idle_rtts_us, vec![1, 4]);
    assert_eq!(s.loaded_dl_rtts_us, vec![2]);
    assert_eq!(s.loaded_ul_rtts_us, vec![3]);
    s.apply(phase_started(PhaseKind::Download), 150);
    assert!(s.active.is_some());
    s.apply(UiEvent::PhaseFinished(done("download")), 160);
    assert!(s.active.is_none());
    s.apply(phase_started(PhaseKind::Upload), 170);
    s.apply(UiEvent::Error("lost".to_string()), 180);
    s.apply(UiEvent::SessionFinished(Box::new(session_report())), 190);
    assert!(s.active.is_none());
    assert_eq!(s.finished.len(), 1);
    assert_eq!(s.last_error, Some("lost".to_string()));
}

#[test]
fn the_header_shows_mode_and_time() {
    let mut s = State::default();
    assert_eq!(span_text(&header_title(&s, 0, COLOURS)), "speedt  ·  …  ·  0:00 / 0:00");
    s.apply(started("deep", 300 * SEC), SEC);
    let title = header_title(&s, 66 * SEC, COLOURS);
    assert_eq!(span_text(&title), "speedt  ·  deep  ·  1:05 / 5:00");
    assert_eq!(title[0].tone, Tone { fg: None, bold: true });
    assert_eq!(title[2].tone, in_colour(Colour::Cyan));
    assert_eq!(header_title(&s, 0, MONOCHROME)[2].tone, PLAIN);
}

#[test]
fn the_header_shows_the_connection() {
    let text = |md: Option<&Metadata>| span_text(&metadata_segments(md, COLOURS));
    assert_eq!(text(None), "(metadata pending…)");
    let mut md = Metadata::default();
    assert_eq!(text(Some(&md)), "(metadata unavailable)");
    md.asn = Some(64500);
    assert_eq!(text(Some(&md)), "AS64500");
    md.as_organization = Some("".to_string());
    assert_eq!(text(Some(&md)), "AS64500");
    md.as_organization = Some("Example Net".to_string());
    md.tls = Some("TLSv1.3".to_string());
    md.colo = Some("BEG".to_string());
    md.http_protocol = Some("HTTP/2.0".to_string());
    assert_eq!(text(Some(&md)), "colo BEG  ·  AS64500 Example Net  ·  HTTP/2.0  ·  TLSv1.3");
    let spans = metadata_segments(Some(&md), COLOURS);
    assert_eq!(spans.len(), 7);
    assert_eq!(spans[1].tone, in_colour(Colour::DarkGray));
    assert_eq!(spans[2].tone, PLAIN);
}

#[test]
fn the_phase_area_stacks_its_rows() {
    let mut s = State::default();
    assert!(matches!(&phase_area(&s)[..], [PhaseRow::Message(m)] if m == "waiting for first phase…"));
    s.apply(UiEvent::Error("lost".to_string()), 0);
    assert!(matches!(&phase_area(&s)[..], [PhaseRow::Message(m)] if m == "error: lost"));
    s.apply(phase_started(PhaseKind::Download), 0);
    assert!(matches!(&phase_area(&s)[..], [PhaseRow::Active]));
    s.apply(UiEvent::PhaseFinished(done("download")), 0);
    assert!(matches!(&phase_area(&s)[..], [PhaseRow::Finished(0), PhaseRow::Padding]));
    s.apply(phase_started(PhaseKind::Upload), 0);
    let rows = phase_area(&s);
    assert!(matches!(&rows[..], [PhaseRow::Finished(0), PhaseRow::Active]));
    assert_eq!(rows[0].height(), Height::Exactly(4));
    assert_eq!(rows[1].height(), Height::AtLeast(7));
    assert_eq!(PhaseRow::Padding.height(), Height::AtLeast(0));
}

#[test]
fn the_card_of_a_finished_phase() {
    let c = finished_card(&done("download"));
    assert_eq!(c.title, " download ✓ ");
    assert_eq!(line_text(&c.rates), "mean 80.00 Mbps · stable 80.00 Mbps · TTS 1.0s");
    assert_eq!(line_text(&c.totals), "p50 80.00 · p95 80.00 · 19.1 MiB · 2.0s");
    let bare = finished_card(&build_phase_report("upload", 0, 0, 0, SEC, vec![]));
    assert_eq!(line_text(&bare.rates), "mean 0.00 Mbps · stable - · TTS -");
}

#[test]
fn the_running_phase() {
    let mut s = State::default();
    s.apply(phase_started(PhaseKind::Download), SEC);
    for (i, mbps) in [10u64, 20, 30, 40].iter().enumerate() {
        s.apply(UiEvent::Throughput(sample(100 * i as u128, *mbps)), SEC);
    }
    let c = active_card(s.active.as_ref().unwrap(), 3 * SEC + SEC / 2, COLOURS);
    assert_eq!(c.title, " download (live) ");
    assert_eq!(c.tone, in_colour(Colour::Cyan));
    assert_eq!(c.gauge, Ratio { whole: 0, num: 2 * SEC + SEC / 2, den: 10 * SEC });
    assert_eq!(line_text(&c.gauge_label), "0:03 / 0:10  (25%)");
    assert_eq!(c.chart, vec![1000, 2000, 3000, 4000]);
    assert_eq!(
        span_text(&c.stats),
        "now   40.00 Mbps   p50  25.00   p95  38.50   stable 35.00 Mbps"
    );
    assert_eq!(c.stats[1].tone, Tone { fg: None, bold: true });
}

#[test]
fn the_chart_is_cut_off_where_it_ends() {
    let mut s = State::default();
    s.apply(phase_started(PhaseKind::Download), 0);
    s.apply(UiEvent::Throughput(Sample { t_ns: 1, rate: u128::MAX, cumulative_bytes: 0 }), 0);
    assert_eq!(active_card(s.active.as_ref().unwrap(), 0, COLOURS).chart, vec![u64::MAX]);
}

#[test]
fn a_phase_that_overruns_or_has_no_plan() {
    let mut s = State::default();
    s.apply(phase_started(PhaseKind::Upload), 0);
    let c = active_card(s.active.as_ref().unwrap(), 60 * SEC, COLOURS);
    assert_eq!(c.tone, in_colour(Colour::Magenta));
    assert_eq!(c.gauge, Ratio { whole: 0, num: 10 * SEC, den: 10 * SEC });
    assert_eq!(line_text(&c.gauge_label), "1:00 / 0:10  (100%)");
    assert_eq!(span_text(&c.stats), "now    0.00 Mbps   p50   0.00   p95   0.00   stable -");
    s.apply(UiEvent::PhaseStarted { kind: PhaseKind::Upload, label: "upload", planned_ns: 0 }, 0);
    let c = active_card(s.active.as_ref().unwrap(), 0, COLOURS);
    assert_eq!(c.gauge, Ratio { whole: 0, num: 0, den: 1_000_000 });
}

#[test]
fn percentiles_of_round_trips() {
    assert_eq!(rtt_percentile_ns(&vec![], 50), None);
    assert_eq!(rtt_percentile_ns(&vec![2000, 1000], 50), Some(1_500_000));
    assert_eq!(rtt_percentile_ns(&vec![2000, 1000, 4000], 95), Some(3_800_000));
}

#[test]
fn the_live_latency_table() {
    let mut s = State::default();
    for us in [10_000u64, 12_000] {
        s.apply(UiEvent::LatencyProbe { kind: ProbeKind::Idle, rtt_us: us }, 0);
    }
    s.apply(UiEvent::LatencyProbe { kind: ProbeKind::LoadedDownload, rtt_us: 311_000 }, 0);
    let lines = latency_lines(&s, COLOURS);
    let row = |i: usize| {
        let l = &lines[i];
        let grade = match &l.bufferbloat {
            Some(g) => line_text(&g.text),
            None => "".to_string(),
        };
        format!("{}|{}|{}|{}|{}", l.label, l.count, line_text(&l.p50), line_text(&l.p95), grade)
    };
    assert_eq!(lines.len(), 3);
    assert_eq!(row(0), "idle|2|11.0 ms|11.9 ms|");
    assert_eq!(row(1), "under download|1|311.0 ms|311.0 ms|+300.0 ms  grade F");
    assert_eq!(row(2), "under upload|-|-|-|");
    let tone = lines[1].bufferbloat.as_ref().unwrap().tone;
    assert_eq!(tone, Tone { fg: Some(Colour::Red), bold: true });
}

#[test]
fn a_grade_is_shown_in_its_colour() {
    let c = grade_cell(BufferbloatGrade::from_added(7_250_000), COLOURS);
    assert_eq!(line_text(&c.text), "+  7.2 ms  grade B");
    assert_eq!(c.tone, in_colour(Colour::Yellow));
    let c = grade_cell(BufferbloatGrade::from_added(900_000_000), MONOCHROME);
    assert_eq!(c.tone, Tone { fg: None, bold: true });
}

#[test]
fn the_footer_shows_errors_and_how_to_quit() {
    let mut s = State::default();
    let f = footer(&s, COLOURS);
    assert_eq!(span_text(&f), "q / Esc / Ctrl-C quit");
    assert_eq!(f[0].tone, in_colour(Colour::DarkGray));
    s.apply(UiEvent::Error("no route".to_string()), 0);
    let f = footer(&s, COLOURS);
    assert_eq!(span_text(&f), "error: no route    q / Esc / Ctrl-C quit ");
    assert_eq!(f[0].tone, Tone { fg: Some(Colour::Red), bold: true });
}
