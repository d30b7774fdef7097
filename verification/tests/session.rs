use speedt::cli::{Command, DeepOpts, LatencyOpts, QuickOpts};
use speedt::metadata::Metadata;
use speedt::report::{PhaseReport, Timestamp};
use speedt::session::{
    finish_phase, label_of, latency_report, mode_of, output_of, plan, started_event, step_label,
    Output, Planned, Session, Stage, Step,
};
use speedt::text::Piece;
use speedt::ui::{PhaseKind, UiEvent};

const SEC: u128 = 1_000_000_000;

fn words(line: &[Piece]) -> String {
    let mut s = String::new();
    for p in line {
        match p {
            Piece::Text(t) => s.push_str(t),
            Piece::Char(c) => s.push(*c),
            Piece::Num(n) => {
                let v = (n.value.whole as f64 + n.value.num as f64 / n.value.den as f64) / n.per as f64;
                s.push_str(&format!("{:>1$.2$}", v, n.width as usize, n.decimals as usize));
            }
            Piece::Double(_) | Piece::Percent(_) => unreachable!(),
        }
    }
    s
}

fn phase_of(kind: PhaseKind) -> PhaseReport {
    finish_phase(kind, None, 1000, SEC, vec![])
}

fn now(secs: i64) -> Timestamp {
    Timestamp { secs, nanos: 5 }
}

#[test]
fn plans_of_the_default_sessions() {
    assert_eq!(
        plan(&Command::Quick(QuickOpts::default())),
        Planned { total_ns: 22 * SEC, idle_probes: 20, loaded_probes: 0 }
    );
    assert_eq!(
        plan(&Command::Deep(DeepOpts::default())),
        Planned { total_ns: 300 * SEC, idle_probes: 60, loaded_probes: 1040 }
    );
    assert_eq!(
        plan(&Command::Latency(LatencyOpts::default())),
        Planned { total_ns: 5 * SEC, idle_probes: 50, loaded_probes: 0 }
    );
    assert_eq!(
        plan(&Command::Info),
        Planned { total_ns: 0, idle_probes: 0, loaded_probes: 0 }
    );
}

#[test]
fn plans_follow_the_options() {
    let quick = QuickOpts { no_upload: true, ..QuickOpts::default() };
    assert_eq!(plan(&Command::Quick(quick)).total_ns, 14 * SEC);
    let deep = DeepOpts { no_upload: true, latency_probes: 7, ..DeepOpts::default() };
    let p = plan(&Command::Deep(deep));
    assert_eq!((p.idle_probes, p.loaded_probes), (7, 520));
    let deep = DeepOpts { no_bufferbloat: true, ..DeepOpts::default() };
    assert_eq!(plan(&Command::Deep(deep)).loaded_probes, 0);
    let long = Command::Latency(LatencyOpts { probes: u32::MAX, spacing_ms: u64::MAX });
    assert_eq!(plan(&long).total_ns, u32::MAX as u128 * u64::MAX as u128 * 1_000_000);
}

#[test]
fn a_deep_session_shares_its_time() {
    let b = DeepOpts::default().budget();
    assert_eq!((b.idle_each_ns, b.download_ns, b.upload_ns), (15 * SEC, 135 * SEC, 135 * SEC));
    let b = DeepOpts { no_upload: true, ..DeepOpts::default() }.budget();
    assert_eq!((b.download_ns, b.upload_ns), (135 * SEC, 0));
    // To the nearest nanosecond.
    let b = DeepOpts { duration_ns: 2, ..DeepOpts::default() }.budget();
    assert_eq!((b.idle_each_ns, b.download_ns), (0, 1));
    let b = DeepOpts { duration_ns: u128::MAX, ..DeepOpts::default() }.budget();
    assert!(b.download_ns < u128::MAX / 2);
}

#[test]
fn the_shares_add_up() {
    for ns in [0u128, 1, 99, 12_345_678_901, 300 * SEC] {
        let b = DeepOpts { duration_ns: ns, ..DeepOpts::default() }.budget();
        let spent = 2 * b.idle_each_ns + b.download_ns + b.upload_ns;
        assert!(spent.abs_diff(ns) <= 2);
    }
}

#[test]
fn course_of_a_deep_session() {
    let mut s = Session::new(Command::Deep(DeepOpts::default()));
    assert_eq!(s.stage, Stage::IdleStart);
    assert_eq!(s.next(false), Step::Idle { probes: 30, spacing_ms: 100, at_end: false });
    let phase = |kind: PhaseKind| Step::Phase {
        kind,
        duration_ns: 135 * SEC,
        streams: 8,
        sample_ms: 100,
        measure_loaded: true,
    };
    assert_eq!(s.next(false), phase(PhaseKind::Download));
    assert_eq!(s.next(false), phase(PhaseKind::Upload));
    assert_eq!(s.next(false), Step::Idle { probes: 30, spacing_ms: 100, at_end: true });
    assert_eq!(s.next(false), Step::Finish);
    assert_eq!(s.next(false), Step::Finish);
}

#[test]
fn an_odd_number_of_probes_is_sent_in_full() {
    for n in [0u32, 1, 2, 7, 60, u32::MAX] {
        let command = Command::Deep(DeepOpts { latency_probes: n, ..DeepOpts::default() });
        assert_eq!(plan(&command).idle_probes, n);
        let mut s = Session::new(command);
        let mut sent: Vec<u32> = Vec::new();
        loop {
            match s.next(false) {
                Step::Idle { probes, .. } => sent.push(probes),
                Step::Phase { .. } => {}
                Step::Finish => break,
            }
        }
        assert_eq!(sent, vec![n - n / 2, n / 2]);
    }
}

#[test]
fn course_of_a_deep_session_without_upload() {
    let o = DeepOpts { no_upload: true, no_bufferbloat: true, ..DeepOpts::default() };
    let mut s = Session::new(Command::Deep(o));
    assert!(matches!(s.next(false), Step::Idle { at_end: false, .. }));
    assert!(matches!(
        s.next(false),
        Step::Phase { kind: PhaseKind::Download, measure_loaded: false, .. }
    ));
    assert!(matches!(s.next(false), Step::Idle { at_end: true, .. }));
    assert_eq!(s.next(false), Step::Finish);
}

#[test]
fn course_of_a_quick_session() {
    let mut s = Session::new(Command::Quick(QuickOpts::default()));
    assert_eq!(s.next(false), Step::Idle { probes: 20, spacing_ms: 100, at_end: false });
    let phase = |kind: PhaseKind, secs: u128| Step::Phase {
        kind,
        duration_ns: secs * SEC,
        streams: 6,
        sample_ms: 100,
        measure_loaded: false,
    };
    assert_eq!(s.next(false), phase(PhaseKind::Download, 12));
    assert_eq!(s.next(false), phase(PhaseKind::Upload, 8));
    assert_eq!(s.next(false), Step::Finish);
}

#[test]
fn courses_of_short_sessions() {
    let mut s = Session::new(Command::Latency(LatencyOpts { probes: 9, spacing_ms: 40 }));
    assert_eq!(s.next(false), Step::Idle { probes: 9, spacing_ms: 40, at_end: false });
    assert_eq!(s.next(false), Step::Finish);
    assert_eq!(Session::new(Command::Info).next(false), Step::Finish);
}

#[test]
fn a_cancelled_session_only_reports() {
    let mut s = Session::new(Command::Deep(DeepOpts::default()));
    // The first probes are begun in any case, and end by themselves.
    assert!(matches!(s.next(true), Step::Idle { .. }));
    assert_eq!(s.next(true), Step::Finish);
    let mut s = Session::new(Command::Deep(DeepOpts::default()));
    s.next(false);
    s.next(false);
    assert_eq!(s.next(true), Step::Finish);
    assert_eq!(s.stage, Stage::Done);
}

#[test]
fn a_session_is_announced_with_its_plan() {
    let command = Command::Deep(DeepOpts::default());
    match started_event(&command, Box::new(Metadata::default()), now(3)) {
        UiEvent::SessionStarted {
            mode,
            total_planned_ns,
            started_at,
            idle_probes_planned,
            loaded_probes_planned,
            ..
        } => {
            assert_eq!(mode, "deep");
            assert_eq!(total_planned_ns, 300 * SEC);
            assert_eq!(started_at, now(3));
            assert_eq!((idle_probes_planned, loaded_probes_planned), (60, 1040));
        }
        _ => panic!("not the start of a session"),
    }
}

#[test]
fn a_deep_report_grades_bufferbloat() {
    let mut s = Session::new(Command::Deep(DeepOpts::default()));
    s.add_idle(vec![10_000]);
    s.add_phase(PhaseKind::Download, Some(phase_of(PhaseKind::Download)), vec![45_000]);
    s.add_phase(PhaseKind::Upload, None, vec![]);
    s.add_idle(vec![10_001]);
    let rep = s.finish(Metadata::default(), now(1), now(9));
    assert_eq!(rep.mode, "deep");
    assert_eq!((rep.started_at, rep.ended_at), (now(1), now(9)));
    let idle = rep.latency.idle.unwrap();
    assert_eq!(idle.raw_samples_us, vec![10_000, 10_001]);
    assert_eq!(idle.p50_us, 10_007);
    assert_eq!(rep.latency.loaded_download.unwrap().p50_us, 45_023);
    let g = rep.latency.bufferbloat_download.unwrap();
    assert_eq!((g.added_latency_ns, g.grade), (35_016_000, 'C'));
    assert!(rep.latency.loaded_upload.is_none());
    assert!(rep.latency.bufferbloat_upload.is_none());
    assert_eq!(rep.download.unwrap().label, "download");
    assert!(rep.upload.is_none());
}

#[test]
fn a_session_without_answers_has_no_latency() {
    let rep = Session::new(Command::Latency(LatencyOpts::default())).finish(
        Metadata::default(),
        now(1),
        now(2),
    );
    assert_eq!(rep.mode, "latency");
    assert!(rep.latency.idle.is_none());
}

#[test]
fn a_quick_session_reports_no_bufferbloat() {
    let r = latency_report(&vec![5000, 6000], &vec![], &vec![]);
    assert!(r.idle.is_some());
    assert!(r.loaded_download.is_none() && r.loaded_upload.is_none());
    assert!(r.bufferbloat_download.is_none() && r.bufferbloat_upload.is_none());
}

#[test]
fn load_without_idle_latency_is_not_graded() {
    let r = latency_report(&vec![], &vec![5000], &vec![6000]);
    assert!(r.loaded_download.is_some() && r.loaded_upload.is_some());
    assert!(r.bufferbloat_download.is_none() && r.bufferbloat_upload.is_none());
}

#[test]
fn where_a_report_goes() {
    assert_eq!(output_of(true, true), Output::Json);
    assert_eq!(output_of(true, false), Output::Json);
    assert_eq!(output_of(false, true), Output::Nothing);
    assert_eq!(output_of(false, false), Output::Human);
}

#[test]
fn names_of_modes_and_phases() {
    assert_eq!(mode_of(&Command::Quick(QuickOpts::default())), "quick");
    assert_eq!(mode_of(&Command::Deep(DeepOpts::default())), "deep");
    assert_eq!(mode_of(&Command::Latency(LatencyOpts::default())), "latency");
    assert_eq!(mode_of(&Command::Info), "info");
    assert_eq!(label_of(PhaseKind::Download), "download");
    assert_eq!(label_of(PhaseKind::Upload), "upload");
}

#[test]
fn labels_while_a_step_runs() {
    let labels = |command: Command| {
        let mut s = Session::new(command);
        let mut all: Vec<String> = Vec::new();
        loop {
            let step = s.next(false);
            if step == Step::Finish {
                return all;
            }
            all.push(words(&step_label(&command, &step)));
        }
    };
    assert_eq!(
        labels(Command::Deep(DeepOpts::default())),
        vec![
            "idle latency (start, ~15s)",
            "download 135s @ 8 streams (sampling every 100ms)",
            "upload 135s @ 8 streams (sampling every 100ms)",
            "idle latency (end, ~15s)",
        ]
    );
    assert_eq!(
        labels(Command::Quick(QuickOpts::default())),
        vec!["idle latency", "download 12s @ 6 streams", "upload 8s @ 6 streams"]
    );
    assert_eq!(labels(Command::Latency(LatencyOpts::default())), vec!["latency: 50 probes"]);
    assert!(step_label(&Command::Info, &Step::Finish).is_empty());
}
