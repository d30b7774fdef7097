use speedt::phase::{build_phase_report, stable_rate};
use speedt::sampler::{Sample, Sampler, BYTE_RATE};
use speedt::sampler;
use speedt::session::{finish_phase, Totals};
use speedt::stats::Ratio;
use speedt::ui::PhaseKind;

const MS: u128 = 1_000_000;

const MEGABIT: u128 = sampler::MEGABIT as u128;

fn at(t_ms: u128, rate: u128) -> Sample {
    Sample { t_ns: t_ms * MS, rate, cumulative_bytes: 0 }
}

fn ramp() -> Vec<Sample> {
    vec![
        at(500, 10_000_000),
        at(1000, 50_000_000),
        at(1500, 90_000_000),
        at(2000, 100_000_000),
        at(2500, 100_000_000),
        at(3000, 100_000_000),
    ]
}

#[test]
fn a_sample_spans_the_interval_since_the_last() {
    let mut s = Sampler::start(0);
    let first = s.tick(100 * MS, 1_250_000, false).unwrap();
    assert_eq!(
        first,
        Sample { t_ns: 100 * MS, rate: 100 * MEGABIT, cumulative_bytes: 1_250_000 }
    );
    let second = s.tick(300 * MS, 1_500_000, false).unwrap();
    assert_eq!(second.rate, 10 * MEGABIT);
    assert_eq!(second.cumulative_bytes, 1_500_000);
    assert_eq!(s.tick(400 * MS, 2_000_000, true), None);
    assert_eq!(s.stop(), vec![first, second]);
}

#[test]
fn a_counter_that_stands_still_has_no_rate() {
    let mut s = Sampler::start(5);
    assert_eq!(s.tick(100 * MS, 0, false).unwrap().rate, 0);
    assert_eq!(s.tick(200 * MS, 50, false).unwrap().rate, 4_000_000_000);
    assert_eq!(s.tick(300 * MS, 50, false).unwrap().rate, 0);
    // The counter or the clock goes back.
    assert_eq!(s.tick(400 * MS, 10, false).unwrap().rate, 0);
    assert_eq!(s.tick(350 * MS, 99, false).unwrap().rate, 0);
    // No time has passed.
    assert_eq!(s.tick(350 * MS, 200, false).unwrap().rate, 0);
}

#[test]
fn rates_are_rounded_down_and_never_cut_off() {
    let mut s = Sampler::start(0);
    assert_eq!(s.tick(3_000 * MS, 1, false).unwrap().rate, 2_666_666);
    let mut s = Sampler::start(0);
    let fastest = s.tick(1, u64::MAX, false).unwrap().rate;
    assert_eq!(fastest, u64::MAX as u128 * 8_000_000_000_000_000);
    let mut s = Sampler::start(0);
    assert_eq!(s.tick(1, 1_000_000, false).unwrap().rate, 8_000_000_000_000_000_000_000);
}

#[test]
fn a_rate_is_precise() {
    for (bytes, ns) in [(1u64, 3_000_000u128), (7, 1_000_000_007), (123_456_789, 99 * MS)] {
        let mut s = Sampler::start(0);
        let r = s.tick(ns, bytes, false).unwrap().rate;
        let exact = bytes as u128 * BYTE_RATE as u128;
        assert!(r * ns <= exact && exact < (r + 1) * ns);
    }
}

#[test]
fn a_timeline_follows_its_counter() {
    let mut s = Sampler::start(7);
    let readings = [(100 * MS, 10u64), (100 * MS, 10), (250 * MS, 900_000), (251 * MS, 900_001)];
    let mut sent: Vec<Sample> = Vec::new();
    for (now_ns, bytes) in readings {
        sent.extend(s.tick(now_ns, bytes, false));
    }
    let v = s.stop();
    assert_eq!(v, sent);
    assert_eq!(v.len(), 4);
    for i in 1..v.len() {
        assert!(v[i - 1].t_ns <= v[i].t_ns);
        assert!(v[i - 1].cumulative_bytes <= v[i].cumulative_bytes);
        let ns = v[i].t_ns - v[i - 1].t_ns;
        let exact = (v[i].cumulative_bytes - v[i - 1].cumulative_bytes) as u128 * BYTE_RATE as u128;
        if ns > 0 {
            assert!(v[i].rate * ns <= exact && exact < (v[i].rate + 1) * ns);
        } else {
            assert_eq!(v[i].rate, 0);
        }
    }
}

#[test]
fn the_fastest_phase_has_its_figures() {
    let fastest = u64::MAX as u128 * 8_000_000_000_000_000;
    let line = vec![at(1000, fastest), at(1100, fastest), at(1200, 0), at(1300, fastest)];
    let r = build_phase_report("download", 0, 0, 0, 1, line);
    assert_eq!(r.timeline_summary.max, fastest);
    assert_eq!(r.timeline_summary.p99, Ratio { whole: fastest, num: 0, den: 100 });
    assert_eq!(r.stable, Some(Ratio { whole: fastest / 2, num: fastest % 2, den: 2 }));
    assert_eq!(r.time_to_p90_ns, Some(1000 * MS));
    assert_eq!(r.time_to_saturation_ns, Some(1000 * MS));
}

#[test]
fn phase_report_of_a_ramp() {
    let r = build_phase_report("download", 25_000_000, 7, 1, 3_000 * MS, ramp());
    assert_eq!(r.label, "download");
    assert_eq!(r.duration_ns, 3_000 * MS);
    assert_eq!((r.total_bytes, r.requests, r.errors), (25_000_000, 7, 1));
    assert_eq!(r.mean_mbps, Ratio { whole: 0, num: 200_000_000_000, den: 3_000_000_000 });
    let s = r.timeline_summary;
    assert_eq!((s.count, s.min, s.max), (5, 50_000_000, 100_000_000));
    assert_eq!(s.mean, Ratio { whole: 88_000_000, num: 0, den: 5 });
    assert_eq!(s.p50, Ratio { whole: 100_000_000, num: 0, den: 100 });
    assert_eq!(r.stable, Some(Ratio { whole: 100_000_000, num: 0, den: 3 }));
    // Exactly 90% of the peak counts.
    assert_eq!(r.time_to_p90_ns, Some(1500 * MS));
    assert_eq!(r.time_to_saturation_ns, Some(2000 * MS));
    assert_eq!(r.timeline, ramp());
}

#[test]
fn exactly_95_percent_is_saturated() {
    let line = vec![at(1000, 95), at(1100, 100), at(1200, 100), at(1300, 100)];
    let r = build_phase_report("upload", 0, 0, 0, 1, line);
    assert_eq!(r.stable, Some(Ratio { whole: 100, num: 0, den: 2 }));
    assert_eq!(r.time_to_saturation_ns, Some(1000 * MS));
    let line = vec![at(1000, 94), at(1100, 100), at(1200, 100), at(1300, 100)];
    let r = build_phase_report("upload", 0, 0, 0, 1, line);
    assert_eq!(r.time_to_saturation_ns, Some(1100 * MS));
}

#[test]
fn times_are_sought_from_the_very_start() {
    let line = vec![at(100, 500), at(1000, 100), at(1100, 100), at(1200, 100), at(1300, 100)];
    let r = build_phase_report("download", 0, 0, 0, 1, line);
    assert_eq!(r.time_to_p90_ns, Some(100 * MS));
    assert_eq!(r.time_to_saturation_ns, Some(100 * MS));
}

#[test]
fn the_warm_up_does_not_count() {
    let r = build_phase_report("download", 9, 1, 0, 900 * MS, vec![at(500, 10), at(999, 20)]);
    assert_eq!(r.timeline_summary.count, 0);
    assert_eq!(r.timeline_summary.max, 0);
    assert_eq!(r.stable, None);
    assert_eq!(r.time_to_p90_ns, None);
    assert_eq!(r.time_to_saturation_ns, None);
    assert_eq!(r.timeline.len(), 2);
}

#[test]
fn a_peak_and_a_stable_rate_are_reached() {
    let line: Vec<Sample> = (0..40u128).map(|i| at(100 * i, 1 + i * 37 % 101)).collect();
    let r = build_phase_report("download", 1, 1, 0, 4_000 * MS, line);
    assert!(r.timeline_summary.max > 0 && r.time_to_p90_ns.is_some());
    assert!(r.stable.is_some() && r.time_to_saturation_ns.is_some());
}

#[test]
fn an_idle_phase_has_no_times() {
    let line = vec![at(1000, 0), at(1100, 0), at(1200, 0), at(1300, 0)];
    let r = build_phase_report("download", 0, 1, 1, 0, line);
    assert_eq!(r.mean_mbps, Ratio { whole: 0, num: 0, den: 1 });
    assert_eq!(r.stable, Some(Ratio { whole: 0, num: 0, den: 2 }));
    assert_eq!(r.time_to_p90_ns, None);
    assert_eq!(r.time_to_saturation_ns, None);
}

#[test]
fn the_stable_rate_needs_four_samples() {
    assert_eq!(stable_rate(&vec![1, 2, 3]), None);
    assert_eq!(stable_rate(&vec![1, 2, 3, 4]), Some(Ratio { whole: 3, num: 1, den: 2 }));
    assert_eq!(stable_rate(&vec![1, 2, 3, 4, 5]), Some(Ratio { whole: 4, num: 0, den: 3 }));
}

#[test]
fn a_phase_cancelled_under_way_keeps_its_bytes() {
    let t = Totals { bytes: 100, requests: 4, errors: 2 };
    let done = finish_phase(PhaseKind::Download, Some(t), 90, 1000 * MS, vec![]);
    assert_eq!(done.label, "download");
    assert_eq!((done.total_bytes, done.requests, done.errors), (100, 4, 2));
    let cut = finish_phase(PhaseKind::Upload, None, 90, 500 * MS, vec![]);
    assert_eq!(cut.label, "upload");
    assert_eq!((cut.total_bytes, cut.requests, cut.errors), (90, 0, 0));
    assert_eq!(cut.duration_ns, 500 * MS);
}
