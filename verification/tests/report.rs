use speedt::metadata::Metadata;
use speedt::phase::build_phase_report;
use speedt::report::{
    bufferbloat_lines, format_summary_card, latency_rows, metadata_rows, phase_rows, sections,
    summary_card, LatencyReport, PhaseReport, Row, Section, SessionReport, Timestamp,
};
use speedt::sampler::{Sample, MEGABIT};
use speedt::stats::{BufferbloatGrade, LatencySummary, Ratio};
use speedt::text::{
    decimal, decimal2, fmt_bytes, fmt_clock, fmt_count, fmt_opt_mbps, fmt_opt_ms, fmt_opt_secs,
    same_text, Piece,
};

const SEC: u128 = 1_000_000_000;

fn rendered(line: &[Piece]) -> String {
    let mut s = String::new();
    for p in line {
        match p {
            Piece::Text(t) => s.push_str(t),
            Piece::Char(c) => s.push(*c),
            Piece::Num(n) => {
                let v = (n.value.whole as f64 + n.value.num as f64 / n.value.den as f64) / n.per as f64;
                s.push_str(&format!("{:>1$.2$}", v, n.width as usize, n.decimals as usize));
            }
            Piece::Double(d) => {
                let v = f64::from_bits(d.bits) / d.per as f64;
                s.push_str(&format!("{:>1$.2$}", v, d.width as usize, d.decimals as usize));
            }
            Piece::Percent(r) => s.push_str(&format!("{:.0}", r.num as f64 / r.den as f64 * 100.0)),
        }
    }
    s
}

fn table(rows: &[Row]) -> Vec<String> {
    rows.iter()
        .map(|r| {
            let cells: Vec<String> = r.cells.iter().map(|c| rendered(c)).collect();
            format!("{} | {}", r.label, cells.join(" | "))
        })
        .collect()
}

fn phase() -> PhaseReport {
    let at = |ms: u128, rate: u128| Sample {
        t_ns: ms * 1_000_000,
        rate,
        cumulative_bytes: 0,
    };
    let timeline = vec![
        at(500, 10 * MEGABIT as u128),
        at(1000, 50 * MEGABIT as u128),
        at(1500, 90 * MEGABIT as u128),
        at(2000, 100 * MEGABIT as u128),
        at(2500, 100 * MEGABIT as u128),
        at(3000, 100 * MEGABIT as u128),
    ];
    build_phase_report("download", 37_500_000, 7, 1, 3 * SEC, timeline)
}

fn no_latency() -> LatencyReport {
    LatencyReport {
        idle: None,
        loaded_download: None,
        loaded_upload: None,
        bufferbloat_download: None,
        bufferbloat_upload: None,
    }
}

fn report(latency: LatencyReport, download: Option<PhaseReport>, upload: Option<PhaseReport>) -> SessionReport {
    let t = Timestamp { secs: 0, nanos: 0 };
    SessionReport {
        mode: "deep",
        started_at: t,
        ended_at: t,
        metadata: Metadata::default(),
        latency,
        download,
        upload,
    }
}

#[test]
fn sections_are_shown_when_there_is_something_in_them() {
    assert_eq!(sections(&report(no_latency(), None, None)), vec![Section::Metadata]);
    let idle = LatencyReport {
        idle: Some(LatencySummary::from_micros(&vec![9])),
        ..no_latency()
    };
    assert_eq!(
        sections(&report(idle.clone(), None, None)),
        vec![Section::Metadata, Section::Latency, Section::Card]
    );
    let loaded = LatencyReport {
        loaded_upload: Some(LatencySummary::from_micros(&vec![9])),
        ..no_latency()
    };
    assert_eq!(sections(&report(loaded, None, None)), vec![Section::Metadata, Section::Latency]);
    assert_eq!(
        sections(&report(no_latency(), None, Some(phase()))),
        vec![Section::Metadata, Section::Upload, Section::Card]
    );
    assert_eq!(
        sections(&report(idle, Some(phase()), Some(phase()))),
        vec![
            Section::Metadata,
            Section::Latency,
            Section::Download,
            Section::Upload,
            Section::Card
        ]
    );
}

#[test]
fn the_metadata_table() {
    assert_eq!(
        table(&metadata_rows(&Metadata::default())),
        vec![
            "Client IP | -",
            "ISP / ASN | - (-)",
            "Geo | -, -, -",
            "Cloudflare colo | -",
            "HTTP | -",
            "TLS | -"
        ]
    );
    let mut md = Metadata::default();
    md.client_ip = Some("192.0.2.1".to_string());
    md.asn = Some(64500);
    md.as_organization = Some("Example Net".to_string());
    md.city = Some("Belgrade".to_string());
    md.country = Some("RS".to_string());
    md.colo = Some("BEG".to_string());
    md.http_protocol = Some("HTTP/2.0".to_string());
    md.tls = Some("TLSv1.3".to_string());
    assert_eq!(
        table(&metadata_rows(&md)),
        vec![
            "Client IP | 192.0.2.1",
            "ISP / ASN | Example Net (AS64500)",
            "Geo | Belgrade, -, RS",
            "Cloudflare colo | BEG",
            "HTTP | HTTP/2.0",
            "TLS | TLSv1.3"
        ]
    );
}

#[test]
fn the_latency_table() {
    let r = LatencyReport {
        idle: Some(LatencySummary::from_micros(&vec![1000, 2000, 2000])),
        ..no_latency()
    };
    assert_eq!(
        table(&latency_rows(&r)),
        vec![
            "idle | 3 | 1.00 ms | 2.00 ms | 2.00 ms | 2.00 ms | 2.00 ms | 0.47 ms",
            "under download | - | - | - | - | - | - | -",
            "under upload | - | - | - | - | - | - | -"
        ]
    );
}

#[test]
fn the_bufferbloat_lines() {
    let r = LatencyReport {
        bufferbloat_download: Some(BufferbloatGrade::from_added(12_345_000)),
        bufferbloat_upload: Some(BufferbloatGrade::from_added(250_000_000)),
        ..no_latency()
    };
    let lines: Vec<String> = bufferbloat_lines(&r).iter().map(|l| rendered(l)).collect();
    assert_eq!(
        lines,
        vec![
            "  Bufferbloat (download): +12.3 ms  →  grade B",
            "  Bufferbloat (upload):   +250.0 ms  →  grade F"
        ]
    );
    assert!(bufferbloat_lines(&no_latency()).is_empty());
}

#[test]
fn the_phase_table() {
    assert_eq!(
        table(&phase_rows(&phase())),
        vec![
            "mean | 100.00 Mbps",
            "p50 | 100.00 Mbps",
            "p75 | 100.00 Mbps",
            "p90 | 100.00 Mbps",
            "p95 | 100.00 Mbps",
            "p99 | 100.00 Mbps",
            "max | 100.00 Mbps",
            "min | 50.00 Mbps",
            "stdev | 19.39 Mbps",
            "stable (last 50%) | 100.00 Mbps",
            "time to saturation | 2.00 s",
            "time to 90% peak | 1.50 s",
            "bytes | 35.76 MiB",
            "duration | 3.00 s",
            "requests issued | 7",
            "errors | 1"
        ]
    );
    let bare = build_phase_report("upload", 0, 1, 0, SEC, vec![]);
    let rows = table(&phase_rows(&bare));
    assert_eq!(rows.len(), 13);
    assert_eq!(rows[8], "stdev | 0.00 Mbps");
    assert_eq!(rows[9], "bytes | 0.00 B");
}

#[test]
fn the_summary_card() {
    let empty = report(no_latency(), None, None);
    let card = summary_card(&empty);
    assert_eq!(card.idle_p50_us, 0);
    assert_eq!(
        rendered(&format_summary_card(card)),
        "  ⇣     0.00 Mbps   ⇡     0.00 Mbps   ping   0.0 ms   bufferbloat -"
    );
    let latency = LatencyReport {
        idle: Some(LatencySummary::from_micros(&vec![1500])),
        bufferbloat_download: Some(BufferbloatGrade::from_added(42_600_000)),
        ..no_latency()
    };
    let full = report(latency, Some(phase()), None);
    assert_eq!(
        rendered(&format_summary_card(summary_card(&full))),
        "  ⇣   100.00 Mbps   ⇡     0.00 Mbps   ping   1.5 ms   bufferbloat +43 ms (C)"
    );
}

#[test]
fn numbers_in_decimal() {
    assert_eq!(decimal(0), "0");
    assert_eq!(decimal(10), "10");
    assert_eq!(decimal(9_876_543_210), "9876543210");
    assert_eq!(decimal(u128::MAX), u128::MAX.to_string());
    assert_eq!(decimal2(0), "00");
    assert_eq!(decimal2(7), "07");
    assert_eq!(decimal2(42), "42");
    assert_eq!(decimal2(123), "123");
}

#[test]
fn texts_are_compared_as_a_whole() {
    assert!(same_text("", ""));
    assert!(same_text("tls", "tls"));
    assert!(!same_text("tls", "tl"));
    assert!(!same_text("tls", "tlz"));
    assert!(same_text("é", "é"));
}

#[test]
fn sizes_in_binary_units() {
    let size = |b: u64| rendered(&fmt_bytes(b, 2));
    assert_eq!(size(0), "0.00 B");
    assert_eq!(size(1023), "1023.00 B");
    assert_eq!(size(1024), "1.00 KiB");
    assert_eq!(size(1_048_575), "1024.00 KiB");
    assert_eq!(size(1_048_576), "1.00 MiB");
    assert_eq!(size(1 << 30), "1.00 GiB");
    assert_eq!(size(1 << 40), "1.00 TiB");
    assert_eq!(size(1 << 50), "1024.00 TiB");
    assert_eq!(rendered(&fmt_bytes(1536, 1)), "1.5 KiB");
}

#[test]
fn clocks_round_to_the_nearest_second() {
    assert_eq!(fmt_clock(0), "0:00");
    assert_eq!(fmt_clock(499_999_999), "0:00");
    assert_eq!(fmt_clock(500_000_000), "0:01");
    assert_eq!(fmt_clock(59 * SEC + 500_000_000), "1:00");
    assert_eq!(fmt_clock(65 * SEC), "1:05");
    assert_eq!(fmt_clock(3600 * SEC), "60:00");
    assert!(fmt_clock(u128::MAX).ends_with(":52"));
}

#[test]
fn what_is_missing_is_a_dash() {
    assert_eq!(fmt_count(0), "-");
    assert_eq!(fmt_count(12), "12");
    assert_eq!(rendered(&fmt_opt_mbps(None)), "-");
    assert_eq!(rendered(&fmt_opt_mbps(Some(Ratio { whole: 0, num: 25 * MEGABIT as u128, den: 2 }))), "12.50 Mbps");
    assert_eq!(rendered(&fmt_opt_secs(None)), "-");
    assert_eq!(rendered(&fmt_opt_secs(Some(1_250_000_000))), "1.2s");
    assert_eq!(rendered(&fmt_opt_ms(None)), "-");
    assert_eq!(rendered(&fmt_opt_ms(Some(12_340_000))), "12.3 ms");
}
