use speedt::cli::{
    default_log_filter, fits_clock, parse_duration, Cli, Command, DeepOpts, LatencyOpts, QuickOpts,
    ResolvedUiMode, UiMode, TOO_LARGE,
};
use speedt::config::{
    download_url, meta_url, trace_url, upload_url, DOWNLOAD_CHUNK_BYTES, LATENCY_BYTES,
    UPLOAD_CHUNK_BYTES,
};

fn cli(command: Command, json: bool, ui: UiMode) -> Cli {
    Cli { command, verbose: 0, json, ui }
}

#[test]
fn default_options() {
    let q = QuickOpts::default();
    assert_eq!((q.download_secs, q.upload_secs, q.latency_probes, q.streams), (12, 8, 20, 6));
    assert!(!q.no_upload);
    let d = DeepOpts::default();
    assert_eq!(d.duration_ns, parse_duration("5m").unwrap());
    assert_eq!((d.streams, d.latency_probes, d.sample_ms), (8, 60, 100));
    assert!(!d.no_upload && !d.no_bufferbloat);
    assert_eq!(LatencyOpts::default(), LatencyOpts { probes: 50, spacing_ms: 100 });
}

#[test]
fn json_forces_plain_output() {
    for ui in [UiMode::Auto, UiMode::Tui, UiMode::Plain] {
        let c = cli(Command::Info, true, ui);
        assert_eq!(c.resolved_ui(true, true), ResolvedUiMode::Plain);
    }
}

#[test]
fn auto_needs_two_terminals() {
    let c = cli(Command::Info, false, UiMode::Auto);
    assert_eq!(c.resolved_ui(true, true), ResolvedUiMode::Tui);
    assert_eq!(c.resolved_ui(true, false), ResolvedUiMode::Plain);
    assert_eq!(c.resolved_ui(false, true), ResolvedUiMode::Plain);
    assert_eq!(c.resolved_ui(false, false), ResolvedUiMode::Plain);
}

#[test]
fn a_forced_mode_ignores_the_terminal() {
    assert_eq!(cli(Command::Info, false, UiMode::Tui).resolved_ui(false, false), ResolvedUiMode::Tui);
    assert_eq!(cli(Command::Info, false, UiMode::Plain).resolved_ui(true, true), ResolvedUiMode::Plain);
}

#[test]
fn info_has_no_live_ui() {
    assert!(!cli(Command::Info, false, UiMode::Tui).shows_tui(true, true));
    let latency = Command::Latency(LatencyOpts::default());
    assert!(cli(latency, false, UiMode::Tui).shows_tui(false, false));
    assert!(!cli(latency, true, UiMode::Tui).shows_tui(true, true));
    assert!(!cli(latency, false, UiMode::Auto).shows_tui(true, false));
}

#[test]
fn verbosity_sets_the_log_level() {
    assert_eq!(default_log_filter(0), "speed_tester=warn,reqwest=warn");
    assert_eq!(default_log_filter(1), "speed_tester=info,reqwest=warn");
    assert_eq!(default_log_filter(2), "speed_tester=debug,reqwest=warn");
    assert_eq!(default_log_filter(3), "speed_tester=trace,reqwest=warn");
    assert_eq!(default_log_filter(255), "speed_tester=trace,reqwest=warn");
}

#[test]
fn durations_are_read() {
    assert_eq!(parse_duration("5m"), Ok(300_000_000_000));
    assert_eq!(parse_duration("300s"), Ok(300_000_000_000));
    assert_eq!(parse_duration("10m"), Ok(600_000_000_000));
    assert_eq!(parse_duration("2h 37min"), Ok(9_420_000_000_000));
    assert_eq!(parse_duration("32ms"), Ok(32_000_000));
    assert_eq!(parse_duration("0"), Ok(0));
    assert_eq!(parse_duration("1.5h"), Ok(5_400_000_000_000));
}

#[test]
fn durations_that_cannot_be_read() {
    assert_eq!(parse_duration(""), Err("value was empty".to_string()));
    assert_eq!(parse_duration("abc"), Err("expected number at 0".to_string()));
    assert_eq!(
        parse_duration("5"),
        Err("time unit needed, for example 5sec or 5ms".to_string())
    );
    assert_eq!(parse_duration("5/s"), Err("invalid character at 1".to_string()));
    assert!(parse_duration("5 parsecs").unwrap_err().starts_with("unknown time unit \"parsecs\""));
    assert_eq!(parse_duration("99999999999999999999s"), Err(TOO_LARGE.to_string()));
}

#[test]
fn durations_near_the_end_of_the_range() {
    let second: u128 = 1_000_000_000;
    let most = u64::MAX as u128 * second;
    assert_eq!(parse_duration("18446744073709551615s"), Ok(most));
    assert_eq!(parse_duration("18446744073709551615.5s"), Ok(most + second / 2));
    assert_eq!(parse_duration("18446744073709551615s 999ms 999us 999ns"), Ok(most + second - 1));
    assert_eq!(parse_duration("18446744073709551614s 0.5s 0.5s"), Ok(most));
    assert_eq!(parse_duration("307445734561825860m 15s"), Ok(most));
    assert_eq!(parse_duration("18446744073709551615ns 1s"), Ok(18_446_744_074_709_551_615));
    for text in [
        "18446744073709551615s 2s",
        "18446744073709551615s1s",
        "18446744073709551614s 2000ms",
        "5124095576030431h 10s 6s",
        "584554049253y 584554049253y",
        "18446744073709551615s 1000.5ns",
    ] {
        assert!(fits_clock(text), "{}", text);
        assert_eq!(parse_duration(text), Err(TOO_LARGE.to_string()), "{}", text);
    }
}

#[test]
fn durations_that_overrun_the_clock() {
    for text in [
        "18446744073709551615s 1000ms",
        "18446744073709551615s1000ms",
        "18446744073709551615s 0.5s 0.5s",
        "18446744073709551615s 500 millis 500msec",
        "18446744073709551615s 999ms 999\u{b5}s 1000ns",
        "18446744073709551615s\u{3000}1000000 usec 5x",
        "307445734561825860min 15s 1 0 0 0 ms",
    ] {
        assert!(!fits_clock(text), "{}", text);
        assert_eq!(parse_duration(text), Err(TOO_LARGE.to_string()));
    }
}

#[test]
fn what_is_wrong_before_the_clock_overruns_is_told() {
    let most = "18446744073709551615s";
    assert_eq!(parse_duration(&format!("{} 1000ms.", most)), Err("invalid character at 28".to_string()));
    assert_eq!(parse_duration(&format!("{} 1000ms/", most)), Err("invalid character at 28".to_string()));
    assert_eq!(parse_duration(&format!("{} x 1000ms", most)), Err("expected number at 22".to_string()));
    assert_eq!(parse_duration(&format!("{} 1000", most)), Err("time unit needed, for example 1000sec or 1000ms".to_string()));
    assert!(parse_duration(&format!("{} 1000msx", most)).unwrap_err().starts_with("unknown time unit \"msx\""));
    assert!(parse_duration(&format!("{} 1x 1000ms", most)).unwrap_err().starts_with("unknown time unit \"x\""));
    assert_eq!(parse_duration("18446744073709551616s 1000ms"), Err(TOO_LARGE.to_string()));
}

#[test]
fn every_unit_is_known_by_its_names() {
    // A number of the unit and some seconds come to a second below the end of the clock,
    // which a thousand milliseconds then overrun.
    let end: u128 = 18_446_744_073_709_551_616;
    for (names, secs) in [
        (vec!["seconds", "second", "secs", "sec", "s"], 1u128),
        (vec!["minutes", "minute", "min", "mins", "m"], 60),
        (vec!["hours", "hour", "hr", "hrs", "h"], 3600),
        (vec!["days", "day", "d"], 86_400),
        (vec!["weeks", "week", "wk", "wks", "w"], 604_800),
        (vec!["months", "month", "M"], 2_630_016),
        (vec!["years", "year", "yr", "yrs", "y"], 31_557_600),
    ] {
        for name in names {
            let n = (end - 1) / secs;
            let text = format!("{}{} {}s", n, name, end - 1 - n * secs);
            assert_eq!(parse_duration(&text), Ok((end - 1) * 1_000_000_000), "{}", text);
            assert!(!fits_clock(&format!("{} 1000ms", text)), "{}", text);
        }
    }
    for (names, of) in [
        (vec!["nanos", "nsec", "ns"], 1u64),
        (vec!["usec", "us", "\u{b5}s"], 1_000),
        (vec!["millis", "msec", "ms"], 1_000_000),
    ] {
        for name in names {
            let text = format!("18446744073709551615s {}{}", 1_000_000_000 / of, name);
            assert!(!fits_clock(&text), "{}", text);
            let text = format!("18446744073709551615s {}{}", 1_000_000_000 / of - 1, name);
            assert!(parse_duration(&text).is_ok(), "{}", text);
        }
    }
}

#[test]
fn white_space_is_that_of_unicode() {
    for code in 0..=0x10_ffffu32 {
        if let Some(c) = char::from_u32(code) {
            // White space separates, so the clock overruns; other characters end the reading,
            // or belong to a name, a number or a fraction.
            let text = format!("18446744073709551615s{}1000ms", c);
            let overruns = c.is_whitespace() || c == '0';
            assert_eq!(!fits_clock(&text), overruns, "{:?}", c);
        }
    }
}

#[test]
fn addresses_of_the_backend() {
    assert_eq!(download_url(0), "https://speed.cloudflare.com/__down?bytes=0");
    assert_eq!(download_url(LATENCY_BYTES), "https://speed.cloudflare.com/__down?bytes=0");
    assert_eq!(
        download_url(DOWNLOAD_CHUNK_BYTES),
        "https://speed.cloudflare.com/__down?bytes=26214400"
    );
    assert_eq!(
        download_url(u64::MAX),
        "https://speed.cloudflare.com/__down?bytes=18446744073709551615"
    );
    assert_eq!(upload_url(), "https://speed.cloudflare.com/__up");
    assert_eq!(trace_url(), "https://speed.cloudflare.com/cdn-cgi/trace");
    assert_eq!(meta_url(), "https://speed.cloudflare.com/meta");
    assert_eq!(UPLOAD_CHUNK_BYTES, 4_194_304);
}
