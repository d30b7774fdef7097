use speedt::config::UPLOAD_CHUNK_BYTES;
use speedt::download::{on_event, Effect, StreamAction, StreamEvent};
use speedt::latency::{
    expected_loaded_probes, loaded_kind, loaded_window_ns, probes_on, ProbeRun, LOADED_SPACING_MS,
    LOADED_WARMUP_NS, SECOND,
};
use speedt::ui::{PhaseKind, ProbeKind};
use speedt::upload::{content_length, next_body_chunk, on_upload_end, BodyChunk, BODY_CHUNK_BYTES};

fn counted(events: &[StreamEvent]) -> (u64, u64, u64) {
    let mut total = (0, 0, 0);
    for e in events {
        let f = on_event(*e);
        total = (total.0 + f.bytes, total.1 + f.requests, total.2 + f.errors);
    }
    total
}

#[test]
fn effects_of_download_events() {
    let send = |requests: u64, errors: u64| Effect {
        bytes: 0,
        requests,
        errors,
        next: StreamAction::Send,
    };
    assert_eq!(on_event(StreamEvent::Opened), send(1, 0));
    assert_eq!(on_event(StreamEvent::SendFailed), send(1, 1));
    assert_eq!(on_event(StreamEvent::ChunkFailed), send(1, 1));
    assert_eq!(on_event(StreamEvent::BodyEnded), send(1, 0));
    let read = |bytes: u64| Effect { bytes, requests: 0, errors: 0, next: StreamAction::Read };
    assert_eq!(on_event(StreamEvent::Response), read(0));
    assert_eq!(on_event(StreamEvent::Chunk(77)), read(77));
}

#[test]
fn a_download_stream_counts_what_arrives() {
    let events = [
        StreamEvent::Opened,
        StreamEvent::Response,
        StreamEvent::Chunk(1000),
        StreamEvent::Chunk(500),
        StreamEvent::BodyEnded,
        StreamEvent::SendFailed,
        StreamEvent::Response,
        StreamEvent::Chunk(7),
        StreamEvent::ChunkFailed,
    ];
    assert_eq!(counted(&events), (1507, 4, 2));
}

#[test]
fn an_upload_that_ends_starts_the_next() {
    assert_eq!(
        on_upload_end(true),
        Effect { bytes: 0, requests: 1, errors: 0, next: StreamAction::Send }
    );
    assert_eq!(
        on_upload_end(false),
        Effect { bytes: 0, requests: 1, errors: 1, next: StreamAction::Send }
    );
}

#[test]
fn an_upload_stream_has_more_requests_than_errors() {
    let mut requests = 1;
    let mut errors = 0;
    for ok in [false, false, true, false] {
        let e = on_upload_end(ok);
        requests += e.requests;
        errors += e.errors;
    }
    assert_eq!((requests, errors), (5, 3));
}

#[test]
fn an_upload_stream_counts_whole_pieces() {
    let (mut bytes, mut requests, mut sent) = (0usize, 1u64, 0usize);
    // How many pieces each upload is asked for before it ends.
    for asked in [16usize, 3, 0, 20] {
        for _ in 0..asked {
            if let Some(chunk) = next_body_chunk(sent) {
                bytes += chunk.bytes;
                sent = chunk.sent;
            }
        }
        requests += on_upload_end(asked >= 16).requests;
        sent = 0;
        assert_eq!(bytes % 262_144, 0);
        assert!(bytes <= requests as usize * UPLOAD_CHUNK_BYTES);
    }
    assert_eq!((bytes, requests), (35 * 262_144, 5));
}

#[test]
fn an_upload_body_is_as_long_as_announced() {
    let mut sent = 0usize;
    let mut pieces = 0;
    while let Some(chunk) = next_body_chunk(sent) {
        assert_eq!(chunk, BodyChunk { bytes: BODY_CHUNK_BYTES, sent: sent + BODY_CHUNK_BYTES });
        sent = chunk.sent;
        pieces += 1;
    }
    assert_eq!(pieces, 16);
    assert_eq!(sent, UPLOAD_CHUNK_BYTES);
    assert_eq!(content_length(), sent.to_string());
    assert_eq!(next_body_chunk(usize::MAX), None);
}

#[test]
fn a_probe_run_ends_after_its_probes() {
    let mut run = ProbeRun::new(3);
    assert!(run.begin(false));
    assert!(run.end(Some(100)));
    assert!(run.begin(false));
    // A failed probe is not waited for.
    assert!(!run.end(None));
    assert!(run.begin(false));
    assert!(run.end(Some(300)));
    assert!(!run.begin(false));
    assert_eq!(run.samples, vec![100, 300]);
    assert_eq!(run.begun, 3);
}

#[test]
fn a_cancelled_probe_run_stops_at_the_next_probe() {
    let mut run = ProbeRun::new(10);
    assert!(run.begin(false));
    run.end(Some(5));
    assert!(!run.begin(true));
    assert_eq!(run.samples, vec![5]);
    assert!(!ProbeRun::new(0).begin(false));
}

#[test]
fn probes_under_load_keep_clear_of_both_ends() {
    assert_eq!(LOADED_WARMUP_NS, 2 * SECOND);
    assert_eq!(LOADED_SPACING_MS, 250);
    assert_eq!(loaded_window_ns(10 * SECOND), 7 * SECOND);
    assert_eq!(loaded_window_ns(3 * SECOND), 0);
    assert_eq!(loaded_window_ns(0), 0);
    assert!(probes_on(4, 5, false));
    assert!(!probes_on(5, 5, false));
    assert!(!probes_on(4, 5, true));
}

#[test]
fn probes_under_load_are_named_after_their_phase() {
    assert_eq!(loaded_kind(PhaseKind::Download), ProbeKind::LoadedDownload);
    assert_eq!(loaded_kind(PhaseKind::Upload), ProbeKind::LoadedUpload);
}

#[test]
fn expected_probes_under_load() {
    assert_eq!(expected_loaded_probes(135 * SECOND), 520);
    assert_eq!(expected_loaded_probes(5 * SECOND), 0);
    assert_eq!(expected_loaded_probes(4 * SECOND), 0);
    assert_eq!(expected_loaded_probes(5 * SECOND + 249_999_999), 0);
    assert_eq!(expected_loaded_probes(5 * SECOND + 250_000_000), 1);
    assert_eq!(expected_loaded_probes(u128::MAX), u32::MAX);
    for secs in 0..100u128 {
        let n = expected_loaded_probes(secs * SECOND) as u128;
        assert!(n * 250_000_000 <= loaded_window_ns(secs * SECOND));
    }
}
