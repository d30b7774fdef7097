//! Events that the engine emits for any UI.

use vstd::prelude::*;

use crate::metadata::Metadata;
use crate::report::{PhaseReport, SessionReport, Timestamp};
use crate::sampler::Sample;

pub mod theme;
pub mod tui;

verus! {

/// Which throughput phase an event refers to.
#[derive(Clone, Copy, Debug, PartialEq, Eq, Structural)]
pub enum PhaseKind {
    Download,
    Upload,
}

/// Which kind of latency probe an event carries.
#[derive(Clone, Copy, Debug, PartialEq, Eq, Structural)]
pub enum ProbeKind {
    Idle,
    LoadedDownload,
    LoadedUpload,
}

/// An event of the speed-test engine, for any consumer.
#[derive(Clone, Debug)]
pub enum UiEvent {
    SessionStarted {
        mode: &'static str,
        total_planned_ns: u128,
        metadata: Box<Metadata>,
        started_at: Timestamp,
        idle_probes_planned: u32,
        loaded_probes_planned: u64,
    },
    PhaseStarted { kind: PhaseKind, label: &'static str, planned_ns: u128 },
    Throughput(Sample),
    LatencyProbe { kind: ProbeKind, rtt_us: u64 },
    PhaseFinished(PhaseReport),
    SessionFinished(Box<SessionReport>),
    Error(String),
}

}
