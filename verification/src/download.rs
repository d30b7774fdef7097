//! Accounting of download streams.

use vstd::prelude::*;

verus! {

/// What a stream does next.
#[derive(Clone, Copy, Debug, PartialEq, Eq, Structural)]
pub enum StreamAction {
    /// Issue a request.
    Send,
    /// Read the next chunk of the response.
    Read,
}

/// What an event adds to the shared counters, and what the stream does next.
#[derive(Clone, Copy, Debug, PartialEq, Eq, Structural)]
pub struct Effect {
    pub bytes: u64,
    pub requests: u64,
    pub errors: u64,
    pub next: StreamAction,
}

/// What happened to a stream.
#[derive(Clone, Copy, Debug, PartialEq, Eq, Structural)]
pub enum StreamEvent {
    /// The stream was opened.
    Opened,
    /// A response arrived.
    Response,
    /// A request failed.
    SendFailed,
    /// A chunk of a response arrived, of so many bytes.
    Chunk(u64),
    /// A response broke off.
    ChunkFailed,
    /// A response was read to its end.
    BodyEnded,
}

/// The effect of an event. A request is counted when it is issued, and a stream issues the
/// next one as soon as a response has ended or failed.
pub open spec fn effect_of(event: StreamEvent) -> Effect {
    match event {
        StreamEvent::Opened => Effect {
            bytes: 0,
            requests: 1,
            errors: 0,
            next: StreamAction::Send,
        },
        StreamEvent::Response => Effect {
            bytes: 0,
            requests: 0,
            errors: 0,
            next: StreamAction::Read,
        },
        StreamEvent::SendFailed => Effect {
            bytes: 0,
            requests: 1,
            errors: 1,
            next: StreamAction::Send,
        },
        StreamEvent::Chunk(n) => Effect {
            bytes: n,
            requests: 0,
            errors: 0,
            next: StreamAction::Read,
        },
        StreamEvent::ChunkFailed => Effect {
            bytes: 0,
            requests: 1,
            errors: 1,
            next: StreamAction::Send,
        },
        StreamEvent::BodyEnded => Effect {
            bytes: 0,
            requests: 1,
            errors: 0,
            next: StreamAction::Send,
        },
    }
}

/// Decides what an event on a download stream amounts to.
pub fn on_event(event: StreamEvent) -> (e: Effect)
    ensures
        e == effect_of(event),
{
    match event {
        StreamEvent::Opened | StreamEvent::BodyEnded => Effect {
            bytes: 0,
            requests: 1,
            errors: 0,
            next: StreamAction::Send,
        },
        StreamEvent::Response => Effect {
            bytes: 0,
            requests: 0,
            errors: 0,
            next: StreamAction::Read,
        },
        StreamEvent::SendFailed | StreamEvent::ChunkFailed => Effect {
            bytes: 0,
            requests: 1,
            errors: 1,
            next: StreamAction::Send,
        },
        StreamEvent::Chunk(n) => Effect {
            bytes: n,
            requests: 0,
            errors: 0,
            next: StreamAction::Read,
        },
    }
}

/// The bytes, requests and errors of a stream after some events.
pub open spec fn tally(events: Seq<StreamEvent>) -> (int, int, int)
    decreases events.len(),
{
    if events.len() == 0 {
        (0, 0, 0)
    } else {
        let before = tally(events.drop_last());
        let e = effect_of(events.last());
        (before.0 + e.bytes, before.1 + e.requests, before.2 + e.errors)
    }
}

/// The bytes of all chunks that arrived.
pub open spec fn chunk_bytes(events: Seq<StreamEvent>) -> int
    decreases events.len(),
{
    if events.len() == 0 {
        0
    } else {
        chunk_bytes(events.drop_last()) + match events.last() {
            StreamEvent::Chunk(n) => n as int,
            _ => 0,
        }
    }
}

/// An open stream has counted every byte that arrived, and more requests than errors.
pub proof fn law_stream_accounting(events: Seq<StreamEvent>)
    requires
        events.len() > 0,
        events[0] == StreamEvent::Opened,
    ensures
        tally(events).0 == chunk_bytes(events),
        tally(events).2 < tally(events).1,
    decreases events.len(),
{
    let before = events.drop_last();
    if before.len() > 0 {
        law_stream_accounting(before);
    } else {
        assert(tally(before) == (0int, 0int, 0int));
        assert(chunk_bytes(before) == 0);
        assert(events.last() == events[0]);
    }
}

/// What each event counts for: chunks count their bytes and nothing else does; a request
/// counts when it is about to be sent; a failure counts as an error and nothing else does.
pub proof fn law_effects(event: StreamEvent)
    ensures
        ({
            let e = effect_of(event);
            let failed = event == StreamEvent::SendFailed || event == StreamEvent::ChunkFailed;
            &&& event matches StreamEvent::Chunk(n) ==> e.bytes == n
            &&& !(event is Chunk) ==> e.bytes == 0
            &&& e.next == StreamAction::Read <==> event is Chunk || event == StreamEvent::Response
            &&& e.requests == (if e.next == StreamAction::Send {
                1int
            } else {
                0
            })
            &&& e.errors == (if failed {
                1int
            } else {
                0
            })
        }),
{
}

}
