//! Accounting of upload streams, and the body that each upload sends.

use vstd::prelude::*;

use crate::config::UPLOAD_CHUNK_BYTES;
use crate::download::{Effect, StreamAction};
use crate::text;

verus! {

/// Size of one piece of an upload body. It is near a kernel's TCP send buffer, so that the
/// byte counter follows the wire rate.
pub const BODY_CHUNK_BYTES: usize = 256 * 1024;

/// The effect of one upload coming to its end, well or not: the next one is issued.
pub fn on_upload_end(ok: bool) -> (e: Effect)
    ensures
        e == end_effect(ok),
{
    Effect {
        bytes: 0,
        requests: 1,
        errors: if ok {
            0
        } else {
            1
        },
        next: StreamAction::Send,
    }
}

/// The effect of an upload that ends.
pub open spec fn end_effect(ok: bool) -> Effect {
    Effect {
        bytes: 0,
        requests: 1,
        errors: if ok {
            0
        } else {
            1
        },
        next: StreamAction::Send,
    }
}

/// A piece of an upload body.
#[derive(Clone, Copy, Debug, PartialEq, Eq, Structural)]
pub struct BodyChunk {
    /// The bytes of the piece, which count when it is handed out.
    pub bytes: usize,
    /// The bytes of the body that are out with it.
    pub sent: usize,
}

/// The next piece of a body of which `sent` bytes are out, if there is one.
pub open spec fn chunk_after(sent: usize) -> Option<BodyChunk> {
    if sent >= UPLOAD_CHUNK_BYTES {
        None
    } else {
        Some(BodyChunk { bytes: BODY_CHUNK_BYTES, sent: (sent + BODY_CHUNK_BYTES) as usize })
    }
}

/// The next piece of a body of which `sent` bytes are out; none when the body is complete.
pub fn next_body_chunk(sent: usize) -> (r: Option<BodyChunk>)
    ensures
        r == chunk_after(sent),
{
    if sent >= UPLOAD_CHUNK_BYTES {
        return None;
    }
    Some(BodyChunk { bytes: BODY_CHUNK_BYTES, sent: sent + BODY_CHUNK_BYTES })
}

/// The bytes that a body still hands out when `sent` bytes are out.
pub open spec fn body_left(sent: usize) -> int
    decreases
            if sent < UPLOAD_CHUNK_BYTES {
                UPLOAD_CHUNK_BYTES - sent
            } else {
                0
            },
{
    match chunk_after(sent) {
        None => 0,
        Some(c) => c.bytes + body_left(c.sent),
    }
}

/// What happened to an upload stream.
pub enum UploadEvent {
    /// The body of the upload under way was asked for its next piece.
    Asked,
    /// The upload under way came to its end, well or not.
    Ended(bool),
}

/// What an upload stream has counted, and how much of the body under way is out.
pub struct UploadTally {
    pub bytes: int,
    pub requests: int,
    pub errors: int,
    pub sent: usize,
}

/// What a stream has counted after some events. The first request was counted when the
/// stream was opened.
pub open spec fn upload_tally(events: Seq<UploadEvent>) -> UploadTally
    decreases events.len(),
{
    if events.len() == 0 {
        UploadTally { bytes: 0, requests: 1, errors: 0, sent: 0 }
    } else {
        let t = upload_tally(events.drop_last());
        match events.last() {
            UploadEvent::Asked => match chunk_after(t.sent) {
                Some(c) => UploadTally { bytes: t.bytes + c.bytes, sent: c.sent, ..t },
                None => t,
            },
            UploadEvent::Ended(ok) => UploadTally {
                bytes: t.bytes + end_effect(ok).bytes,
                requests: t.requests + end_effect(ok).requests,
                errors: t.errors + end_effect(ok).errors,
                sent: 0,
            },
        }
    }
}

/// How many uploads have ended.
pub open spec fn ended(events: Seq<UploadEvent>) -> int
    decreases events.len(),
{
    if events.len() == 0 {
        0
    } else {
        ended(events.drop_last()) + (if events.last() is Ended {
            1int
        } else {
            0int
        })
    }
}

/// An open stream has counted each upload that ended and the one under way, and more
/// requests than errors. Its bytes are whole pieces, and no more than one body for each
/// request.
pub proof fn law_upload_accounting(events: Seq<UploadEvent>)
    ensures
        ({
            let t = upload_tally(events);
            &&& t.requests == ended(events) + 1
            &&& 0 <= t.errors < t.requests
            &&& t.bytes % (BODY_CHUNK_BYTES as int) == 0
            &&& 0 <= t.bytes <= t.requests * UPLOAD_CHUNK_BYTES
        }),
{
    lemma_upload_bytes(events);
    let t = upload_tally(events);
    assert((t.requests - 1) * UPLOAD_CHUNK_BYTES + UPLOAD_CHUNK_BYTES == t.requests
        * UPLOAD_CHUNK_BYTES) by (nonlinear_arith);
}

proof fn lemma_upload_bytes(events: Seq<UploadEvent>)
    ensures
        ({
            let t = upload_tally(events);
            &&& t.requests == ended(events) + 1
            &&& 0 <= t.errors < t.requests
            &&& t.bytes % (BODY_CHUNK_BYTES as int) == 0
            &&& t.sent % BODY_CHUNK_BYTES == 0
            &&& t.sent <= UPLOAD_CHUNK_BYTES
            &&& 0 <= t.bytes <= (t.requests - 1) * UPLOAD_CHUNK_BYTES + t.sent
        }),
    decreases events.len(),
{
    if events.len() > 0 {
        lemma_upload_bytes(events.drop_last());
        let t = upload_tally(events.drop_last());
        assert((t.requests - 1) * UPLOAD_CHUNK_BYTES + UPLOAD_CHUNK_BYTES == t.requests
            * UPLOAD_CHUNK_BYTES) by (nonlinear_arith);
    }
}

/// The `content-length` header of an upload.
pub fn content_length() -> (s: String)
    ensures
        s@ == text::dec(UPLOAD_CHUNK_BYTES as nat),
{
    text::decimal(UPLOAD_CHUNK_BYTES as u128)
}

/// A body hands out exactly as many bytes as its `content-length` announces.
pub proof fn law_body_matches_content_length()
    ensures
        body_left(0) == UPLOAD_CHUNK_BYTES,
{
    lemma_body_left(16);
}

proof fn lemma_body_left(pieces: nat)
    requires
        pieces <= 16,
    ensures
        body_left((UPLOAD_CHUNK_BYTES - pieces * BODY_CHUNK_BYTES) as usize) == pieces
            * BODY_CHUNK_BYTES,
    decreases pieces,
{
    if pieces > 0 {
        lemma_body_left((pieces - 1) as nat);
        let sent = (UPLOAD_CHUNK_BYTES - pieces * BODY_CHUNK_BYTES) as usize;
        assert(chunk_after(sent)->0.sent == (UPLOAD_CHUNK_BYTES - (pieces - 1)
            * BODY_CHUNK_BYTES) as usize);
    }
}

/// A body is handed out in pieces of 256 KiB until 4 MiB are out, and each piece moves it on
/// by as much as it counts.
pub proof fn law_body_pieces(sent: usize, ok: bool)
    ensures
        chunk_after(sent) is Some <==> sent < 4_194_304,
        chunk_after(sent) is Some ==> ({
            let c = chunk_after(sent)->0;
            c.bytes == 262_144 && c.sent == sent + c.bytes
        }),
        end_effect(ok).bytes == 0,
        end_effect(ok).requests == 1,
        end_effect(ok).errors == 0 <==> ok,
        end_effect(ok).errors <= 1,
        end_effect(ok).next == StreamAction::Send,
{
}

}
