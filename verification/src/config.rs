//! Endpoints and sizes of the speed-test backend.

use vstd::prelude::*;

use crate::text;

verus! {

/// Cloudflare's public speed-test backend.
pub const HOST: &'static str = "https://speed.cloudflare.com";

/// `?bytes=N` returns N zero-filled bytes.
pub const DOWNLOAD_PATH: &'static str = "/__down";

/// Accepts a body of arbitrary size; discards it.
pub const UPLOAD_PATH: &'static str = "/__up";

/// Returns connection metadata (colo, country, client IP, ...).
pub const TRACE_PATH: &'static str = "/cdn-cgi/trace";

/// Returns ISP, ASN and location as JSON.
pub const META_PATH: &'static str = "/meta";

/// Tiny payload for latency probes: still a real HTTP round trip.
pub const LATENCY_BYTES: u64 = 0;

/// Size of one download request. The backend caps `__down` at a few hundred MB; requests
/// are issued again as streams complete.
pub const DOWNLOAD_CHUNK_BYTES: u64 = 25 * 1024 * 1024;

/// Size of one upload request. Small enough to be issued often, and so that what is left
/// after the deadline is bounded.
pub const UPLOAD_CHUNK_BYTES: usize = 4 * 1024 * 1024;

/// Where a download of `bytes` bytes is requested.
#[must_use]
pub fn download_url(bytes: u64) -> (url: String)
    ensures
        url@ == HOST@ + DOWNLOAD_PATH@ + "?bytes="@ + text::dec(bytes as nat),
{
    let mut url = HOST.to_owned();
    url.append(DOWNLOAD_PATH);
    url.append("?bytes=");
    url.append(text::decimal(bytes as u128).as_str());
    url
}

/// Where uploads are posted.
#[must_use]
pub fn upload_url() -> (url: String)
    ensures
        url@ == HOST@ + UPLOAD_PATH@,
{
    let mut url = HOST.to_owned();
    url.append(UPLOAD_PATH);
    url
}

/// Where the connection trace is read.
#[must_use]
pub fn trace_url() -> (url: String)
    ensures
        url@ == HOST@ + TRACE_PATH@,
{
    let mut url = HOST.to_owned();
    url.append(TRACE_PATH);
    url
}

/// Where the connection metadata is read.
#[must_use]
pub fn meta_url() -> (url: String)
    ensures
        url@ == HOST@ + META_PATH@,
{
    let mut url = HOST.to_owned();
    url.append(META_PATH);
    url
}

}
