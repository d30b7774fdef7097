# speedt

A command-line tool that measures internet speed and connection quality against
Cloudflare's public speed-test backend (`speed.cloudflare.com`).

- `quick`: a snapshot of about half a minute.
- `deep`: a session of five minutes with loaded latency, a bufferbloat grade,
  throughput percentiles, time to saturation, jitter and errors.
- `latency`: idle latency only.
- `info`: client IP, ISP, ASN and location of the backend.

## Layout

- `src/` is the measurement core, verified with Verus: the plan and the course of
  a session, the accounting of streams and probes, the throughput timeline, all
  statistics, the reports, and what the tables and the live screen show.
- `app/` is the program around it: arguments, HTTP, timers, the terminal, JSON.
- `tests/` holds concrete cases.

## Numbers

The core computes with integers. Times are nanoseconds, round-trip times are
microseconds, and a rate is counted in millionths of a bit per second, rounded
down. Means and percentiles are exact fractions of these, and a standard
deviation is rounded down to the same unit. Decimal digits are put to them only
when they are shown.

Latency summaries come from an `HdrHistogram` of three significant digits, which
`src/histogram.rs` wraps; what is claimed of it there is stated, not proved. The
same holds of `humantime`, which reads durations in `src/cli.rs`.
