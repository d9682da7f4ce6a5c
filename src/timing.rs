//! Splits the observed timing of a relay call into duration, latency,
//! processing and transfer. All times are microseconds; the epoch timestamps
//! exchanged with the server are milliseconds.
use vstd::prelude::*;
use crate::classify::header_value;
use crate::headers::{find_header, lower, well_keyed};
use crate::text::{parse_signed, signed_value};
use crate::types::{HeaderSchema, ResponsePerformance};

verus! {

/// The instants of one call on a single monotonic clock, in microseconds: the
/// call's start, the dispatch of the request, the arrival of the response
/// headers, and the end of the body.
#[derive(Debug, Clone, Copy)]
pub struct TimingMarks {
    pub call_start: u64,
    pub sent: u64,
    pub headers_received: u64,
    pub body_received: u64,
}

/// Marks in the order in which a call passes them.
pub open spec fn ordered(m: TimingMarks) -> bool {
    m.call_start <= m.sent <= m.headers_received <= m.body_received
}

/// Time from one mark to a later one; nothing when the clock did not advance.
pub open spec fn elapsed(from: u64, to: u64) -> int {
    if to >= from {
        to - from
    } else {
        0
    }
}

pub open spec fn clamp_u64(x: int) -> int {
    if x < 0 {
        0
    } else if x > u64::MAX {
        u64::MAX as int
    } else {
        x
    }
}

/// Latency and processing time from the time to first byte: from the server's
/// echoed receipt timestamp when there is one (twice the one-way delay, the
/// rest being processing), else by a bucketed estimate.
pub open spec fn split_ttfb(ttfb: int, server: Option<int>, client: int) -> (int, int) {
    match server {
        Some(s) => {
            let latency = clamp_u64((s - client) * 2 * 1000);
            (latency, if ttfb > latency { ttfb - latency } else { 0 })
        },
        None => if ttfb > 100000 {
            let latency = ttfb * 35 / 100;
            (latency, (ttfb - latency) * 75 / 100)
        } else if ttfb > 20000 {
            let latency = ttfb * 10 / 100;
            (latency, (ttfb - latency) * 70 / 100)
        } else {
            let latency = ttfb * 5 / 100;
            (latency, ttfb - latency)
        },
    }
}

/// The server's receipt timestamp echoed in `X-Server-Timestamp`, if it is an
/// integer.
pub open spec fn server_timestamp(hs: Seq<HeaderSchema>) -> Option<int> {
    match header_value(hs, "x-server-timestamp"@) {
        Some(v) => signed_value(v),
        None => None,
    }
}

/// The transfer encoding a response names, `identity` when it names none.
pub open spec fn encoding_of(hs: Seq<HeaderSchema>) -> Seq<char> {
    match header_value(hs, "transfer-encoding"@) {
        Some(v) => v,
        None => "identity"@,
    }
}

proof fn lemma_timing_keys()
    ensures
        lower("x-server-timestamp"@) == "x-server-timestamp"@,
        lower("transfer-encoding"@) == "transfer-encoding"@,
{
    reveal_strlit("x-server-timestamp");
    reveal_strlit("transfer-encoding");
    assert(lower("x-server-timestamp"@) =~= "x-server-timestamp"@);
    assert(lower("transfer-encoding"@) =~= "transfer-encoding"@);
}

fn elapsed_between(from: u64, to: u64) -> (r: u64)
    ensures
        r == elapsed(from, to),
{
    if to >= from {
        to - from
    } else {
        0
    }
}

/// Splits a time to first byte into latency and processing time.
pub fn split_first_byte(ttfb: u64, server: Option<i64>, client: i64) -> (r: (u64, u64))
    ensures
        (r.0 as int, r.1 as int) == split_ttfb(
            ttfb as int,
            match server {
                Some(s) => Some(s as int),
                None => None,
            },
            client as int,
        ),
{
    match server {
        Some(s) => {
            let round_trip: i128 = (s as i128 - client as i128) * 2000;
            let latency: u64 = if round_trip < 0 {
                0
            } else if round_trip > u64::MAX as i128 {
                u64::MAX
            } else {
                round_trip as u64
            };
            (latency, if ttfb > latency { ttfb - latency } else { 0 })
        },
        None => {
            let t = ttfb as u128;
            if ttfb > 100000 {
                let latency = t * 35 / 100;
                let processing = (t - latency) * 75 / 100;
                (latency as u64, processing as u64)
            } else if ttfb > 20000 {
                let latency = t * 10 / 100;
                let processing = (t - latency) * 70 / 100;
                (latency as u64, processing as u64)
            } else {
                let latency = t * 5 / 100;
                (latency as u64, (t - latency) as u64)
            }
        },
    }
}

/// The timing record of a call: duration from the call's start to the end of
/// the body, transfer from the headers to the end of the body, and the time to
/// first byte split into latency and processing; `transfer_size` is passed
/// through and the transfer encoding read from the response headers.
pub fn decompose_timing(
    marks: &TimingMarks,
    client_timestamp: i64,
    hs: &Vec<HeaderSchema>,
    transfer_size: usize,
) -> (r: ResponsePerformance)
    requires
        well_keyed(hs@),
    ensures
        r.duration == elapsed(marks.call_start, marks.body_received),
        r.transfer_time == elapsed(marks.headers_received, marks.body_received),
        (r.latency as int, r.processing_time as int) == split_ttfb(
            elapsed(marks.sent, marks.headers_received),
            server_timestamp(hs@),
            client_timestamp as int,
        ),
        r.transfer_size == transfer_size,
        r.transfer_encoding@ == encoding_of(hs@),
{
    proof { lemma_timing_keys(); }
    let server: Option<i64> = match find_header(hs, "x-server-timestamp") {
        Some(h) => parse_signed(h.value.as_str()),
        None => None,
    };
    let ttfb = elapsed_between(marks.sent, marks.headers_received);
    let (latency, processing_time) = split_first_byte(ttfb, server, client_timestamp);
    let transfer_encoding = match find_header(hs, "transfer-encoding") {
        Some(h) => h.value.clone(),
        None => {
            proof { reveal_strlit("identity"); }
            String::from_str("identity")
        },
    };
    ResponsePerformance {
        duration: elapsed_between(marks.call_start, marks.body_received),
        latency,
        processing_time,
        transfer_time: elapsed_between(marks.headers_received, marks.body_received),
        transfer_size,
        transfer_encoding,
    }
}

/// With marks in call order, the duration covers the time to first byte and the
/// transfer together, so it is never shorter than a delay the server adds
/// before it answers.
pub proof fn lemma_duration_covers_phases(m: TimingMarks)
    requires
        ordered(m),
    ensures
        elapsed(m.call_start, m.body_received) >= elapsed(m.sent, m.headers_received) + elapsed(
            m.headers_received,
            m.body_received,
        ),
        elapsed(m.call_start, m.body_received) >= elapsed(m.sent, m.headers_received),
{
}

/// Latency and processing are never negative, and the bucketed estimate never
/// claims more than the time to first byte.
pub proof fn lemma_split_within_first_byte(ttfb: int, server: Option<int>, client: int)
    requires
        ttfb >= 0,
    ensures
        split_ttfb(ttfb, server, client).0 >= 0,
        split_ttfb(ttfb, server, client).1 >= 0,
        server is None ==> split_ttfb(ttfb, server, client).0 + split_ttfb(ttfb, server, client).1
            <= ttfb,
{
    if server is None {
        if ttfb > 100000 {
            let l = ttfb * 35 / 100;
            assert(0 <= l <= ttfb) by (nonlinear_arith)
                requires
                    l == ttfb * 35 / 100,
                    ttfb >= 0,
            ;
            assert(0 <= (ttfb - l) * 75 / 100 <= ttfb - l) by (nonlinear_arith)
                requires
                    ttfb - l >= 0,
            ;
        } else if ttfb > 20000 {
            let l = ttfb * 10 / 100;
            assert(0 <= l <= ttfb) by (nonlinear_arith)
                requires
                    l == ttfb * 10 / 100,
                    ttfb >= 0,
            ;
            assert(0 <= (ttfb - l) * 70 / 100 <= ttfb - l) by (nonlinear_arith)
                requires
                    ttfb - l >= 0,
            ;
        } else {
            let l = ttfb * 5 / 100;
            assert(0 <= l <= ttfb) by (nonlinear_arith)
                requires
                    l == ttfb * 5 / 100,
                    ttfb >= 0,
            ;
        }
    }
}

} // verus!
