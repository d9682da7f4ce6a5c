//! Assembles the relayed response from what came back, and wraps the outcome of
//! a call into its envelope.
use vstd::prelude::*;
use vstd::utf8::*;
use crate::classify::header_value;
use crate::error::{error_message, RelayError};
use crate::headers::{find_header, keyed_like, lower, normalize_headers, pairs_view, well_keyed};
use crate::text::{bytes_as_chars, lemma_ascii_bytes_decode, utf8_string};
use crate::timing::{decompose_timing, elapsed, encoding_of, server_timestamp, split_ttfb, TimingMarks};
use crate::types::{HeaderSchema, RelayResponse, Response};

verus! {

/// A header value byte that reads as text: a tab or visible ASCII.
pub open spec fn visible_byte(b: u8) -> bool {
    b == 9 || (32 <= b && b < 127)
}

/// The text of a received header value: its characters when every byte is a
/// tab or visible ASCII, else empty.
pub open spec fn value_text(b: Seq<u8>) -> Seq<char> {
    if forall|i: int| 0 <= i < b.len() ==> visible_byte(#[trigger] b[i]) {
        bytes_as_chars(b)
    } else {
        Seq::empty()
    }
}

/// Received (name, value bytes) pairs as (name, value text) pairs.
pub open spec fn received_view(raw: Seq<(String, Vec<u8>)>) -> Seq<(Seq<char>, Seq<char>)> {
    raw.map_values(|p: (String, Vec<u8>)| (p.0@, value_text(p.1@)))
}

/// The text of a received header value.
pub fn header_value_text(b: &Vec<u8>) -> (r: String)
    ensures
        r@ == value_text(b@),
{
    let mut i: usize = 0;
    while i < b.len()
        invariant
            0 <= i <= b@.len(),
            forall|k: int| 0 <= k < i ==> visible_byte(#[trigger] b@[k]),
        decreases b@.len() - i,
    {
        if !(b[i] == 9 || (32 <= b[i] && b[i] < 127)) {
            return String::new();
        }
        i = i + 1;
    }
    proof { lemma_ascii_bytes_decode(b@); }
    match utf8_string(b.clone()) {
        Some(s) => s,
        None => String::new(),
    }
}

/// The header set of a response, keyed by lower-cased name; a value that is
/// not visible ASCII reads as empty.
pub fn response_headers(raw: &Vec<(String, Vec<u8>)>) -> (r: Vec<HeaderSchema>)
    ensures
        keyed_like(r@, received_view(raw@)),
{
    let mut pairs: Vec<(String, String)> = Vec::new();
    let mut i: usize = 0;
    while i < raw.len()
        invariant
            0 <= i <= raw@.len(),
            pairs_view(pairs@) =~= received_view(raw@).subrange(0, i as int),
        decreases raw@.len() - i,
    {
        let ghost prev = pairs@;
        let name = raw[i].0.clone();
        let value = header_value_text(&raw[i].1);
        pairs.push((name, value));
        proof {
            assert(pairs@ =~= prev.push((name, value)));
            assert(pairs_view(pairs@) =~= pairs_view(prev).push((name@, value@)));
        }
        i = i + 1;
    }
    assert(received_view(raw@).subrange(0, raw@.len() as int) =~= received_view(raw@));
    normalize_headers(&pairs)
}

/// Position of the first `;` at or after `i`, or the length when there is none.
pub open spec fn cut_at(s: Seq<char>, i: int) -> int
    decreases s.len() - i,
{
    if i >= s.len() {
        s.len() as int
    } else if s[i] == ';' {
        i
    } else {
        cut_at(s, i + 1)
    }
}

/// A content type without its parameters: the text before the first `;`.
pub open spec fn media_type(s: Seq<char>) -> Seq<char> {
    s.subrange(0, cut_at(s, 0))
}

/// The content type without its parameters.
pub fn media_type_of(s: &str) -> (r: String)
    ensures
        r@ == media_type(s@),
{
    let n = s.unicode_len();
    let mut i: usize = 0;
    while i < n && s.get_char(i) != ';'
        invariant
            n == s@.len(),
            0 <= i <= n,
            cut_at(s@, 0) == cut_at(s@, i as int),
        decreases n - i,
    {
        i = i + 1;
    }
    assert(cut_at(s@, i as int) == i);
    String::from_str(s.substring_char(0, i))
}

/// The content type a header set names, without its parameters.
pub open spec fn content_type_of(hs: Seq<HeaderSchema>) -> Option<Seq<char>> {
    match header_value(hs, "content-type"@) {
        Some(v) => Some(media_type(v)),
        None => None,
    }
}

/// The text of a response body: its characters when it is valid UTF-8, else a
/// fixed placeholder.
pub open spec fn body_text(b: Seq<u8>) -> Seq<char> {
    if valid_utf8(b) {
        decode_utf8(b)
    } else {
        "[Binary data]"@
    }
}

/// Decodes a response body; bytes that are not UTF-8 give the placeholder
/// `[Binary data]` rather than a failure.
pub fn decode_body(bytes: Vec<u8>) -> (r: String)
    ensures
        r@ == body_text(bytes@),
{
    match utf8_string(bytes) {
        Some(s) => s,
        None => String::from_str("[Binary data]"),
    }
}

/// What the response of a call holds: the status code and header set as
/// received, the decoded body, the content type without parameters, and the
/// timing split; the transfer size is the byte length of the decoded body.
pub open spec fn assembled_as(
    status: u16,
    headers: Seq<HeaderSchema>,
    body: Seq<u8>,
    marks: TimingMarks,
    client_timestamp: i64,
    r: Response,
) -> bool {
    &&& r.status_code == status
    &&& r.headers@ == headers
    &&& r.content@ == body_text(body)
    &&& (r.content_type matches Some(ct) ==> content_type_of(headers) == Some(ct@))
    &&& (r.content_type is None ==> content_type_of(headers) is None)
    &&& r.performance.duration == elapsed(marks.call_start, marks.body_received)
    &&& r.performance.transfer_time == elapsed(marks.headers_received, marks.body_received)
    &&& (r.performance.latency as int, r.performance.processing_time as int) == split_ttfb(
        elapsed(marks.sent, marks.headers_received),
        server_timestamp(headers),
        client_timestamp as int,
    )
    &&& r.performance.transfer_size == encode_utf8(r.content@).len()
    &&& r.performance.transfer_encoding@ == encoding_of(headers)
}

/// The response assembled from a status code, the response header set, the
/// body bytes and the timing marks; `transfer_size` is the byte length of the
/// decoded body.
pub fn assemble_response(
    status: u16,
    headers: Vec<HeaderSchema>,
    body: Vec<u8>,
    marks: &TimingMarks,
    client_timestamp: i64,
) -> (r: Response)
    requires
        well_keyed(headers@),
    ensures
        assembled_as(status, headers@, body@, *marks, client_timestamp, r),
{
    let ghost bytes = body@;
    let body_len = body.len();
    let content = decode_body(body);
    proof {
        assert(bytes.len() == body_len);
        if valid_utf8(bytes) {
            decode_utf8_encode_utf8(bytes);
        } else {
            reveal_strlit("[Binary data]");
            assert(is_ascii_chars("[Binary data]"@));
            is_ascii_chars_encode_utf8("[Binary data]"@);
        }
    }
    let size = content.as_str().len();
    proof {
        reveal_strlit("content-type");
        assert(lower("content-type"@) =~= "content-type"@);
    }
    let content_type = match find_header(&headers, "content-type") {
        Some(h) => Some(media_type_of(h.value.as_str())),
        None => None,
    };
    let performance = decompose_timing(marks, client_timestamp, &headers, size);
    Response { headers, content_type, status_code: status, content, performance }
}

/// The envelope of a call's outcome, stamped with its completion time.
pub fn into_envelope(outcome: Result<Response, RelayError>, timestamp: String) -> (r: RelayResponse)
    ensures
        r.timestamp@ == timestamp@,
        outcome matches Ok(resp) ==> r.status@ == "success"@ && r.response == Some(resp)
            && r.message is None,
        outcome matches Err(e) ==> r.status@ == "error"@ && r.response is None
            && (r.message matches Some(m) && m@ == error_message(e)),
{
    match outcome {
        Ok(resp) => RelayResponse {
            status: String::from_str("success"),
            response: Some(resp),
            message: None,
            timestamp,
        },
        Err(e) => RelayResponse {
            status: String::from_str("error"),
            response: None,
            message: Some(e.message()),
            timestamp,
        },
    }
}

/// A body that is valid UTF-8 is relayed exactly: the content encodes back to
/// the very bytes the server sent.
pub proof fn lemma_text_body_exact(b: Seq<u8>)
    requires
        valid_utf8(b),
    ensures
        encode_utf8(body_text(b)) == b,
{
    decode_utf8_encode_utf8(b);
}

/// Relaying the same exchange twice gives the same status code and content,
/// whatever the timing of each call.
pub proof fn lemma_outcome_ignores_timing(
    status: u16,
    headers: Seq<HeaderSchema>,
    body: Seq<u8>,
    marks1: TimingMarks,
    marks2: TimingMarks,
    client1: i64,
    client2: i64,
    r1: Response,
    r2: Response,
)
    requires
        assembled_as(status, headers, body, marks1, client1, r1),
        assembled_as(status, headers, body, marks2, client2, r2),
    ensures
        r1.status_code == r2.status_code,
        r1.content@ == r2.content@,
{
}

} // verus!
