//! Decides, from the response headers, whether a body is read incrementally or
//! buffered whole.
use vstd::prelude::*;
use crate::headers::{entry_of, find_header, lower, well_keyed};
use crate::text::{
    contains, contains_text, parse_unsigned, same_text, starts_with, starts_with_text, unsigned_value,
};
use crate::types::HeaderSchema;

verus! {

/// A declared body length above this many bytes (5 MiB) is read incrementally.
pub const STREAM_THRESHOLD: u64 = 5242880;

/// The value held in a header set under a lower-cased key.
pub open spec fn header_value(hs: Seq<HeaderSchema>, key: Seq<char>) -> Option<Seq<char>> {
    match entry_of(hs, key) {
        Some(p) => Some(p.1),
        None => None,
    }
}

/// A content type whose payload is inherently incremental.
pub open spec fn incremental_type(ct: Seq<char>) -> bool {
    contains(ct, "text/event-stream"@) || contains(ct, "application/x-ndjson"@) || contains(
        ct,
        "application/jsonl"@,
    )
}

/// A single JSON document.
pub open spec fn json_document(ct: Seq<char>) -> bool {
    ct == "application/json"@ || starts_with(ct, "application/json;"@)
}

/// A content type that is read incrementally when it comes chunked.
pub open spec fn streamable_type(ct: Seq<char>) -> bool {
    contains(ct, "text/plain"@) || starts_with(ct, "text/"@) || contains(ct, "stream"@) || ct.len()
        == 0
}

/// The streaming decision over the content type (empty when absent), the
/// transfer encoding and the content length, first rule that matches winning.
pub open spec fn stream_rule(ct: Seq<char>, te: Option<Seq<char>>, cl: Option<Seq<char>>) -> bool {
    if incremental_type(ct) {
        true
    } else if te matches Some(t) && contains(t, "chunked"@) && cl is None {
        !json_document(ct) && streamable_type(ct)
    } else {
        match cl {
            Some(l) => match unsigned_value(l) {
                Some(n) => n > STREAM_THRESHOLD,
                None => false,
            },
            None => false,
        }
    }
}

/// The streaming decision for a response header set.
pub open spec fn streams(hs: Seq<HeaderSchema>) -> bool {
    let ct = match header_value(hs, "content-type"@) {
        Some(v) => v,
        None => Seq::empty(),
    };
    stream_rule(ct, header_value(hs, "transfer-encoding"@), header_value(hs, "content-length"@))
}

proof fn lemma_keys_are_lower()
    ensures
        lower("content-type"@) == "content-type"@,
        lower("transfer-encoding"@) == "transfer-encoding"@,
        lower("content-length"@) == "content-length"@,
{
    reveal_strlit("content-type");
    reveal_strlit("transfer-encoding");
    reveal_strlit("content-length");
    assert(lower("content-type"@) =~= "content-type"@);
    assert(lower("transfer-encoding"@) =~= "transfer-encoding"@);
    assert(lower("content-length"@) =~= "content-length"@);
}

/// Whether a response with these headers is read incrementally: event streams
/// and JSON lines always; chunked bodies of unknown length unless they are a
/// single JSON document, when the type is textual, a stream or absent; and
/// bodies declared longer than 5 MiB.
pub fn should_stream(hs: &Vec<HeaderSchema>) -> (r: bool)
    requires
        well_keyed(hs@),
    ensures
        r == streams(hs@),
{
    proof { lemma_keys_are_lower(); }
    let ct: &str = match find_header(hs, "content-type") {
        Some(h) => h.value.as_str(),
        None => "",
    };
    proof { reveal_strlit(""); }
    assert(ct@ == match header_value(hs@, "content-type"@) {
        Some(v) => v,
        None => Seq::empty(),
    });
    if contains_text(ct, "text/event-stream") || contains_text(ct, "application/x-ndjson")
        || contains_text(ct, "application/jsonl") {
        return true;
    }
    let te = find_header(hs, "transfer-encoding");
    let cl = find_header(hs, "content-length");
    if let Some(t) = te {
        if contains_text(t.value.as_str(), "chunked") && cl.is_none() {
            let json = same_text(ct, "application/json") || starts_with_text(ct, "application/json;");
            return !json && (contains_text(ct, "text/plain") || starts_with_text(ct, "text/")
                || contains_text(ct, "stream") || ct.unicode_len() == 0);
        }
    }
    match cl {
        Some(l) => match parse_unsigned(l.value.as_str()) {
            Some(n) => n > STREAM_THRESHOLD,
            None => false,
        },
        None => false,
    }
}

/// A body declared longer than 5 MiB is always read incrementally, whatever
/// else the headers say.
pub proof fn lemma_large_body_streams(hs: Seq<HeaderSchema>, n: int)
    requires
        header_value(hs, "content-length"@) matches Some(l) && unsigned_value(l) == Some(n),
        n > STREAM_THRESHOLD,
    ensures
        streams(hs),
{
}

} // verus!
