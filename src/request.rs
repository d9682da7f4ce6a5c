//! Turns a request description into the outbound request: the URL with its query
//! parameters, the header set, and the body.
use vstd::prelude::*;
use crate::error::RelayError;
use crate::headers::{
    entry_of, find_header, header_name_accepted, header_value_accepted, insert_header, keyed_like,
    last_pair, lower, normalize_headers, pairs_view, valid_header_name, valid_header_value,
};
use crate::text::{decimal_text, int_text};
use crate::types::{bodyless, scalar_text, HeaderSchema, Request, RequestMethod, ScalarValue};

verus! {

#[verifier::external_type_specification]
#[verifier::external_body]
pub struct ExParseError(url::ParseError);

/// Whether `url::Url::parse` accepts a text as an absolute URL.
pub uninterp spec fn url_accepted(s: Seq<char>) -> bool;

/// The serialization of the URL that `url::Url::parse` makes of `url`, after
/// one `append_pair` for each (key, value) pair, in order.
pub uninterp spec fn query_url(url: Seq<char>, pairs: Seq<(Seq<char>, Seq<char>)>) -> Seq<char>;

/// Relies on `url::Url::parse`, `Url::query_pairs_mut` with `append_pair`, and
/// `From<url::Url> for String`: parsing succeeds exactly on the texts it
/// accepts, and the serialization after the pairs are form-encoded and appended
/// depends on the text and the pairs alone. With no pairs the query is left
/// untouched.
#[verifier::external_body]
fn url_with_query(url: &str, pairs: &Vec<(String, String)>) -> (r: Result<String, url::ParseError>)
    ensures
        r is Ok <==> url_accepted(url@),
        r matches Ok(s) ==> s@ == query_url(url@, pairs_view(pairs@)),
{
    let mut u = url::Url::parse(url)?;
    for (key, value) in pairs {
        u.query_pairs_mut().append_pair(key, value);
    }
    Ok(u.into())
}

/// Relies on `Display for url::ParseError`: the description of a parse failure.
#[verifier::external_body]
fn parse_error_text(e: &url::ParseError) -> String {
    e.to_string()
}

/// The (key, text) pairs that a parameter list puts into the query string.
pub open spec fn query_view(params: Seq<(String, ScalarValue)>) -> Seq<(Seq<char>, Seq<char>)> {
    params.map_values(|p: (String, ScalarValue)| (p.0@, scalar_text(p.1)))
}

/// The query pairs of a parameter list, in the order given, each value in its
/// text form.
pub fn query_pairs(params: &Vec<(String, ScalarValue)>) -> (r: Vec<(String, String)>)
    ensures
        pairs_view(r@) == query_view(params@),
{
    let mut out: Vec<(String, String)> = Vec::new();
    let mut i: usize = 0;
    while i < params.len()
        invariant
            0 <= i <= params@.len(),
            pairs_view(out@) =~= query_view(params@).subrange(0, i as int),
        decreases params@.len() - i,
    {
        let key = params[i].0.clone();
        let value = params[i].1.to_text();
        let ghost prev = out@;
        out.push((key, value));
        proof {
            assert(out@ =~= prev.push((key, value)));
            assert(pairs_view(out@) =~= pairs_view(prev).push((key@, value@)));
        }
        i = i + 1;
    }
    assert(query_view(params@).subrange(0, params@.len() as int) =~= query_view(params@));
    out
}

/// Parses a URL and appends the query pairs of `params` to it, in order, each
/// value in its text form.
pub fn compose_url(url: &str, params: &Vec<(String, ScalarValue)>) -> (r: Result<String, RelayError>)
    ensures
        r is Ok <==> url_accepted(url@),
        r matches Ok(s) ==> s@ == query_url(url@, query_view(params@)),
        r matches Err(e) ==> e is InvalidUrl,
{
    let pairs = query_pairs(params);
    match url_with_query(url, &pairs) {
        Ok(s) => Ok(s),
        Err(e) => Err(RelayError::InvalidUrl(parse_error_text(&e))),
    }
}

/// A caller header goes out when its value is a string and the HTTP layer
/// accepts both its name and its value.
pub open spec fn header_accepted(h: (String, ScalarValue)) -> bool {
    &&& h.1 is Text
    &&& valid_header_name(h.0@)
    &&& valid_header_value(scalar_text(h.1))
}

/// The (name, value) pairs of the caller headers that go out, in order.
pub open spec fn accepted_pairs(hs: Seq<(String, ScalarValue)>) -> Seq<(Seq<char>, Seq<char>)>
    decreases hs.len(),
{
    if hs.len() == 0 {
        seq![]
    } else if header_accepted(hs.last()) {
        accepted_pairs(hs.drop_last()).push((hs.last().0@, scalar_text(hs.last().1)))
    } else {
        accepted_pairs(hs.drop_last())
    }
}

/// The names of the caller headers that are dropped, in order.
pub open spec fn skipped_names(hs: Seq<(String, ScalarValue)>) -> Seq<Seq<char>>
    decreases hs.len(),
{
    if hs.len() == 0 {
        seq![]
    } else if header_accepted(hs.last()) {
        skipped_names(hs.drop_last())
    } else {
        skipped_names(hs.drop_last()).push(hs.last().0@)
    }
}

pub open spec fn names_view(v: Seq<String>) -> Seq<Seq<char>> {
    v.map_values(|s: String| s@)
}

/// Splits the caller headers into those that go out, as (name, value) pairs,
/// and the names of those dropped: a value that is not a string, or a name or
/// value the HTTP layer refuses, drops the header without failing the request.
pub fn filter_headers(hs: &Vec<(String, ScalarValue)>) -> (r: (Vec<(String, String)>, Vec<String>))
    ensures
        pairs_view(r.0@) == accepted_pairs(hs@),
        names_view(r.1@) == skipped_names(hs@),
{
    let mut kept: Vec<(String, String)> = Vec::new();
    let mut skipped: Vec<String> = Vec::new();
    let mut i: usize = 0;
    while i < hs.len()
        invariant
            0 <= i <= hs@.len(),
            pairs_view(kept@) == accepted_pairs(hs@.subrange(0, i as int)),
            names_view(skipped@) == skipped_names(hs@.subrange(0, i as int)),
        decreases hs@.len() - i,
    {
        let ghost sub = hs@.subrange(0, i as int + 1);
        assert(sub.drop_last() =~= hs@.subrange(0, i as int));
        assert(sub.last() == hs@[i as int]);
        let ghost prev_kept = kept@;
        let ghost prev_skipped = skipped@;
        let name = &hs[i].0;
        let mut accepted = false;
        match &hs[i].1 {
            ScalarValue::Text(v) => {
                if header_name_accepted(name.as_str()) && header_value_accepted(v.as_str()) {
                    kept.push((name.clone(), v.clone()));
                    accepted = true;
                    proof {
                        assert(kept@ =~= prev_kept.push((*name, *v)));
                        assert(pairs_view(kept@) =~= pairs_view(prev_kept).push((name@, v@)));
                    }
                }
            },
            _ => {},
        }
        if !accepted {
            skipped.push(name.clone());
            proof {
                assert(names_view(skipped@) =~= names_view(prev_skipped).push(name@));
            }
        }
        i = i + 1;
    }
    assert(hs@.subrange(0, hs@.len() as int) =~= hs@);
    (kept, skipped)
}

/// The request as it goes out: method, URL with the query appended, the header
/// set keyed by lower-cased name, the body if one is sent, and the names of
/// caller headers that were dropped.
#[derive(Debug, Clone)]
pub struct OutboundRequest {
    pub method: RequestMethod,
    pub url: String,
    pub headers: Vec<HeaderSchema>,
    pub body: Option<String>,
    pub skipped_headers: Vec<String>,
}

/// A body is sent when the method allows one and the content is present and
/// not empty.
pub open spec fn sends_body(req: Request) -> bool {
    &&& !bodyless(req.method)
    &&& req.body.content matches Some(c) && c@.len() > 0
}

pub open spec fn timestamp_pair(client_timestamp: i64) -> (Seq<char>, Seq<char>) {
    ("X-Client-Timestamp"@, int_text(client_timestamp as int))
}

/// The client timestamp header, then the caller headers that go out.
pub open spec fn base_pairs(req: Request, client_timestamp: i64) -> Seq<(Seq<char>, Seq<char>)> {
    seq![timestamp_pair(client_timestamp)] + accepted_pairs(req.headers@)
}

/// The body's own content type is added when a body is sent, it names one the
/// HTTP layer accepts, and no header before it sets the content type.
pub open spec fn adds_body_type(req: Request, client_timestamp: i64) -> bool {
    &&& sends_body(req)
    &&& req.body.content_type matches Some(ct) && valid_header_value(ct@)
    &&& last_pair(base_pairs(req, client_timestamp), "content-type"@) is None
}

/// Every header write of the outbound request, in order.
pub open spec fn header_pairs(req: Request, client_timestamp: i64) -> Seq<(Seq<char>, Seq<char>)> {
    if adds_body_type(req, client_timestamp) {
        base_pairs(req, client_timestamp).push(("content-type"@, req.body.content_type.unwrap()@))
    } else {
        base_pairs(req, client_timestamp)
    }
}

proof fn lemma_content_type_key()
    ensures
        lower("content-type"@) == "content-type"@,
{
    reveal_strlit("content-type");
    assert(lower("content-type"@) =~= "content-type"@);
}

/// What an outbound request holds for a description: the same method, the
/// URL with the query pairs appended, the header set of its header writes, the body exactly when one is sent, and the
/// names of the dropped caller headers.
pub open spec fn prepared_as(req: Request, client_timestamp: i64, out: OutboundRequest) -> bool {
    &&& out.method == req.method
    &&& out.url@ == query_url(req.url@, query_view(req.params@))
    &&& keyed_like(out.headers@, header_pairs(req, client_timestamp))
    &&& (out.body is Some <==> sends_body(req))
    &&& (out.body matches Some(b) ==> b@ == req.body.content.unwrap()@)
    &&& names_view(out.skipped_headers@) == skipped_names(req.headers@)
}

/// Builds the outbound request of a description; `client_timestamp` is the
/// call's start in milliseconds since the epoch. Fails only when the URL does
/// not parse.
pub fn prepare_request(req: &Request, client_timestamp: i64) -> (r: Result<OutboundRequest, RelayError>)
    ensures
        r is Err <==> !url_accepted(req.url@),
        r matches Err(e) ==> e is InvalidUrl,
        r matches Ok(out) ==> prepared_as(*req, client_timestamp, out),
{
    let url = match compose_url(req.url.as_str(), &req.params) {
        Ok(u) => u,
        Err(e) => return Err(e),
    };
    let mut pairs: Vec<(String, String)> = Vec::new();
    pairs.push((String::from_str("X-Client-Timestamp"), decimal_text(client_timestamp)));
    let (mut kept, skipped) = filter_headers(&req.headers);
    let ghost first = pairs@;
    let ghost kept_view = kept@;
    pairs.append(&mut kept);
    proof {
        assert(pairs@ =~= first + kept_view);
        assert(pairs_view(pairs@) =~= base_pairs(*req, client_timestamp));
    }
    let mut headers = normalize_headers(&pairs);
    let body = if req.method.allows_body() {
        match &req.body.content {
            Some(c) => if c.unicode_len() > 0 {
                Some(c.clone())
            } else {
                None
            },
            None => None,
        }
    } else {
        None
    };
    if body.is_some() {
        if let Some(ct) = &req.body.content_type {
            if header_value_accepted(ct.as_str()) {
                proof { lemma_content_type_key(); }
                let present = find_header(&headers, "content-type");
                if present.is_none() {
                    let ghost before = headers@;
                    let ghost base = base_pairs(*req, client_timestamp);
                    let ghost pushed = base.push(("content-type"@, ct@));
                    insert_header(&mut headers, String::from_str("content-type"), ct.clone());
                    proof {
                        assert(pushed.drop_last() =~= base);
                        assert forall|key: Seq<char>| #[trigger] entry_of(headers@, key) == last_pair(pushed, key) by {
                            if key != lower("content-type"@) {
                                assert(entry_of(headers@, key) == entry_of(before, key));
                            }
                        }
                    }
                }
            }
        }
    }
    Ok(OutboundRequest { method: req.method, url, headers, body, skipped_headers: skipped })
}

/// Bodyless methods never send a body, whatever the caller supplied; the other
/// methods send it exactly when it is present and not empty.
pub proof fn lemma_body_policy(req: Request)
    ensures
        bodyless(req.method) ==> !sends_body(req),
        !bodyless(req.method) ==> (sends_body(req) <==> (req.body.content matches Some(c)
            && c@.len() > 0)),
{
}

proof fn lemma_last_pair_skips_head(
    p: (Seq<char>, Seq<char>),
    rest: Seq<(Seq<char>, Seq<char>)>,
    key: Seq<char>,
)
    requires
        lower(p.0) != key,
    ensures
        last_pair(seq![p] + rest, key) == last_pair(rest, key),
    decreases rest.len(),
{
    if rest.len() == 0 {
        assert((seq![p] + rest).drop_last() =~= Seq::<(Seq<char>, Seq<char>)>::empty());
    } else {
        assert((seq![p] + rest).drop_last() =~= seq![p] + rest.drop_last());
        lemma_last_pair_skips_head(p, rest.drop_last(), key);
    }
}

/// One description prepared at two different times goes out the same way: the
/// same method, URL and body, and header sets that agree on every name but the
/// client timestamp.
pub proof fn lemma_prepare_repeatable(
    req: Request,
    t1: i64,
    t2: i64,
    out1: OutboundRequest,
    out2: OutboundRequest,
    key: Seq<char>,
)
    requires
        prepared_as(req, t1, out1),
        prepared_as(req, t2, out2),
        key != lower("X-Client-Timestamp"@),
    ensures
        out1.method == out2.method,
        out1.url@ == out2.url@,
        out1.body is Some <==> out2.body is Some,
        out1.body is Some ==> out1.body.unwrap()@ == out2.body.unwrap()@,
        entry_of(out1.headers@, key) == entry_of(out2.headers@, key),
{
    let acc = accepted_pairs(req.headers@);
    reveal_strlit("X-Client-Timestamp");
    reveal_strlit("content-type");
    assert(lower("X-Client-Timestamp"@) != "content-type"@) by {
        assert(lower("X-Client-Timestamp"@).len() != "content-type"@.len());
    }
    lemma_last_pair_skips_head(timestamp_pair(t1), acc, "content-type"@);
    lemma_last_pair_skips_head(timestamp_pair(t2), acc, "content-type"@);
    assert(adds_body_type(req, t1) == adds_body_type(req, t2));
    let ct = ("content-type"@, req.body.content_type.unwrap()@);
    if key == lower("content-type"@) && adds_body_type(req, t1) {
    } else {
        lemma_last_pair_skips_head(timestamp_pair(t1), acc, key);
        lemma_last_pair_skips_head(timestamp_pair(t2), acc, key);
        if adds_body_type(req, t1) {
            assert(base_pairs(req, t1).push(ct).drop_last() =~= base_pairs(req, t1));
            assert(base_pairs(req, t2).push(ct).drop_last() =~= base_pairs(req, t2));
        }
    }
}

} // verus!
