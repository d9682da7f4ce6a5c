//! Header names and values: what the HTTP layer accepts, and header sets keyed
//! by lower-cased name where the last write wins.
use vstd::prelude::*;
use crate::types::HeaderSchema;

verus! {

/// A `tchar` of RFC 9110: the characters a header name is made of.
pub open spec fn is_tchar(c: char) -> bool {
    ('a' <= c && c <= 'z') || ('A' <= c && c <= 'Z') || ('0' <= c && c <= '9') || c == '!'
        || c == '#' || c == '$' || c == '%' || c == '&' || c == '\'' || c == '*' || c == '+'
        || c == '-' || c == '.' || c == '^' || c == '_' || c == '`' || c == '|' || c == '~'
}

/// A header name the HTTP layer accepts: one to 65535 `tchar`s.
pub open spec fn valid_header_name(s: Seq<char>) -> bool {
    1 <= s.len() <= 65535 && forall|i: int| 0 <= i < s.len() ==> is_tchar(#[trigger] s[i])
}

/// A character allowed in a header value: a tab, or anything from space up but DEL.
pub open spec fn is_value_char(c: char) -> bool {
    c == '\t' || (' ' <= c && c != '\u{7f}')
}

/// A header value the HTTP layer accepts.
pub open spec fn valid_header_value(s: Seq<char>) -> bool {
    forall|i: int| 0 <= i < s.len() ==> is_value_char(#[trigger] s[i])
}

/// Relies on `hyper::header::HeaderName::from_bytes`: it accepts a name of 1 to
/// 65535 bytes, each one of the `tchar` table (upper case folded to lower).
#[verifier::external_body]
pub(crate) fn header_name_accepted(name: &str) -> (r: bool)
    ensures
        r == valid_header_name(name@),
{
    hyper::header::HeaderName::from_bytes(name.as_bytes()).is_ok()
}

/// Relies on `hyper::header::HeaderValue::from_str`: it accepts a value whose
/// bytes are all a tab or in 32..=255 but 127; bytes of 128 and over are exactly
/// those of non-ASCII characters.
#[verifier::external_body]
pub(crate) fn header_value_accepted(value: &str) -> (r: bool)
    ensures
        r == valid_header_value(value@),
{
    hyper::header::HeaderValue::from_str(value).is_ok()
}

pub open spec fn lower_char(c: char) -> char {
    if 'A' <= c && c <= 'Z' {
        ((c as u32) + 32) as char
    } else {
        c
    }
}

/// ASCII lower case of a text; other characters are kept.
pub open spec fn lower(s: Seq<char>) -> Seq<char> {
    s.map_values(|c: char| lower_char(c))
}

/// Relies on `str::to_ascii_lowercase`: ASCII upper-case letters become lower
/// case, every other character is kept.
#[verifier::external_body]
pub(crate) fn lower_text(s: &str) -> (r: String)
    ensures
        r@ == lower(s@),
{
    s.to_ascii_lowercase()
}

/// The (name, value) texts of a list of string pairs.
pub open spec fn pairs_view(v: Seq<(String, String)>) -> Seq<(Seq<char>, Seq<char>)> {
    v.map_values(|p: (String, String)| (p.0@, p.1@))
}

/// The (name, value) of the last pair whose lower-cased name is `key`.
pub open spec fn last_pair(raw: Seq<(Seq<char>, Seq<char>)>, key: Seq<char>) -> Option<
    (Seq<char>, Seq<char>),
>
    decreases raw.len(),
{
    if raw.len() == 0 {
        None
    } else if lower(raw.last().0) == key {
        Some(raw.last())
    } else {
        last_pair(raw.drop_last(), key)
    }
}

/// The (name, value) of the entry of a header set whose id is `key`.
pub open spec fn entry_of(hs: Seq<HeaderSchema>, key: Seq<char>) -> Option<(Seq<char>, Seq<char>)>
    decreases hs.len(),
{
    if hs.len() == 0 {
        None
    } else if hs.last().id@ == key {
        Some((hs.last().name@, hs.last().value@))
    } else {
        entry_of(hs.drop_last(), key)
    }
}

/// A header set: ids are distinct, and each is the lower-cased name.
pub open spec fn well_keyed(hs: Seq<HeaderSchema>) -> bool {
    &&& forall|i: int, j: int| 0 <= i < j < hs.len() ==> hs[i].id@ != hs[j].id@
    &&& forall|i: int| 0 <= i < hs.len() ==> #[trigger] hs[i].id@ == lower(hs[i].name@)
}

/// The header set that a list of pairs yields, as a map from lower-cased name to
/// (name, value): the last pair of each name wins.
pub open spec fn keyed_like(hs: Seq<HeaderSchema>, raw: Seq<(Seq<char>, Seq<char>)>) -> bool {
    &&& well_keyed(hs)
    &&& forall|key: Seq<char>| #[trigger] entry_of(hs, key) == last_pair(raw, key)
}

proof fn lemma_entry_at(hs: Seq<HeaderSchema>, key: Seq<char>, i: int)
    requires
        well_keyed(hs),
        0 <= i < hs.len(),
        hs[i].id@ == key,
    ensures
        entry_of(hs, key) == Some((hs[i].name@, hs[i].value@)),
    decreases hs.len(),
{
    if i < hs.len() - 1 {
        assert(hs.last().id@ != key);
        let t = hs.drop_last();
        assert(t[i] == hs[i]);
        assert(well_keyed(t)) by {
            assert forall|a: int| 0 <= a < t.len() implies #[trigger] t[a].id@ == lower(t[a].name@) by {
                assert(t[a] == hs[a]);
            }
        }
        lemma_entry_at(t, key, i);
    }
}

proof fn lemma_entry_absent(hs: Seq<HeaderSchema>, key: Seq<char>)
    requires
        forall|i: int| 0 <= i < hs.len() ==> #[trigger] hs[i].id@ != key,
    ensures
        entry_of(hs, key) is None,
    decreases hs.len(),
{
    if hs.len() > 0 {
        let t = hs.drop_last();
        assert forall|i: int| 0 <= i < t.len() implies #[trigger] t[i].id@ != key by {
            assert(t[i] == hs[i]);
        }
        lemma_entry_absent(t, key);
    }
}

/// Finds the entry of a header set whose id is `key`.
pub fn position_of(hs: &Vec<HeaderSchema>, key: &String) -> (r: Option<usize>)
    ensures
        r matches Some(i) ==> i < hs@.len() && hs@[i as int].id@ == key@,
        r is None ==> forall|i: int| 0 <= i < hs@.len() ==> #[trigger] hs@[i].id@ != key@,
{
    let mut i: usize = 0;
    while i < hs.len()
        invariant
            0 <= i <= hs@.len(),
            forall|k: int| 0 <= k < i ==> #[trigger] hs@[k].id@ != key@,
        decreases hs@.len() - i,
    {
        if hs[i].id == *key {
            return Some(i);
        }
        i = i + 1;
    }
    None
}

/// Writes `name: value` into a header set under the lower-cased name; an entry
/// already held under that key is replaced.
pub fn insert_header(hs: &mut Vec<HeaderSchema>, name: String, value: String)
    requires
        well_keyed(old(hs)@),
    ensures
        well_keyed(final(hs)@),
        entry_of(final(hs)@, lower(name@)) == Some((name@, value@)),
        forall|key: Seq<char>|
            key != lower(name@) ==> #[trigger] entry_of(final(hs)@, key) == entry_of(old(hs)@, key),
{
    let ghost before = hs@;
    let ghost n = name@;
    let ghost v = value@;
    let key = lower_text(name.as_str());
    let ghost k = key@;
    let pos = position_of(hs, &key);
    let ghost idx: int;
    match pos {
        Some(i) => {
            hs.set(i, HeaderSchema { id: key, name, value });
            proof { idx = i as int; }
        },
        None => {
            hs.push(HeaderSchema { id: key, name, value });
            proof { idx = before.len() as int; }
        },
    }
    proof {
        let after = hs@;
        assert(after.len() == before.len() || after.len() == before.len() + 1);
        assert forall|a: int| 0 <= a < after.len() && a != idx implies #[trigger] after[a] == before[a] by {}
        assert(after[idx].id@ == k && after[idx].name@ == n && after[idx].value@ == v);
        assert(well_keyed(after)) by {
            assert forall|a: int, b: int| 0 <= a < b < after.len() implies after[a].id@ != after[b].id@ by {
                if a != idx && b != idx {
                    assert(after[a] == before[a] && after[b] == before[b]);
                } else if a == idx {
                    assert(after[b] == before[b]);
                } else {
                    assert(after[a] == before[a]);
                }
            }
            assert forall|a: int| 0 <= a < after.len() implies #[trigger] after[a].id@ == lower(after[a].name@) by {
                if a != idx {
                    assert(after[a] == before[a]);
                }
            }
        }
        lemma_entry_at(after, k, idx);
        assert forall|key2: Seq<char>| key2 != k implies #[trigger] entry_of(after, key2) == entry_of(before, key2) by {
            if exists|j: int| 0 <= j < before.len() && before[j].id@ == key2 {
                let j = choose|j: int| 0 <= j < before.len() && before[j].id@ == key2;
                assert(j != idx);
                assert(after[j] == before[j]);
                lemma_entry_at(before, key2, j);
                lemma_entry_at(after, key2, j);
            } else {
                assert forall|j: int| 0 <= j < after.len() implies #[trigger] after[j].id@ != key2 by {
                    if j != idx {
                        assert(after[j] == before[j]);
                    }
                }
                lemma_entry_absent(before, key2);
                lemma_entry_absent(after, key2);
            }
        }
    }
}

/// Builds the header set of a list of (name, value) pairs: keyed by lower-cased
/// name, each entry keeping the name as written; of pairs with the same key the
/// last one wins.
pub fn normalize_headers(raw: &Vec<(String, String)>) -> (r: Vec<HeaderSchema>)
    ensures
        keyed_like(r@, pairs_view(raw@)),
{
    let mut out: Vec<HeaderSchema> = Vec::new();
    let mut i: usize = 0;
    proof {
        assert forall|key: Seq<char>| #[trigger] entry_of(out@, key) == last_pair(pairs_view(raw@).subrange(0, 0), key) by {}
    }
    while i < raw.len()
        invariant
            0 <= i <= raw@.len(),
            keyed_like(out@, pairs_view(raw@).subrange(0, i as int)),
        decreases raw@.len() - i,
    {
        let ghost prev = out@;
        let name = raw[i].0.clone();
        let value = raw[i].1.clone();
        insert_header(&mut out, name, value);
        proof {
            let p = pairs_view(raw@).subrange(0, i as int + 1);
            assert(p.drop_last() =~= pairs_view(raw@).subrange(0, i as int));
            assert(p.last() == (raw@[i as int].0@, raw@[i as int].1@));
            assert forall|key: Seq<char>| #[trigger] entry_of(out@, key) == last_pair(p, key) by {
                if key != lower(raw@[i as int].0@) {
                    assert(entry_of(out@, key) == entry_of(prev, key));
                }
            }
        }
        i = i + 1;
    }
    assert(pairs_view(raw@).subrange(0, raw@.len() as int) =~= pairs_view(raw@));
    out
}

/// Looks a header up by name, whatever the case of its letters.
pub fn find_header<'a>(hs: &'a Vec<HeaderSchema>, name: &str) -> (r: Option<&'a HeaderSchema>)
    requires
        well_keyed(hs@),
    ensures
        r matches Some(h) ==> entry_of(hs@, lower(name@)) == Some((h.name@, h.value@)),
        r is None ==> entry_of(hs@, lower(name@)) is None,
{
    let key = lower_text(name);
    match position_of(hs, &key) {
        Some(i) => {
            proof { lemma_entry_at(hs@, key@, i as int); }
            Some(&hs[i])
        },
        None => {
            proof { lemma_entry_absent(hs@, key@); }
            None
        },
    }
}

proof fn lemma_last_pair_at(raw: Seq<(Seq<char>, Seq<char>)>, i: int)
    requires
        0 <= i < raw.len(),
        forall|j: int| i < j < raw.len() ==> lower(#[trigger] raw[j].0) != lower(raw[i].0),
    ensures
        last_pair(raw, lower(raw[i].0)) == Some(raw[i]),
    decreases raw.len(),
{
    if i < raw.len() - 1 {
        let t = raw.drop_last();
        assert(lower(raw[raw.len() - 1].0) != lower(raw[i].0));
        assert forall|j: int| i < j < t.len() implies lower(#[trigger] t[j].0) != lower(t[i].0) by {
            assert(t[j] == raw[j]);
        }
        lemma_last_pair_at(t, i);
    }
}

/// Headers are addressable whatever the case of their names: under the
/// lower-cased form of any spelling of a received name, a header set holds the
/// last value received under that name, with the name as it was written.
pub proof fn lemma_lookup_any_case(
    hs: Seq<HeaderSchema>,
    raw: Seq<(Seq<char>, Seq<char>)>,
    i: int,
    spelling: Seq<char>,
)
    requires
        keyed_like(hs, raw),
        0 <= i < raw.len(),
        forall|j: int| i < j < raw.len() ==> lower(#[trigger] raw[j].0) != lower(raw[i].0),
        lower(spelling) == lower(raw[i].0),
    ensures
        entry_of(hs, lower(spelling)) == Some(raw[i]),
{
    lemma_last_pair_at(raw, i);
}

} // verus!
