//! Header model: raw inbound header fields, the text-representability test
//! for header values, case-insensitive name matching, and the two filtering
//! steps of the proxy (outbound forwarding and response relaying).

use vstd::prelude::*;

verus! {

/// One header as the serving layer hands it over: the name as reported and
/// the raw value bytes.
pub struct HeaderField {
    pub name: String,
    pub value: Vec<u8>,
}

/// ASCII upper-case letters fold to lower case; everything else is kept.
pub open spec fn lower_char(c: char) -> char {
    if 'A' <= c && c <= 'Z' {
        (((c as u8) + 32) as u8) as char
    } else {
        c
    }
}

/// A name folded to lower case, character by character.
pub open spec fn lower_chars(s: Seq<char>) -> Seq<char> {
    s.map_values(|c: char| lower_char(c))
}

/// Header names match case-insensitively.
pub open spec fn name_is(name: Seq<char>, target: Seq<char>) -> bool {
    lower_chars(name) == target
}

/// The authorization header, whatever its case on the wire.
pub open spec fn is_auth_name(name: Seq<char>) -> bool {
    name_is(name, "authorization"@)
}

/// Headers never forwarded upstream: the transport-level host header and the
/// authorization header meant for this proxy alone.
pub open spec fn is_excluded_name(name: Seq<char>) -> bool {
    name_is(name, "host"@) || name_is(name, "authorization"@)
}

/// A header value byte that can be carried in a text header: visible ASCII
/// or horizontal tab.
pub open spec fn text_byte(b: u8) -> bool {
    b == 9 || (32 <= b && b < 127)
}

/// A value is representable as text when every byte is.
pub open spec fn value_is_text(v: Seq<u8>) -> bool {
    forall|i: int| 0 <= i < v.len() ==> text_byte(#[trigger] v[i])
}

/// The characters a text-representable value spells, one per byte.
pub open spec fn text_of(v: Seq<u8>) -> Seq<char> {
    Seq::new(v.len(), |i: int| v[i] as char)
}

fn lower_char_exec(c: char) -> (r: char)
    ensures
        r == lower_char(c),
{
    if 'A' <= c && c <= 'Z' {
        ((c as u8) + 32) as char
    } else {
        c
    }
}

/// Case-insensitive comparison of a header name against a lower-case target.
pub fn name_matches(name: &str, target: &str) -> (r: bool)
    ensures
        r == name_is(name@, target@),
{
    let n = name.unicode_len();
    let m = target.unicode_len();
    if n != m {
        proof {
            assert(lower_chars(name@).len() == name@.len());
        }
        return false;
    }
    let mut i: usize = 0;
    while i < n
        invariant
            i <= n,
            n == name@.len(),
            n == target@.len(),
            forall|j: int| 0 <= j < i ==> lower_char(name@[j]) == target@[j],
        decreases n - i,
    {
        let c = name.get_char(i);
        let d = target.get_char(i);
        if lower_char_exec(c) != d {
            proof {
                assert(lower_chars(name@)[i as int] != target@[i as int]);
            }
            return false;
        }
        i = i + 1;
    }
    proof {
        assert(lower_chars(name@) =~= target@);
    }
    true
}

/// Relies on axum's re-export of the header value type of the http crate:
/// `HeaderValue::from_bytes` accepts exactly the bytes a header value may
/// hold (tab, or 32..=255 except 127), and `HeaderValue::to_str` hands the
/// value back as a string exactly when every byte is visible ASCII
/// (32..=126) or tab. Composed, a string comes back exactly for
/// text-representable values, and it spells the bytes out one character per
/// byte.
#[verifier::external_body]
pub(crate) fn header_value_text(v: &Vec<u8>) -> (r: Option<String>)
    ensures
        r is Some <==> value_is_text(v@),
        r matches Some(t) ==> t@ == text_of(v@),
{
    match axum::http::HeaderValue::from_bytes(v) {
        Ok(hv) => match hv.to_str() {
            Ok(s) => Some(s.to_string()),
            Err(_) => None,
        },
        Err(_) => None,
    }
}

/// The name and the spelled-out text of a header, as a pair of views.
pub open spec fn header_pair(h: HeaderField) -> (Seq<char>, Seq<char>) {
    (h.name@, text_of(h.value@))
}

/// What a list of text header pairs says, as views.
pub open spec fn pairs_view(ps: Seq<(String, String)>) -> Seq<(Seq<char>, Seq<char>)> {
    ps.map_values(|p: (String, String)| (p.0@, p.1@))
}

/// The headers relayed from an upstream response: every header whose value
/// is representable as text, in order, with the value spelled out.
pub open spec fn relayed_headers(hs: Seq<HeaderField>) -> Seq<(Seq<char>, Seq<char>)>
    decreases hs.len(),
{
    if hs.len() == 0 {
        Seq::empty()
    } else {
        let rest = relayed_headers(hs.drop_last());
        if value_is_text(hs.last().value@) {
            rest.push(header_pair(hs.last()))
        } else {
            rest
        }
    }
}

/// The headers forwarded upstream: as relayed, but with the host and
/// authorization headers left out.
pub open spec fn forwarded_headers(hs: Seq<HeaderField>) -> Seq<(Seq<char>, Seq<char>)>
    decreases hs.len(),
{
    if hs.len() == 0 {
        Seq::empty()
    } else {
        let rest = forwarded_headers(hs.drop_last());
        if !is_excluded_name(hs.last().name@) && value_is_text(hs.last().value@) {
            rest.push(header_pair(hs.last()))
        } else {
            rest
        }
    }
}

/// Filter the inbound headers for forwarding: drop the host and
/// authorization headers, keep every other header whose value is
/// representable as text.
pub fn forward_headers(hs: &Vec<HeaderField>) -> (out: Vec<(String, String)>)
    ensures
        pairs_view(out@) == forwarded_headers(hs@),
{
    let mut out: Vec<(String, String)> = Vec::new();
    let mut i: usize = 0;
    while i < hs.len()
        invariant
            i <= hs@.len(),
            pairs_view(out@) == forwarded_headers(hs@.take(i as int)),
        decreases hs@.len() - i,
    {
        let h = &hs[i];
        let excluded = name_matches(h.name.as_str(), "host") || name_matches(
            h.name.as_str(),
            "authorization",
        );
        if !excluded {
            match header_value_text(&h.value) {
                Some(t) => {
                    let ghost prev = out@;
                    out.push((h.name.clone(), t));
                    proof {
                        assert(pairs_view(out@) =~= pairs_view(prev).push(header_pair(hs@[i as int])));
                    }
                },
                None => {},
            }
        }
        proof {
            assert(hs@.take(i + 1).drop_last() =~= hs@.take(i as int));
            assert(hs@.take(i + 1).last() == hs@[i as int]);
        }
        i = i + 1;
    }
    proof {
        assert(hs@.take(hs@.len() as int) =~= hs@);
    }
    out
}

/// Filter the upstream response headers for relaying: keep every header
/// whose value is representable as text.
pub fn relay_headers(hs: &Vec<HeaderField>) -> (out: Vec<(String, String)>)
    ensures
        pairs_view(out@) == relayed_headers(hs@),
{
    let mut out: Vec<(String, String)> = Vec::new();
    let mut i: usize = 0;
    while i < hs.len()
        invariant
            i <= hs@.len(),
            pairs_view(out@) == relayed_headers(hs@.take(i as int)),
        decreases hs@.len() - i,
    {
        let h = &hs[i];
        match header_value_text(&h.value) {
            Some(t) => {
                let ghost prev = out@;
                out.push((h.name.clone(), t));
                proof {
                    assert(pairs_view(out@) =~= pairs_view(prev).push(header_pair(hs@[i as int])));
                }
            },
            None => {},
        }
        proof {
            assert(hs@.take(i + 1).drop_last() =~= hs@.take(i as int));
            assert(hs@.take(i + 1).last() == hs@[i as int]);
        }
        i = i + 1;
    }
    proof {
        assert(hs@.take(hs@.len() as int) =~= hs@);
    }
    out
}

/// No forwarded header is the host or the authorization header.
pub proof fn lemma_forwarded_headers_exclude(hs: Seq<HeaderField>, k: int)
    requires
        0 <= k < forwarded_headers(hs).len(),
    ensures
        !is_excluded_name(forwarded_headers(hs)[k].0),
    decreases hs.len(),
{
    if hs.len() > 0 {
        let rest = forwarded_headers(hs.drop_last());
        if k < rest.len() {
            lemma_forwarded_headers_exclude(hs.drop_last(), k);
        }
    }
}

/// Every inbound header that is neither host nor authorization and whose
/// value is representable as text is forwarded.
pub proof fn lemma_forwarded_headers_complete(hs: Seq<HeaderField>, j: int)
    requires
        0 <= j < hs.len(),
        !is_excluded_name(hs[j].name@),
        value_is_text(hs[j].value@),
    ensures
        exists|k: int|
            0 <= k < forwarded_headers(hs).len() && forwarded_headers(hs)[k] == header_pair(hs[j]),
    decreases hs.len(),
{
    let rest = forwarded_headers(hs.drop_last());
    if j == hs.len() - 1 {
        assert(forwarded_headers(hs)[rest.len() as int] == header_pair(hs[j]));
    } else {
        lemma_forwarded_headers_complete(hs.drop_last(), j);
        let k = choose|k: int|
            0 <= k < rest.len() && rest[k] == header_pair(hs.drop_last()[j]);
        assert(hs.drop_last()[j] == hs[j]);
        assert(forwarded_headers(hs)[k] == header_pair(hs[j]));
    }
}

/// Every upstream header whose value is representable as text is relayed.
pub proof fn lemma_relayed_headers_complete(hs: Seq<HeaderField>, j: int)
    requires
        0 <= j < hs.len(),
        value_is_text(hs[j].value@),
    ensures
        exists|k: int|
            0 <= k < relayed_headers(hs).len() && relayed_headers(hs)[k] == header_pair(hs[j]),
    decreases hs.len(),
{
    let rest = relayed_headers(hs.drop_last());
    if j == hs.len() - 1 {
        assert(relayed_headers(hs)[rest.len() as int] == header_pair(hs[j]));
    } else {
        lemma_relayed_headers_complete(hs.drop_last(), j);
        let k = choose|k: int|
            0 <= k < rest.len() && rest[k] == header_pair(hs.drop_last()[j]);
        assert(hs.drop_last()[j] == hs[j]);
        assert(relayed_headers(hs)[k] == header_pair(hs[j]));
    }
}

} // verus!
