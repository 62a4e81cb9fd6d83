//! The authorization gate: find the bearer key on the inbound request and
//! test it against the configured key set by exact string equality.

use vstd::prelude::*;
use crate::headers::{
    HeaderField, is_auth_name, value_is_text, text_of, header_value_text, name_matches,
};

verus! {

/// The value of the first authorization header, if any; later duplicates
/// are never consulted.
pub open spec fn first_auth_value(hs: Seq<HeaderField>) -> Option<Seq<u8>>
    decreases hs.len(),
{
    if hs.len() == 0 {
        None
    } else if is_auth_name(hs[0].name@) {
        Some(hs[0].value@)
    } else {
        first_auth_value(hs.skip(1))
    }
}

/// The candidate key carried by an authorization value: the value must be
/// representable as text and start with the literal prefix "Bearer "
/// (case-sensitive, single space); the remainder is the candidate.
pub open spec fn bearer_key(v: Seq<u8>) -> Option<Seq<char>> {
    if value_is_text(v) && text_of(v).len() >= 7 && text_of(v).take(7) == "Bearer "@ {
        Some(text_of(v).skip(7))
    } else {
        None
    }
}

/// Exact, case-sensitive membership in the configured key set.
pub open spec fn key_in_set(k: Seq<char>, keys: Seq<String>) -> bool {
    exists|i: int| 0 <= i < keys.len() && keys[i]@ == k
}

/// A request is authorized when its first authorization header carries
/// "Bearer " followed by a configured key.
pub open spec fn spec_authorized(hs: Seq<HeaderField>, keys: Seq<String>) -> bool {
    match first_auth_value(hs) {
        None => false,
        Some(v) => match bearer_key(v) {
            None => false,
            Some(k) => key_in_set(k, keys),
        },
    }
}

/// Strip the bearer prefix from a textual authorization value.
fn strip_bearer(t: &String) -> (r: Option<String>)
    ensures
        (match r {
            Some(k) => t@.len() >= 7 && t@.take(7) == "Bearer "@ && k@ == t@.skip(7),
            None => !(t@.len() >= 7 && t@.take(7) == "Bearer "@),
        }),
{
    proof {
        reveal_strlit("Bearer ");
    }
    let s = t.as_str();
    let n = s.unicode_len();
    if n < 7 {
        return None;
    }
    if s.get_char(0) != 'B' || s.get_char(1) != 'e' || s.get_char(2) != 'a' || s.get_char(3) != 'r'
        || s.get_char(4) != 'e' || s.get_char(5) != 'r' || s.get_char(6) != ' ' {
        proof {
            if t@.take(7) == "Bearer "@ {
                assert forall|l: int| 0 <= l < 7 implies t@[l] == "Bearer "@[l] by {
                    assert(t@.take(7)[l] == t@[l]);
                }
                assert(t@[0] == 'B' && t@[1] == 'e' && t@[2] == 'a' && t@[3] == 'r' && t@[4] == 'e'
                    && t@[5] == 'r' && t@[6] == ' ');
            }
        }
        return None;
    }
    let k = s.substring_char(7, n).to_owned();
    proof {
        assert(t@.take(7) =~= "Bearer "@);
        assert(t@.subrange(7, n as int) =~= t@.skip(7));
    }
    Some(k)
}

/// The authorization decision for the inbound headers against the key set.
pub fn authorize(headers: &Vec<HeaderField>, keys: &Vec<String>) -> (r: bool)
    ensures
        r == spec_authorized(headers@, keys@),
{
    proof {
        assert(headers@.skip(0) =~= headers@);
    }
    let mut i: usize = 0;
    while i < headers.len()
        invariant
            i <= headers@.len(),
            first_auth_value(headers@) == first_auth_value(headers@.skip(i as int)),
            forall|j: int| 0 <= j < i ==> !is_auth_name(#[trigger] headers@[j].name@),
        decreases headers@.len() - i,
    {
        let h = &headers[i];
        if name_matches(h.name.as_str(), "authorization") {
            proof {
                assert(headers@.skip(i as int)[0] == headers@[i as int]);
            }
            match header_value_text(&h.value) {
                None => {
                    return false;
                },
                Some(t) => {
                    match strip_bearer(&t) {
                        None => {
                            return false;
                        },
                        Some(key) => {
                            proof {
                                assert(bearer_key(h.value@) == Some(key@));
                            }
                            let mut j: usize = 0;
                            while j < keys.len()
                                invariant
                                    j <= keys@.len(),
                                    forall|l: int| 0 <= l < j ==> keys@[l]@ != key@,
                                    spec_authorized(headers@, keys@) == key_in_set(key@, keys@),
                                decreases keys@.len() - j,
                            {
                                if keys[j] == key {
                                    return true;
                                }
                                j = j + 1;
                            }
                            proof {
                                assert(!key_in_set(key@, keys@));
                            }
                            return false;
                        },
                    }
                },
            }
        }
        proof {
            assert(headers@.skip(i as int).skip(1) =~= headers@.skip(i + 1));
        }
        i = i + 1;
    }
    proof {
        assert(headers@.skip(headers@.len() as int) =~= Seq::<HeaderField>::empty());
    }
    false
}

/// A request without an authorization header is never authorized.
pub proof fn lemma_no_auth_header(hs: Seq<HeaderField>, keys: Seq<String>)
    requires
        forall|i: int| 0 <= i < hs.len() ==> !is_auth_name(#[trigger] hs[i].name@),
    ensures
        first_auth_value(hs) is None,
        !spec_authorized(hs, keys),
    decreases hs.len(),
{
    if hs.len() > 0 {
        assert forall|i: int| 0 <= i < hs.skip(1).len() implies !is_auth_name(
            #[trigger] hs.skip(1)[i].name@,
        ) by {
            assert(hs.skip(1)[i] == hs[i + 1]);
        }
        lemma_no_auth_header(hs.skip(1), keys);
    }
}

} // verus!
