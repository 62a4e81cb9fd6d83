//! Construction of the outbound request from an authorized inbound one:
//! target URL assembly, the lenient method fall-back, header filtering and
//! the byte-for-byte body copy.

use vstd::prelude::*;
use crate::headers::{HeaderField, pairs_view, forwarded_headers};

verus! {

/// The request sent to the upstream service.
pub struct OutboundRequest {
    pub method: String,
    pub url: String,
    pub headers: Vec<(String, String)>,
    pub body: Vec<u8>,
}

/// A character allowed in an HTTP method token: letters, digits and
/// !#$%&'*+-.^_`|~.
pub open spec fn method_char(c: char) -> bool {
    ||| c == '!'
    ||| c == '#'
    ||| c == '$'
    ||| c == '%'
    ||| c == '&'
    ||| c == '\''
    ||| c == '*'
    ||| c == '+'
    ||| c == '-'
    ||| c == '.'
    ||| ('0' <= c && c <= '9')
    ||| ('A' <= c && c <= 'Z')
    ||| c == '^'
    ||| c == '_'
    ||| c == '`'
    ||| ('a' <= c && c <= 'z')
    ||| c == '|'
    ||| c == '~'
}

/// A representable HTTP method: a non-empty token.
pub open spec fn valid_method(m: Seq<char>) -> bool {
    m.len() > 0 && (forall|i: int| 0 <= i < m.len() ==> method_char(#[trigger] m[i]))
}

/// The method put on the outbound request: the inbound one, with a lenient
/// fall-back to GET when it is not a representable token.
pub open spec fn effective_method(m: Seq<char>) -> Seq<char> {
    if valid_method(m) {
        m
    } else {
        "GET"@
    }
}

/// Relies on the method type of the http crate (reqwest's re-export):
/// `Method::from_bytes` accepts exactly a non-empty string of token bytes
/// (letters, digits and !#$%&'*+-.^_`|~). Every accepted byte is ASCII, so
/// the byte-wise test of the crate and the character-wise statement here
/// agree on every string.
#[verifier::external_body]
pub(crate) fn method_is_valid(m: &str) -> (r: bool)
    ensures
        r == valid_method(m@),
{
    reqwest::Method::from_bytes(m.as_bytes()).is_ok()
}

/// The base URL with every trailing slash removed.
pub open spec fn trim_end_slashes(s: Seq<char>) -> Seq<char>
    decreases s.len(),
{
    if s.len() > 0 && s.last() == '/' {
        trim_end_slashes(s.drop_last())
    } else {
        s
    }
}

/// The outbound target: the trimmed base, the fixed prefix, the captured
/// path suffix.
pub open spec fn target_url(base: Seq<char>, path: Seq<char>) -> Seq<char> {
    trim_end_slashes(base) + "/v1/"@ + path
}

/// The length of the base once its trailing slashes are gone.
fn trim_point(base: &str) -> (k: usize)
    ensures
        k <= base@.len(),
        base@.take(k as int) == trim_end_slashes(base@),
{
    let n = base.unicode_len();
    let mut k: usize = n;
    proof {
        assert(base@.take(n as int) =~= base@);
    }
    while k > 0
        invariant
            k <= n,
            n == base@.len(),
            trim_end_slashes(base@.take(k as int)) == trim_end_slashes(base@),
        decreases k,
    {
        let c = base.get_char(k - 1);
        if c != '/' {
            proof {
                assert(base@.take(k as int).last() == base@[k - 1]);
            }
            return k;
        }
        proof {
            assert(base@.take(k as int).last() == base@[k - 1]);
            assert(base@.take(k as int).drop_last() =~= base@.take(k - 1));
        }
        k = k - 1;
    }
    proof {
        assert(base@.take(0) =~= Seq::<char>::empty());
    }
    0
}

/// Assemble the outbound URL from the configured base and the captured
/// path suffix.
pub fn build_target_url(base: &str, path: &str) -> (r: String)
    ensures
        r@ == target_url(base@, path@),
{
    let k = trim_point(base);
    let mut url = base.substring_char(0, k).to_owned();
    url.append("/v1/");
    url.append(path);
    url
}

/// Build the outbound request: method copied (GET when not representable),
/// target URL assembled, headers filtered, body copied byte for byte.
pub fn build_outbound(
    base: &str,
    method: &String,
    path: &String,
    headers: &Vec<HeaderField>,
    body: Vec<u8>,
) -> (o: OutboundRequest)
    ensures
        o.method@ == effective_method(method@),
        o.url@ == target_url(base@, path@),
        pairs_view(o.headers@) == forwarded_headers(headers@),
        o.body@ == body@,
{
    let m: String = if method_is_valid(method.as_str()) {
        method.clone()
    } else {
        String::from_str("GET")
    };
    OutboundRequest {
        method: m,
        url: build_target_url(base, path.as_str()),
        headers: crate::headers::forward_headers(headers),
        body,
    }
}

} // verus!
