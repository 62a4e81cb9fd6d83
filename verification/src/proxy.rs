//! The per-request pipeline decision: authorize, enforce the body bound,
//! and either hand back a finished response or the outbound request to
//! send. The serving layer performs the send and maps the outcome through
//! the response mapper.

use vstd::prelude::*;
use crate::MAX_BODY_BYTES;
use crate::auth::{spec_authorized, first_auth_value, bearer_key, key_in_set, authorize};
use crate::forward::{
    OutboundRequest, build_outbound, effective_method, target_url, trim_end_slashes, valid_method,
};
use crate::headers::{
    HeaderField, pairs_view, forwarded_headers, header_pair, is_auth_name, is_excluded_name,
    value_is_text,
};
use crate::respond::{
    ClientResponse, body_rejected_response, is_body_rejected, is_unauthorized,
    unauthorized_response,
};
use crate::state::AppState;

verus! {

/// What the pipeline decides for one request: answer the client at once, or
/// send this outbound request upstream.
pub enum Plan {
    Respond(ClientResponse),
    Forward(OutboundRequest),
}

/// The body as the serving layer hands it over: the buffered bytes, or
/// nothing when the read failed or overran the bound.
pub open spec fn body_view(b: Option<Vec<u8>>) -> Option<Seq<u8>> {
    match b {
        Some(v) => Some(v@),
        None => None,
    }
}

/// A correct outbound request for the given inbound data.
pub open spec fn outbound_ok(
    base: Seq<char>,
    method: Seq<char>,
    path: Seq<char>,
    hs: Seq<HeaderField>,
    body: Seq<u8>,
    o: OutboundRequest,
) -> bool {
    &&& o.method@ == effective_method(method)
    &&& o.url@ == target_url(base, path)
    &&& pairs_view(o.headers@) == forwarded_headers(hs)
    &&& o.body@ == body
}

/// The contract of the pipeline decision: 401 without a valid key, 400 when
/// the body could not be read or exceeds the bound, otherwise forward.
pub open spec fn plan_ok(
    keys: Seq<String>,
    base: Seq<char>,
    method: Seq<char>,
    path: Seq<char>,
    hs: Seq<HeaderField>,
    body: Option<Seq<u8>>,
    p: Plan,
) -> bool {
    if !spec_authorized(hs, keys) {
        p matches Plan::Respond(r) && is_unauthorized(r)
    } else {
        match body {
            None => p matches Plan::Respond(r) && is_body_rejected(r),
            Some(b) => if b.len() > MAX_BODY_BYTES {
                p matches Plan::Respond(r) && is_body_rejected(r)
            } else {
                p matches Plan::Forward(o) && outbound_ok(base, method, path, hs, b, o)
            },
        }
    }
}

/// Decide one request: reject it with the fixed 401 or 400 response, or
/// build the outbound request to send upstream.
pub fn plan_request(
    state: &AppState,
    method: &String,
    path: &String,
    headers: &Vec<HeaderField>,
    body: Option<Vec<u8>>,
) -> (p: Plan)
    ensures
        plan_ok(
            state.valid_keys@,
            state.ollama_url@,
            method@,
            path@,
            headers@,
            body_view(body),
            p,
        ),
{
    if !authorize(headers, &state.valid_keys) {
        return Plan::Respond(unauthorized_response());
    }
    match body {
        None => Plan::Respond(body_rejected_response()),
        Some(b) => {
            if b.len() > MAX_BODY_BYTES {
                Plan::Respond(body_rejected_response())
            } else {
                Plan::Forward(
                    build_outbound(state.ollama_url.as_str(), method, path, headers, b),
                )
            }
        },
    }
}

/// A request without an authorization header is answered with the fixed 401
/// response and nothing is forwarded upstream.
pub proof fn lemma_missing_auth_rejected(
    keys: Seq<String>,
    base: Seq<char>,
    method: Seq<char>,
    path: Seq<char>,
    hs: Seq<HeaderField>,
    body: Option<Seq<u8>>,
    p: Plan,
)
    requires
        forall|i: int| 0 <= i < hs.len() ==> !is_auth_name(#[trigger] hs[i].name@),
        plan_ok(keys, base, method, path, hs, body, p),
    ensures
        p matches Plan::Respond(r) && is_unauthorized(r),
{
    crate::auth::lemma_no_auth_header(hs, keys);
}

/// A request whose bearer key is not in the configured key set is answered
/// with the fixed 401 response and nothing is forwarded upstream.
pub proof fn lemma_unknown_key_rejected(
    keys: Seq<String>,
    base: Seq<char>,
    method: Seq<char>,
    path: Seq<char>,
    hs: Seq<HeaderField>,
    body: Option<Seq<u8>>,
    p: Plan,
    v: Seq<u8>,
    k: Seq<char>,
)
    requires
        first_auth_value(hs) == Some(v),
        bearer_key(v) == Some(k),
        !key_in_set(k, keys),
        plan_ok(keys, base, method, path, hs, body, p),
    ensures
        p matches Plan::Respond(r) && is_unauthorized(r),
{
}

/// An authorized request whose body lies within the bound is forwarded:
/// the target URL is the trimmed base, the fixed prefix and the captured
/// suffix; the method is the inbound one whenever it is a representable
/// token; the body goes byte for byte.
pub proof fn lemma_authorized_forwards(
    keys: Seq<String>,
    base: Seq<char>,
    method: Seq<char>,
    path: Seq<char>,
    hs: Seq<HeaderField>,
    b: Seq<u8>,
    p: Plan,
)
    requires
        spec_authorized(hs, keys),
        b.len() <= MAX_BODY_BYTES,
        plan_ok(keys, base, method, path, hs, Some(b), p),
    ensures
        p matches Plan::Forward(o) && o.url@ == trim_end_slashes(base) + "/v1/"@ + path
            && (valid_method(method) ==> o.method@ == method) && o.body@ == b,
{
}

/// The outbound headers of a forwarded request never carry host or
/// authorization, and carry every other inbound header whose value is
/// representable as text.
pub proof fn lemma_forwarded_header_policy(
    keys: Seq<String>,
    base: Seq<char>,
    method: Seq<char>,
    path: Seq<char>,
    hs: Seq<HeaderField>,
    b: Seq<u8>,
    p: Plan,
)
    requires
        spec_authorized(hs, keys),
        b.len() <= MAX_BODY_BYTES,
        plan_ok(keys, base, method, path, hs, Some(b), p),
    ensures
        p matches Plan::Forward(o) ==> forall|k: int|
            0 <= k < o.headers@.len() ==> !is_excluded_name(#[trigger] pairs_view(o.headers@)[k].0),
        p matches Plan::Forward(o) ==> forall|j: int|
            0 <= j < hs.len() && !is_excluded_name(hs[j].name@) && value_is_text(
                #[trigger] hs[j].value@,
            ) ==> exists|k: int|
                0 <= k < o.headers@.len() && pairs_view(o.headers@)[k] == header_pair(hs[j]),
{
    match p {
        Plan::Forward(o) => {
            assert forall|k: int| 0 <= k < o.headers@.len() implies !is_excluded_name(
                #[trigger] pairs_view(o.headers@)[k].0,
            ) by {
                crate::headers::lemma_forwarded_headers_exclude(hs, k);
            }
            assert forall|j: int|
                0 <= j < hs.len() && !is_excluded_name(hs[j].name@) && value_is_text(
                    #[trigger] hs[j].value@,
                ) implies exists|k: int|
                0 <= k < o.headers@.len() && pairs_view(o.headers@)[k] == header_pair(hs[j]) by {
                crate::headers::lemma_forwarded_headers_complete(hs, j);
            }
        },
        Plan::Respond(_) => {},
    }
}

/// A body of exactly the maximum size is forwarded unchanged; a body one
/// byte over the bound is rejected with the fixed 400 response and nothing
/// is forwarded upstream.
pub proof fn lemma_body_limit(
    keys: Seq<String>,
    base: Seq<char>,
    method: Seq<char>,
    path: Seq<char>,
    hs: Seq<HeaderField>,
    b: Seq<u8>,
    p: Plan,
)
    requires
        spec_authorized(hs, keys),
        plan_ok(keys, base, method, path, hs, Some(b), p),
    ensures
        b.len() == MAX_BODY_BYTES ==> (p matches Plan::Forward(o) && o.body@ == b),
        b.len() == MAX_BODY_BYTES + 1 ==> (p matches Plan::Respond(r) && is_body_rejected(r)),
{
}

} // verus!
