//! Mapping of the upstream outcome — a response or a transport failure —
//! to the client-facing response, and the fixed responses of the proxy.

use vstd::prelude::*;
use crate::headers::{HeaderField, pairs_view, relayed_headers, value_is_text, header_pair};
use crate::text::{ascii_bytes, ascii_bytes_of};

verus! {

/// The client-facing response: status, text headers, body bytes.
pub struct ClientResponse {
    pub status: u16,
    pub headers: Vec<(String, String)>,
    pub body: Vec<u8>,
}

/// What one round trip to the upstream produced: a response, or a
/// transport-level failure (connection, DNS, timeout).
pub enum UpstreamOutcome {
    Response { status: u16, headers: Vec<HeaderField>, body: Vec<u8> },
    TransportFailure,
}

/// Status codes that can be carried on the wire.
pub open spec fn valid_status(s: u16) -> bool {
    100 <= s && s <= 999
}

/// The status relayed to the client: the upstream's own, with a lenient
/// fall-back to 200 when the numeric code is out of range.
pub open spec fn relayed_status(s: u16) -> u16 {
    if valid_status(s) {
        s
    } else {
        200
    }
}

/// Relies on the status code type of the http crate (axum's re-export):
/// `StatusCode::from_u16` converts exactly the codes from 100 to 999.
#[verifier::external_body]
pub(crate) fn status_is_valid(s: u16) -> (r: bool)
    ensures
        r == valid_status(s),
{
    axum::http::StatusCode::from_u16(s).is_ok()
}

/// The fixed response to a request without a valid bearer key.
pub open spec fn is_unauthorized(r: ClientResponse) -> bool {
    r.status == 401 && r.headers@.len() == 0 && r.body@ == ascii_bytes("Unauthorized"@)
}

/// The fixed response to a body that could not be read within the size bound.
pub open spec fn is_body_rejected(r: ClientResponse) -> bool {
    r.status == 400 && r.headers@.len() == 0 && r.body@ == ascii_bytes("Failed to read body"@)
}

/// The fixed response to a transport failure on the upstream call.
pub open spec fn is_transport_failure(r: ClientResponse) -> bool {
    r.status == 502 && r.headers@.len() == 0 && r.body@ == ascii_bytes("Upstream request failed"@)
}

pub fn unauthorized_response() -> (r: ClientResponse)
    ensures
        is_unauthorized(r),
{
    proof {
        reveal_strlit("Unauthorized");
        assert(vstd::string::is_ascii("Unauthorized"));
    }
    ClientResponse { status: 401, headers: Vec::new(), body: ascii_bytes_of("Unauthorized") }
}

pub fn body_rejected_response() -> (r: ClientResponse)
    ensures
        is_body_rejected(r),
{
    proof {
        reveal_strlit("Failed to read body");
        assert(vstd::string::is_ascii("Failed to read body"));
    }
    ClientResponse { status: 400, headers: Vec::new(), body: ascii_bytes_of("Failed to read body") }
}

pub fn transport_failure_response() -> (r: ClientResponse)
    ensures
        is_transport_failure(r),
{
    proof {
        reveal_strlit("Upstream request failed");
        assert(vstd::string::is_ascii("Upstream request failed"));
    }
    ClientResponse {
        status: 502,
        headers: Vec::new(),
        body: ascii_bytes_of("Upstream request failed"),
    }
}

/// The last-resort response when the serving layer cannot assemble the
/// relayed response: 500 with an empty body.
pub fn assembly_failure_response() -> (r: ClientResponse)
    ensures
        r.status == 500,
        r.headers@.len() == 0,
        r.body@.len() == 0,
{
    ClientResponse { status: 500, headers: Vec::new(), body: Vec::new() }
}

/// Translate a well-formed upstream response: the status verbatim (200 when
/// out of range), every text-representable header, the body verbatim.
pub fn map_upstream_response(status: u16, headers: &Vec<HeaderField>, body: Vec<u8>) -> (r:
    ClientResponse)
    ensures
        r.status == relayed_status(status),
        pairs_view(r.headers@) == relayed_headers(headers@),
        r.body@ == body@,
{
    let st: u16 = if status_is_valid(status) {
        status
    } else {
        200
    };
    ClientResponse { status: st, headers: crate::headers::relay_headers(headers), body }
}

/// Translate the outcome of the upstream call into the client-facing
/// response.
pub fn map_outcome(outcome: UpstreamOutcome) -> (r: ClientResponse)
    ensures
        (match outcome {
            UpstreamOutcome::Response { status, headers, body } => r.status == relayed_status(
                status,
            ) && pairs_view(r.headers@) == relayed_headers(headers@) && r.body@ == body@,
            UpstreamOutcome::TransportFailure => is_transport_failure(r),
        }),
{
    match outcome {
        UpstreamOutcome::Response { status, headers, body } => map_upstream_response(
            status,
            &headers,
            body,
        ),
        UpstreamOutcome::TransportFailure => transport_failure_response(),
    }
}

/// When the upstream responds with status S, headers H and body B, the
/// client-facing response keeps S whenever it is a representable code, and
/// carries every header of H whose value is representable as text.
pub proof fn lemma_upstream_relay_policy(status: u16, hs: Seq<HeaderField>, r: ClientResponse)
    requires
        r.status == relayed_status(status),
        pairs_view(r.headers@) == relayed_headers(hs),
    ensures
        valid_status(status) ==> r.status == status,
        forall|j: int|
            0 <= j < hs.len() && value_is_text(#[trigger] hs[j].value@) ==> exists|k: int|
                0 <= k < r.headers@.len() && pairs_view(r.headers@)[k] == header_pair(hs[j]),
{
    assert forall|j: int|
        0 <= j < hs.len() && value_is_text(#[trigger] hs[j].value@) implies exists|k: int|
        0 <= k < r.headers@.len() && pairs_view(r.headers@)[k] == header_pair(hs[j]) by {
        crate::headers::lemma_relayed_headers_complete(hs, j);
    }
}

} // verus!
