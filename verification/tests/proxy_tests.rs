use authproxy::headers::HeaderField;
use authproxy::proxy::{plan_request, Plan};
use authproxy::respond::{map_outcome, map_upstream_response, UpstreamOutcome};
use authproxy::state::AppState;
use authproxy::MAX_BODY_BYTES;

fn header(name: &str, value: &str) -> HeaderField {
    HeaderField { name: name.to_string(), value: value.as_bytes().to_vec() }
}

fn state(keys: &[&str], url: &str) -> AppState {
    AppState {
        valid_keys: keys.iter().map(|k| k.to_string()).collect(),
        ollama_url: url.to_string(),
    }
}

fn expect_respond(p: Plan) -> authproxy::respond::ClientResponse {
    match p {
        Plan::Respond(r) => r,
        Plan::Forward(_) => panic!("expected an immediate response"),
    }
}

fn expect_forward(p: Plan) -> authproxy::forward::OutboundRequest {
    match p {
        Plan::Forward(o) => o,
        Plan::Respond(_) => panic!("expected a forwarded request"),
    }
}

#[test]
fn unauthorized_missing_header() {
    let state = state(&["secret"], "http://localhost");
    let plan = plan_request(
        &state,
        &"GET".to_string(),
        &"foo".to_string(),
        &vec![],
        Some(Vec::new()),
    );
    let resp = expect_respond(plan);
    assert_eq!(resp.status, 401);
    assert_eq!(resp.body, b"Unauthorized".to_vec());
}

#[test]
fn forward_happy_path() {
    let state = state(&["goodkey"], "http://localhost");
    let plan = plan_request(
        &state,
        &"POST".to_string(),
        &"test".to_string(),
        &vec![header("authorization", "Bearer goodkey")],
        Some(b"hello".to_vec()),
    );
    let out = expect_forward(plan);
    assert_eq!(out.method, "POST");
    assert_eq!(out.url, "http://localhost/v1/test");
    assert_eq!(out.body, b"hello".to_vec());
    let resp = map_outcome(UpstreamOutcome::Response {
        status: 200,
        headers: vec![],
        body: b"ok".to_vec(),
    });
    assert_eq!(resp.status, 200);
    assert_eq!(resp.body, b"ok".to_vec());
}

#[test]
fn forward_get_method() {
    let state = state(&["goodkey"], "http://localhost");
    let plan = plan_request(
        &state,
        &"GET".to_string(),
        &"test-get".to_string(),
        &vec![header("authorization", "Bearer goodkey")],
        Some(Vec::new()),
    );
    let out = expect_forward(plan);
    assert_eq!(out.method, "GET");
    assert_eq!(out.url, "http://localhost/v1/test-get");
    let resp = map_outcome(UpstreamOutcome::Response {
        status: 200,
        headers: vec![],
        body: b"okget".to_vec(),
    });
    assert_eq!(resp.status, 200);
    assert_eq!(resp.body, b"okget".to_vec());
}

#[test]
fn wrong_key_rejected() {
    let state = state(&["secret"], "http://localhost");
    let plan = plan_request(
        &state,
        &"GET".to_string(),
        &"models".to_string(),
        &vec![header("authorization", "Bearer wrong")],
        Some(Vec::new()),
    );
    let resp = expect_respond(plan);
    assert_eq!(resp.status, 401);
    assert_eq!(resp.body, b"Unauthorized".to_vec());
}

#[test]
fn empty_key_set_rejects_everyone() {
    let state = state(&[], "http://localhost");
    let plan = plan_request(
        &state,
        &"GET".to_string(),
        &"models".to_string(),
        &vec![header("authorization", "Bearer anything")],
        Some(Vec::new()),
    );
    assert_eq!(expect_respond(plan).status, 401);
}

#[test]
fn bearer_prefix_is_case_sensitive() {
    let state = state(&["secret"], "http://localhost");
    for bad in ["bearer secret", "Bearer", "Bearersecret", "Basic secret"] {
        let plan = plan_request(
            &state,
            &"GET".to_string(),
            &"models".to_string(),
            &vec![header("authorization", bad)],
            Some(Vec::new()),
        );
        assert_eq!(expect_respond(plan).status, 401);
    }
}

#[test]
fn auth_header_name_is_case_insensitive() {
    let state = state(&["secret"], "http://localhost");
    let plan = plan_request(
        &state,
        &"GET".to_string(),
        &"models".to_string(),
        &vec![header("AuThOrIzAtIoN", "Bearer secret")],
        Some(Vec::new()),
    );
    assert!(matches!(plan, Plan::Forward(_)));
}

#[test]
fn first_auth_header_decides() {
    let state = state(&["secret"], "http://localhost");
    let plan = plan_request(
        &state,
        &"GET".to_string(),
        &"models".to_string(),
        &vec![
            header("authorization", "Bearer wrong"),
            header("authorization", "Bearer secret"),
        ],
        Some(Vec::new()),
    );
    assert_eq!(expect_respond(plan).status, 401);
}

#[test]
fn non_text_auth_value_rejected() {
    let state = state(&["secret"], "http://localhost");
    let plan = plan_request(
        &state,
        &"GET".to_string(),
        &"models".to_string(),
        &vec![HeaderField { name: "authorization".to_string(), value: vec![0x80, 0x81] }],
        Some(Vec::new()),
    );
    assert_eq!(expect_respond(plan).status, 401);
}

#[test]
fn scenario_post_generate() {
    // Valid key "secret", POST to the generate endpoint, upstream answers
    // 200 with body "ok".
    let state = state(&["secret"], "http://localhost:11434");
    let plan = plan_request(
        &state,
        &"POST".to_string(),
        &"generate".to_string(),
        &vec![header("authorization", "Bearer secret")],
        Some(b"{\"prompt\":\"hi\"}".to_vec()),
    );
    let out = expect_forward(plan);
    assert_eq!(out.method, "POST");
    assert_eq!(out.url, "http://localhost:11434/v1/generate");
    assert_eq!(out.body, b"{\"prompt\":\"hi\"}".to_vec());
    let resp = map_outcome(UpstreamOutcome::Response {
        status: 200,
        headers: vec![],
        body: b"ok".to_vec(),
    });
    assert_eq!(resp.status, 200);
    assert_eq!(resp.body, b"ok".to_vec());
}

#[test]
fn scenario_missing_auth_get_models() {
    // No authorization header at all: 401, nothing forwarded.
    let state = state(&["secret"], "http://localhost");
    let plan = plan_request(
        &state,
        &"GET".to_string(),
        &"models".to_string(),
        &vec![header("accept", "application/json")],
        Some(Vec::new()),
    );
    let resp = expect_respond(plan);
    assert_eq!(resp.status, 401);
}

#[test]
fn scenario_upstream_unreachable() {
    // Valid key, but the upstream call fails at the transport level: 502.
    let state = state(&["secret"], "http://localhost");
    let plan = plan_request(
        &state,
        &"GET".to_string(),
        &"models".to_string(),
        &vec![header("authorization", "Bearer secret")],
        Some(Vec::new()),
    );
    assert!(matches!(plan, Plan::Forward(_)));
    let resp = map_outcome(UpstreamOutcome::TransportFailure);
    assert_eq!(resp.status, 502);
    assert_eq!(resp.body, b"Upstream request failed".to_vec());
}

#[test]
fn body_at_limit_forwarded_one_over_rejected() {
    let state = state(&["secret"], "http://localhost");
    let headers = vec![header("authorization", "Bearer secret")];
    let at_limit = vec![0u8; MAX_BODY_BYTES];
    let plan = plan_request(
        &state,
        &"POST".to_string(),
        &"generate".to_string(),
        &headers,
        Some(at_limit),
    );
    let out = expect_forward(plan);
    assert_eq!(out.body.len(), MAX_BODY_BYTES);
    let over = vec![0u8; MAX_BODY_BYTES + 1];
    let plan = plan_request(
        &state,
        &"POST".to_string(),
        &"generate".to_string(),
        &headers,
        Some(over),
    );
    let resp = expect_respond(plan);
    assert_eq!(resp.status, 400);
    assert_eq!(resp.body, b"Failed to read body".to_vec());
}

#[test]
fn unreadable_body_rejected() {
    let state = state(&["secret"], "http://localhost");
    let plan = plan_request(
        &state,
        &"POST".to_string(),
        &"generate".to_string(),
        &vec![header("authorization", "Bearer secret")],
        None,
    );
    let resp = expect_respond(plan);
    assert_eq!(resp.status, 400);
    assert_eq!(resp.body, b"Failed to read body".to_vec());
}

#[test]
fn outbound_headers_filtered() {
    let state = state(&["secret"], "http://localhost");
    let plan = plan_request(
        &state,
        &"POST".to_string(),
        &"generate".to_string(),
        &vec![
            header("host", "proxy.example"),
            header("authorization", "Bearer secret"),
            header("x-custom", "kept"),
            HeaderField { name: "x-binary".to_string(), value: vec![0xff, 0x00] },
            header("Content-Type", "application/json"),
        ],
        Some(Vec::new()),
    );
    let out = expect_forward(plan);
    assert_eq!(
        out.headers,
        vec![
            ("x-custom".to_string(), "kept".to_string()),
            ("Content-Type".to_string(), "application/json".to_string()),
        ]
    );
}

#[test]
fn host_exclusion_is_case_insensitive() {
    let state = state(&["secret"], "http://localhost");
    let plan = plan_request(
        &state,
        &"GET".to_string(),
        &"models".to_string(),
        &vec![header("authorization", "Bearer secret"), header("Host", "proxy.example")],
        Some(Vec::new()),
    );
    let out = expect_forward(plan);
    assert!(out.headers.is_empty());
}

#[test]
fn invalid_method_falls_back_to_get() {
    let state = state(&["secret"], "http://localhost");
    let plan = plan_request(
        &state,
        &"BAD METHOD".to_string(),
        &"models".to_string(),
        &vec![header("authorization", "Bearer secret")],
        Some(Vec::new()),
    );
    let out = expect_forward(plan);
    assert_eq!(out.method, "GET");
}

#[test]
fn custom_token_method_kept() {
    let state = state(&["secret"], "http://localhost");
    let plan = plan_request(
        &state,
        &"PURGE".to_string(),
        &"models".to_string(),
        &vec![header("authorization", "Bearer secret")],
        Some(Vec::new()),
    );
    let out = expect_forward(plan);
    assert_eq!(out.method, "PURGE");
}

#[test]
fn trailing_slashes_trimmed_from_base() {
    let state = state(&["secret"], "http://localhost:11434///");
    let plan = plan_request(
        &state,
        &"GET".to_string(),
        &"api/models".to_string(),
        &vec![header("authorization", "Bearer secret")],
        Some(Vec::new()),
    );
    let out = expect_forward(plan);
    assert_eq!(out.url, "http://localhost:11434/v1/api/models");
}

#[test]
fn upstream_error_status_relayed() {
    let resp = map_upstream_response(
        503,
        &vec![header("retry-after", "5")],
        b"busy".to_vec(),
    );
    assert_eq!(resp.status, 503);
    assert_eq!(resp.headers, vec![("retry-after".to_string(), "5".to_string())]);
    assert_eq!(resp.body, b"busy".to_vec());
}

#[test]
fn out_of_range_status_falls_back_to_200() {
    let resp = map_upstream_response(99, &vec![], Vec::new());
    assert_eq!(resp.status, 200);
    let resp = map_upstream_response(1000, &vec![], Vec::new());
    assert_eq!(resp.status, 200);
}

#[test]
fn response_headers_keep_text_drop_binary() {
    let resp = map_upstream_response(
        200,
        &vec![
            header("content-type", "text/plain"),
            HeaderField { name: "x-raw".to_string(), value: vec![0x9f] },
            header("x-tab", "a\tb"),
        ],
        Vec::new(),
    );
    assert_eq!(
        resp.headers,
        vec![
            ("content-type".to_string(), "text/plain".to_string()),
            ("x-tab".to_string(), "a\tb".to_string()),
        ]
    );
}

#[test]
fn app_state_copies_config() {
    let state = AppState::new(&authproxy::config::AppConfig {
        valid_keys: vec!["k".to_string()],
        ollama_url: "http://u".to_string(),
        proxy_host: "0.0.0.0".to_string(),
        proxy_port: 3000,
    });
    assert_eq!(state.valid_keys, vec!["k".to_string()]);
    assert_eq!(state.ollama_url, "http://u");
}
