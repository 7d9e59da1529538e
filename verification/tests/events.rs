// Body formatting, correlation, log events and failure mapping, exercised
// end to end at the library's boundary, with the real JSON machinery
// linked in.

use logproxy::CapturedRequest;
use logproxy::HttpResponse;
use logproxy::Pair;
use logproxy::ProxyFailure;
use logproxy::assign_request_id;
use logproxy::body::format_body;
use logproxy::error_response;
use logproxy::handle_outcome;
use logproxy::request_log_event;
use logproxy::response_log_event;

fn header(name: &str, value: &str) -> Pair {
    Pair { name: name.to_string(), value: value.to_string() }
}

#[test]
fn json_body_pretty_printed_round_trips() {
    let body = b"{\"id\":1,\"name\":\"ada\"}".to_vec();
    let (text, as_json) = format_body(&body, true);
    assert!(as_json);
    // multi-line pretty form
    assert!(text.contains('\n'));
    // parse -> pretty-print loses no keys and no values
    let reparsed: serde_json::Value = serde_json::from_str(&text).unwrap();
    let original: serde_json::Value = serde_json::from_str("{\"id\":1,\"name\":\"ada\"}").unwrap();
    assert_eq!(reparsed, original);
}

#[test]
fn non_json_body_logged_verbatim() {
    let body = b"not json".to_vec();
    let (text, as_json) = format_body(&body, true);
    assert!(!as_json);
    assert_eq!(text, "not json");
    let (plain, plain_json) = format_body(&body, false);
    assert!(!plain_json);
    assert_eq!(plain, "not json");
}

#[test]
fn json_body_without_pretty_fields_stays_verbatim() {
    let body = b"{\"id\":1}".to_vec();
    let (text, as_json) = format_body(&body, false);
    assert!(!as_json);
    assert_eq!(text, "{\"id\":1}");
}

#[test]
fn invalid_utf8_body_gets_placeholder() {
    let body = vec![0xff, 0xfe, 0x01];
    let (text, as_json) = format_body(&body, true);
    assert!(!as_json);
    assert_eq!(text, "<body is not valid utf-8>");
}

#[test]
fn empty_body_tolerated() {
    let body: Vec<u8> = Vec::new();
    let (text, as_json) = format_body(&body, false);
    assert!(!as_json);
    assert_eq!(text, "");
}

#[test]
fn request_id_reused_from_header() {
    let headers = vec![header("host", "localhost"), header("x-request-id", "abc-123")];
    assert_eq!(assign_request_id(&headers), "abc-123");
}

#[test]
fn request_id_header_lookup_ignores_case() {
    let headers = vec![header("X-Request-Id", "abc")];
    assert_eq!(assign_request_id(&headers), "abc");
}

#[test]
fn request_id_minted_when_header_missing() {
    let headers = vec![header("host", "localhost")];
    let one = assign_request_id(&headers);
    let two = assign_request_id(&headers);
    assert_eq!(one.len(), 36);
    assert_eq!(two.len(), 36);
    assert_ne!(one, two);
}

#[test]
fn request_id_minted_when_header_empty() {
    let headers = vec![header("x-request-id", "")];
    assert_eq!(assign_request_id(&headers).len(), 36);
}

#[test]
fn transport_failure_maps_to_500_with_json_message() {
    let resp = error_response(&ProxyFailure::Transport("connection refused".to_string()));
    assert_eq!(resp.status, 500);
    assert_eq!(resp.headers.len(), 1);
    assert_eq!(resp.headers[0].name, "content-type");
    assert_eq!(resp.headers[0].value, "application/json");
    assert_eq!(resp.body, b"{\"message\":\"connection refused\"}".to_vec());
    let parsed: serde_json::Value = serde_json::from_slice(&resp.body).unwrap();
    assert_eq!(parsed["message"].as_str(), Some("connection refused"));
}

#[test]
fn invalid_destination_maps_to_500_with_json_message() {
    let resp = error_response(&ProxyFailure::InvalidDestination("bad uri".to_string()));
    assert_eq!(resp.status, 500);
    assert_eq!(resp.headers[0].value, "application/json");
    let parsed: serde_json::Value = serde_json::from_slice(&resp.body).unwrap();
    assert!(!parsed["message"].as_str().unwrap().is_empty());
}

#[test]
fn other_failure_maps_to_bare_500() {
    let resp = error_response(&ProxyFailure::Other("header rejected".to_string()));
    assert_eq!(resp.status, 500);
    assert_eq!(resp.headers.len(), 0);
    assert_eq!(resp.body.len(), 0);
}

fn orders_request() -> CapturedRequest {
    CapturedRequest {
        method: "GET".to_string(),
        path: "/orders".to_string(),
        query: "status=open".to_string(),
        version: "HTTP/1.1".to_string(),
        headers: vec![header("x-request-id", "abc-123")],
        body: Vec::new(),
    }
}

#[test]
fn json_envelope_request_event_is_valid_json() {
    let req = orders_request();
    let id = assign_request_id(&req.headers);
    assert_eq!(id, "abc-123");
    let line = request_log_event(&req, &id, true, true);
    let parsed: serde_json::Value = serde_json::from_str(&line).unwrap();
    assert_eq!(parsed["type"].as_str(), Some("request"));
    assert_eq!(parsed["requestId"].as_str(), Some("abc-123"));
    assert_eq!(parsed["path"].as_str(), Some("/orders"));
    assert_eq!(parsed["method"].as_str(), Some("GET"));
    assert_eq!(parsed["version"].as_str(), Some("HTTP/1.1"));
    assert_eq!(parsed["query"]["status"].as_str(), Some("open"));
    assert_eq!(parsed["body"].as_str(), Some(""));
}

#[test]
fn json_envelope_response_event_carries_same_id() {
    let upstream = HttpResponse {
        status: 200,
        headers: vec![header("content-type", "application/json")],
        body: b"{\"id\":1}".to_vec(),
    };
    let verdict = handle_outcome("abc-123", true, true, Ok(upstream));
    assert!(!verdict.error_level);
    // the client receives the upstream response unchanged
    assert_eq!(verdict.response.status, 200);
    assert_eq!(verdict.response.body, b"{\"id\":1}".to_vec());
    let parsed: serde_json::Value = serde_json::from_str(&verdict.log_line).unwrap();
    assert_eq!(parsed["type"].as_str(), Some("response"));
    assert_eq!(parsed["requestId"].as_str(), Some("abc-123"));
    assert_eq!(parsed["statusCode"].as_str(), Some("200"));
    assert_eq!(parsed["body"]["id"].as_i64(), Some(1));
}

#[test]
fn plain_style_logs_raw_body_text() {
    let req = CapturedRequest {
        method: "POST".to_string(),
        path: "/items".to_string(),
        query: String::new(),
        version: "HTTP/1.1".to_string(),
        headers: vec![header("host", "localhost")],
        body: b"not json".to_vec(),
    };
    let line = request_log_event(&req, "id-1", false, false);
    let expected = "\n-----------------\nRequestId: id-1\nPath: /items\nQuery: {}\nMethod: POST\nVersion: HTTP/1.1\nHeaders: {\"host\": \"localhost\"}\nBody: not json\n-----------------";
    assert_eq!(line, expected);
}

#[test]
fn plain_style_response_block() {
    let upstream = HttpResponse {
        status: 204,
        headers: Vec::new(),
        body: Vec::new(),
    };
    let line = response_log_event(&upstream, "id-2", false, false);
    let expected = "\n-----------------\nRequestId: id-2\nHeaders: {}\nStatusCode: 204\nBody: \n-----------------";
    assert_eq!(line, expected);
}

#[test]
fn destination_unreachable_scenario() {
    let outcome: Result<HttpResponse, ProxyFailure> =
        Err(ProxyFailure::Transport("destination unreachable".to_string()));
    let verdict = handle_outcome("abc-123", true, true, outcome);
    // exactly the error-level event, no response event
    assert!(verdict.error_level);
    assert_eq!(verdict.log_line, "destination unreachable");
    assert_eq!(verdict.response.status, 500);
    let parsed: serde_json::Value = serde_json::from_slice(&verdict.response.body).unwrap();
    assert_eq!(parsed["message"].as_str(), Some("destination unreachable"));
}

#[test]
fn rerun_with_fixed_upstream_is_byte_identical() {
    let make_upstream = || HttpResponse {
        status: 200,
        headers: vec![header("content-type", "text/plain")],
        body: b"payload".to_vec(),
    };
    let first = handle_outcome("same-id", true, true, Ok(make_upstream()));
    let second = handle_outcome("same-id", true, true, Ok(make_upstream()));
    assert_eq!(first.response.body, second.response.body);
    assert_eq!(first.response.status, second.response.status);
    assert_eq!(first.log_line, second.log_line);
    assert_eq!(first.response.body, b"payload".to_vec());
}
