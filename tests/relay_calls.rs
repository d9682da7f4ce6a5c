use http_relay::error::RelayError;
use http_relay::headers::find_header;
use http_relay::relay::{advance, RelayAction, RelayEvent, RelayState};
use http_relay::request::OutboundRequest;
use http_relay::response::into_envelope;
use http_relay::timing::TimingMarks;
use http_relay::types::{RelayResponse, Request, RequestBody, RequestMethod, ScalarValue};

const BASE: &str = "http://127.0.0.1:4010";
const CLIENT_TS: i64 = 1_700_000_000_000;

fn request(url: &str, method: RequestMethod) -> Request {
    Request {
        url: url.to_string(),
        method,
        headers: Vec::new(),
        body: RequestBody { content_type: None, content: None },
        params: Vec::new(),
    }
}

fn marks() -> TimingMarks {
    TimingMarks { call_start: 0, sent: 1_000, headers_received: 3_000, body_received: 4_000 }
}

struct Reply {
    status: u16,
    headers: Vec<(String, Vec<u8>)>,
    body: Vec<u8>,
}

fn reply(status: u16, headers: &[(&str, &str)], body: &str) -> Reply {
    Reply {
        status,
        headers: headers.iter().map(|(k, v)| (k.to_string(), v.as_bytes().to_vec())).collect(),
        body: body.as_bytes().to_vec(),
    }
}

/// Drives one call through the step function against a simulated server and
/// returns what went out together with the envelope.
fn relay(
    req: Request,
    server: impl Fn(&OutboundRequest) -> Reply,
    m: TimingMarks,
) -> (Option<OutboundRequest>, RelayResponse) {
    let (state, action) =
        advance(RelayState::Ready, RelayEvent::Start { request: req, client_timestamp: CLIENT_TS });
    let out = match action {
        RelayAction::Send(out) => out,
        RelayAction::Complete(outcome) => {
            return (None, into_envelope(outcome, "2024-01-01T00:00:00+00:00".to_string()))
        }
        other => panic!("unexpected action {:?}", other),
    };
    let r = server(&out);
    let (state, action) =
        advance(state, RelayEvent::Headers { status: r.status, headers: r.headers });
    assert!(matches!(action, RelayAction::ReadBody { .. }));
    let (_, action) = advance(state, RelayEvent::Body { bytes: r.body, marks: m });
    match action {
        RelayAction::Complete(outcome) => {
            (Some(out), into_envelope(outcome, "2024-01-01T00:00:00+00:00".to_string()))
        }
        other => panic!("unexpected action {:?}", other),
    }
}

fn header<'a>(out: &'a OutboundRequest, name: &str) -> Option<&'a str> {
    find_header(&out.headers, name).map(|h| h.value.as_str())
}

#[test]
fn test_simple_get_request() {
    let (_, response) = relay(
        request(&format!("{}/test", BASE), RequestMethod::GET),
        |out| {
            assert!(out.url.ends_with("/test"));
            reply(200, &[], "Hello, World!")
        },
        marks(),
    );
    assert_eq!(response.status, "success");
    assert!(response.response.is_some());
    let resp = response.response.unwrap();
    assert_eq!(resp.status_code, 200);
    assert_eq!(resp.content, "Hello, World!");
    assert!(resp.performance.duration > 0);
    assert_eq!(resp.performance.duration, 4_000);
    assert_eq!(resp.performance.transfer_time, 1_000);
}

#[test]
fn test_post_request_with_body() {
    let mut req = request(&format!("{}/api/data", BASE), RequestMethod::POST);
    req.headers.push(("content-type".to_string(), ScalarValue::Text("application/json".to_string())));
    req.body = RequestBody {
        content_type: Some("application/json".to_string()),
        content: Some(r#"{"name":"test"}"#.to_string()),
    };
    let (out, response) = relay(
        req,
        |out| {
            assert_eq!(out.body.as_deref(), Some(r#"{"name":"test"}"#));
            assert_eq!(header(out, "content-type"), Some("application/json"));
            reply(201, &[("content-type", "application/json")], r#"{"id":123,"name":"test"}"#)
        },
        marks(),
    );
    assert!(out.is_some());
    assert_eq!(response.status, "success");
    let resp = response.response.unwrap();
    assert_eq!(resp.status_code, 201);
    assert!(resp.content.contains("123"));
    assert_eq!(resp.content_type.as_deref(), Some("application/json"));
}

#[test]
fn test_request_with_query_params() {
    let mut req = request(&format!("{}/search", BASE), RequestMethod::GET);
    req.params.push(("q".to_string(), ScalarValue::Text("rust".to_string())));
    req.params.push(("limit".to_string(), ScalarValue::Number("10".to_string())));
    let (out, response) = relay(req, |_| reply(200, &[], "Search results"), marks());
    assert!(out.unwrap().url.ends_with("/search?q=rust&limit=10"));
    assert_eq!(response.status, "success");
    let resp = response.response.unwrap();
    assert_eq!(resp.status_code, 200);
    assert_eq!(resp.content, "Search results");
}

#[test]
fn test_request_with_custom_headers() {
    let mut req = request(&format!("{}/protected", BASE), RequestMethod::GET);
    req.headers.push(("Authorization".to_string(), ScalarValue::Text("Bearer token123".to_string())));
    let (out, response) = relay(
        req,
        |out| {
            if header(out, "Authorization") == Some("Bearer token123") {
                reply(200, &[], "Authorized")
            } else {
                reply(401, &[], "Unauthorized")
            }
        },
        marks(),
    );
    let out = out.unwrap();
    assert_eq!(find_header(&out.headers, "authorization").unwrap().name, "Authorization");
    assert_eq!(response.status, "success");
    let resp = response.response.unwrap();
    assert_eq!(resp.status_code, 200);
}

#[test]
fn test_different_http_methods() {
    let mut req = request(&format!("{}/resource", BASE), RequestMethod::PUT);
    req.body.content = Some("updated".to_string());
    let (out, response) = relay(req, |_| reply(200, &[], ""), marks());
    assert_eq!(out.unwrap().body.as_deref(), Some("updated"));
    assert_eq!(response.status, "success");

    let req = request(&format!("{}/resource", BASE), RequestMethod::DELETE);
    let (out, response) = relay(req, |_| reply(204, &[], ""), marks());
    assert_eq!(out.unwrap().body, None);
    assert_eq!(response.status, "success");
    assert_eq!(response.response.unwrap().status_code, 204);

    let mut req = request(&format!("{}/resource", BASE), RequestMethod::PATCH);
    req.body.content = Some("patch".to_string());
    let (out, response) = relay(req, |_| reply(200, &[], ""), marks());
    let out = out.unwrap();
    assert_eq!(out.method, RequestMethod::PATCH);
    assert_eq!(out.body.as_deref(), Some("patch"));
    assert_eq!(response.status, "success");
}

#[test]
fn test_response_headers_captured() {
    let req = request(&format!("{}/test", BASE), RequestMethod::GET);
    let (_, response) = relay(
        req,
        |_| reply(200, &[("X-Custom-Header", "CustomValue"), ("Content-Type", "text/plain")], "test"),
        marks(),
    );
    let resp = response.response.unwrap();
    let h = resp.headers.iter().find(|h| h.id == "x-custom-header");
    assert!(h.is_some());
    assert_eq!(h.unwrap().value, "CustomValue");
    assert_eq!(h.unwrap().name, "X-Custom-Header");
    assert_eq!(find_header(&resp.headers, "X-CUSTOM-HEADER").unwrap().value, "CustomValue");
    assert_eq!(resp.content_type.as_deref(), Some("text/plain"));
}

#[test]
fn test_error_handling_invalid_url() {
    let req = request("not-a-valid-url", RequestMethod::GET);
    let (out, response) = relay(req, |_| panic!("no transport attempt is made"), marks());
    assert!(out.is_none());
    assert_eq!(response.status, "error");
    assert!(response.response.is_none());
    assert!(response.message.is_some());
    assert!(response.message.unwrap().contains("Invalid URL"));
}

#[test]
fn test_timing_metrics_are_reasonable() {
    // the server holds its answer for 50 ms
    let m = TimingMarks { call_start: 0, sent: 400, headers_received: 50_900, body_received: 51_300 };
    let req = request(&format!("{}/slow", BASE), RequestMethod::GET);
    let (_, response) = relay(req, |_| reply(200, &[], "delayed response"), m);
    let perf = response.response.unwrap().performance;
    assert!(perf.duration >= 50_000, "Duration should be at least 50ms, got {}", perf.duration);
    let sum = perf.latency + perf.processing_time + perf.transfer_time;
    assert!(perf.duration >= sum, "Duration ({}) should be >= sum of components ({})", perf.duration, sum);
    let overhead = perf.duration - sum;
    assert!(overhead < 2_000_000, "Overhead ({}) between duration and components seems too large", overhead);
    // 50.5 ms to first byte: 10% latency, 70% of the rest processing
    assert_eq!(perf.latency, 5_050);
    assert_eq!(perf.processing_time, 31_815);
    assert_eq!(perf.transfer_time, 400);
}

#[test]
fn test_large_response_body() {
    let large_body = "x".repeat(1024 * 1024);
    let req = request(&format!("{}/large", BASE), RequestMethod::GET);
    let (_, response) = relay(req, |_| reply(200, &[], &large_body), marks());
    let resp = response.response.unwrap();
    assert_eq!(resp.status_code, 200);
    assert_eq!(resp.performance.transfer_size, 1024 * 1024);
    assert!(resp.performance.transfer_time > 0, "Transfer time should be measured for large response");
}

#[test]
fn test_client_timestamp_header_sent() {
    let req = request(&format!("{}/test", BASE), RequestMethod::GET);
    let (out, response) = relay(req, |_| reply(200, &[], ""), marks());
    let out = out.unwrap();
    let h = find_header(&out.headers, "X-Client-Timestamp").unwrap();
    assert_eq!(h.name, "X-Client-Timestamp");
    assert_eq!(h.value, "1700000000000");
    assert_eq!(response.status, "success");
}

#[test]
fn test_e2e_json_response() {
    let req = request(&format!("{}/json", BASE), RequestMethod::GET);
    let body = r#"{"id":1,"name":"John Doe","email":"john@example.com"}"#;
    let (_, response) = relay(req, |_| reply(200, &[("content-type", "application/json")], body), marks());
    assert_eq!(response.status, "success");
    let resp = response.response.unwrap();
    assert_eq!(resp.status_code, 200);
    assert!(resp.content.contains("John Doe"));
    assert_eq!(resp.content_type.as_deref(), Some("application/json"));
}

#[test]
fn test_e2e_different_status_codes() {
    for code in [201u16, 404, 500] {
        let req = request(&format!("{}/status/{}", BASE, code), RequestMethod::GET);
        let (_, response) = relay(req, |_| reply(code, &[], ""), marks());
        assert_eq!(response.status, "success");
        assert_eq!(response.response.unwrap().status_code, code);
    }
}

#[test]
fn test_e2e_echo_request_body() {
    let mut req = request(&format!("{}/echo", BASE), RequestMethod::POST);
    req.body = RequestBody {
        content_type: Some("text/plain".to_string()),
        content: Some("Echo this message back".to_string()),
    };
    let (_, response) = relay(
        req,
        |out| reply(200, &[], out.body.as_deref().unwrap_or("")),
        marks(),
    );
    let resp = response.response.unwrap();
    assert_eq!(resp.status_code, 200);
    assert_eq!(resp.content, "Echo this message back");
}

#[test]
fn transport_failure_gives_error_envelope() {
    let req = request(&format!("{}/down", BASE), RequestMethod::GET);
    let (state, action) =
        advance(RelayState::Ready, RelayEvent::Start { request: req, client_timestamp: CLIENT_TS });
    assert!(matches!(action, RelayAction::Send(_)));
    let (state, action) =
        advance(state, RelayEvent::Failure(RelayError::Transport("connection refused".to_string())));
    assert!(matches!(state, RelayState::Finished));
    let outcome = match action {
        RelayAction::Complete(outcome) => outcome,
        other => panic!("unexpected action {:?}", other),
    };
    let env = into_envelope(outcome, "t".to_string());
    assert_eq!(env.status, "error");
    assert_eq!(env.message.as_deref(), Some("Request failed: connection refused"));
    assert_eq!(env.timestamp, "t");
}

#[test]
fn same_description_twice_gives_same_outcome() {
    let run = |m: TimingMarks| {
        let req = request(&format!("{}/hello", BASE), RequestMethod::GET);
        relay(req, |_| reply(200, &[], "Hello, World!"), m).1
    };
    let a = run(marks());
    let b = run(TimingMarks { call_start: 10, sent: 90, headers_received: 7_000, body_received: 9_000 });
    assert_eq!(a.status, b.status);
    let (ra, rb) = (a.response.unwrap(), b.response.unwrap());
    assert_eq!(ra.status_code, rb.status_code);
    assert_eq!(ra.content, rb.content);
    assert_ne!(ra.performance.duration, rb.performance.duration);
}
