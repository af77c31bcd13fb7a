use kaiyote::forward::{
    blocked_status, failure_status, plan_forward, plan_relay, ProxyFailure,
};

fn headers(pairs: &[(&str, &[u8])]) -> Vec<(String, Vec<u8>)> {
    pairs.iter().map(|(k, v)| (k.to_string(), v.to_vec())).collect()
}

#[test]
fn round_trip_fidelity() {
    let inbound = headers(&[
        ("a", b"1"),
        ("b", b"2"),
        ("host", b"proxy.local"),
        ("content-length", b"5"),
    ]);
    let request = plan_forward(
        "http://127.0.0.1:8080",
        "POST".to_string(),
        "/echo",
        None,
        &inbound,
        b"hello".to_vec(),
    );
    assert_eq!(request.method, "POST");
    assert_eq!(request.url, "http://127.0.0.1:8080/echo");
    assert_eq!(request.headers, headers(&[("a", b"1"), ("b", b"2")]));
    assert_eq!(request.body, Some(b"hello".to_vec()));

    // a stub upstream answers; the relay keeps status, headers and body
    // byte-for-byte except the recomputed framing headers
    let upstream = headers(&[
        ("x-up", b"yes"),
        ("content-length", b"3"),
        ("transfer-encoding", b"chunked"),
    ]);
    let relayed = plan_relay(201, &upstream, b"abc".to_vec());
    assert_eq!(relayed.status, 201);
    assert_eq!(relayed.headers, headers(&[("x-up", b"yes")]));
    assert_eq!(relayed.body, b"abc".to_vec());
}

#[test]
fn query_string_passed_through_verbatim() {
    let request = plan_forward(
        "http://127.0.0.1:8080",
        "GET".to_string(),
        "/search",
        Some("k=v&k=w&b=&a=1"),
        &headers(&[]),
        Vec::new(),
    );
    assert_eq!(request.url, "http://127.0.0.1:8080/search?k=v&k=w&b=&a=1");
}

#[test]
fn empty_body_is_not_attached() {
    let request = plan_forward(
        "http://127.0.0.1:8080",
        "GET".to_string(),
        "/ping",
        None,
        &headers(&[("a", b"1")]),
        Vec::new(),
    );
    assert_eq!(request.body, None);
    assert_eq!(request.headers, headers(&[("a", b"1")]));
}

#[test]
fn header_case_and_order_are_kept() {
    let inbound = headers(&[("b", b"2"), ("a", b"1"), ("host", b"h"), ("a", b"3")]);
    let request = plan_forward(
        "http://t",
        "PUT".to_string(),
        "/x",
        None,
        &inbound,
        b"z".to_vec(),
    );
    assert_eq!(
        request.headers,
        headers(&[("b", b"2"), ("a", b"1"), ("a", b"3")])
    );
}

#[test]
fn blocked_and_failure_statuses() {
    assert_eq!(blocked_status(), 500);
    assert_eq!(failure_status(&ProxyFailure::UnreadableBody), 400);
    assert_eq!(failure_status(&ProxyFailure::UpstreamUnreachable), 502);
    assert_eq!(failure_status(&ProxyFailure::ResponseConstruction), 500);
}
