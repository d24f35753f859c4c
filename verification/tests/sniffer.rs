use rust_wintun::sniff::{
    looks_like_http_port, report_for, sniff, HeadParse, HeaderField, ParseErrorKind, RequestHead,
    ResponseHead, SniffReport, TextHeader, INSPECT_LIMIT,
};

fn sniffer_header(name: &str, value: &str) -> TextHeader {
    TextHeader { name: name.to_string(), value: value.to_string() }
}

#[test]
fn http_ports_are_the_five_conventional_ones() {
    for port in [80u16, 8080, 8000, 8008, 8888] {
        assert!(looks_like_http_port(port));
    }
    for port in [0u16, 53, 79, 81, 443, 8001, 8081, 8889, 65535] {
        assert!(!looks_like_http_port(port));
    }
}

#[test]
fn complete_request_is_reported() {
    let report = sniff(b"GET / HTTP/1.1\r\nHost: x\r\n\r\n", 50000, 80);
    assert_eq!(
        report,
        Some(SniffReport::Request {
            method: Some("GET".to_string()),
            path: Some("/".to_string()),
            version: Some(1),
            headers: vec![sniffer_header("Host", "x")],
        })
    );
}

#[test]
fn truncated_request_is_incomplete() {
    assert_eq!(sniff(b"GET / HTTP/", 50000, 80), Some(SniffReport::Incomplete));
}

#[test]
fn empty_payload_is_incomplete() {
    assert_eq!(sniff(b"", 80, 50000), Some(SniffReport::Incomplete));
}

#[test]
fn complete_response_is_reported() {
    let report = sniff(b"HTTP/1.1 404 Not Found\r\nContent-Length: 0\r\nServer: t\r\n\r\nbody", 8080, 50000);
    assert_eq!(
        report,
        Some(SniffReport::Response {
            version: Some(1),
            code: Some(404),
            reason: Some("Not Found".to_string()),
            headers: vec![sniffer_header("Content-Length", "0"), sniffer_header("Server", "t")],
        })
    );
}

#[test]
fn truncated_response_is_incomplete() {
    assert_eq!(sniff(b"HTTP/1.1 200 OK\r\nContent-Le", 8000, 1), Some(SniffReport::Incomplete));
}

#[test]
fn other_bytes_are_malformed() {
    let report = sniff(&[1u8, 2, 3, 4, 5, 6, 7, 8, 9, 10], 8888, 8888);
    assert_eq!(
        report,
        Some(SniffReport::Malformed {
            request: ParseErrorKind::Token,
            response: ParseErrorKind::Version,
        })
    );
}

#[test]
fn other_ports_are_not_inspected() {
    assert_eq!(sniff(b"GET / HTTP/1.1\r\nHost: x\r\n\r\n", 50000, 443), None);
    assert_eq!(sniff(b"", 1, 2), None);
}

#[test]
fn either_port_suffices() {
    assert!(sniff(b"GET / HTTP/1.1\r\n\r\n", 8008, 9).is_some());
    assert!(sniff(b"GET / HTTP/1.1\r\n\r\n", 9, 8008).is_some());
}

#[test]
fn headers_with_unreadable_values_are_left_out() {
    let report = sniff(b"GET /a HTTP/1.0\r\nA: \xff\xfe\r\nB: ok\r\n\r\n", 1, 80);
    assert_eq!(
        report,
        Some(SniffReport::Request {
            method: Some("GET".to_string()),
            path: Some("/a".to_string()),
            version: Some(0),
            headers: vec![sniffer_header("B", "ok")],
        })
    );
}

#[test]
fn only_a_bounded_prefix_is_inspected() {
    let mut late = b"GET / HTTP/1.1\r\nX: ".to_vec();
    late.resize(INSPECT_LIMIT, b'a');
    late.extend_from_slice(b"\r\n\r\n");
    assert_eq!(sniff(&late, 1, 80), Some(SniffReport::Incomplete));
    let mut early = b"GET / HTTP/1.1\r\nX: ".to_vec();
    early.resize(INSPECT_LIMIT - 4, b'a');
    early.extend_from_slice(b"\r\n\r\n");
    early.extend_from_slice(&[0u8; 100]);
    assert!(matches!(sniff(&early, 1, 80), Some(SniffReport::Request { .. })));
}

#[test]
fn too_many_headers_are_malformed() {
    let mut payload = b"GET / HTTP/1.1\r\n".to_vec();
    for _ in 0..65 {
        payload.extend_from_slice(b"A: b\r\n");
    }
    payload.extend_from_slice(b"\r\n");
    assert_eq!(
        sniff(&payload, 1, 80),
        Some(SniffReport::Malformed {
            request: ParseErrorKind::TooManyHeaders,
            response: ParseErrorKind::Version,
        })
    );
}

#[test]
fn report_follows_both_answers() {
    let request = RequestHead {
        method: Some("PUT".to_string()),
        path: None,
        version: Some(1),
        headers: vec![
            HeaderField { name: "Bad".to_string(), value: vec![0xc0] },
            HeaderField { name: "Good".to_string(), value: b"caf\xc3\xa9".to_vec() },
        ],
    };
    let response = ResponseHead { version: None, code: Some(200), reason: None, headers: vec![] };
    assert_eq!(
        report_for(HeadParse::Complete(request.clone()), HeadParse::Complete(response.clone())),
        SniffReport::Request {
            method: Some("PUT".to_string()),
            path: None,
            version: Some(1),
            headers: vec![sniffer_header("Good", "caf\u{e9}")],
        }
    );
    assert_eq!(
        report_for(HeadParse::Complete(request), HeadParse::Failed(ParseErrorKind::Status)),
        SniffReport::Request {
            method: Some("PUT".to_string()),
            path: None,
            version: Some(1),
            headers: vec![sniffer_header("Good", "caf\u{e9}")],
        }
    );
    assert_eq!(
        report_for(HeadParse::Partial, HeadParse::Complete(response.clone())),
        SniffReport::Response { version: None, code: Some(200), reason: None, headers: vec![] }
    );
    assert_eq!(
        report_for(HeadParse::Failed(ParseErrorKind::Token), HeadParse::Complete(response)),
        SniffReport::Response { version: None, code: Some(200), reason: None, headers: vec![] }
    );
    assert_eq!(report_for(HeadParse::Partial, HeadParse::Partial), SniffReport::Incomplete);
    assert_eq!(
        report_for(HeadParse::Partial, HeadParse::Failed(ParseErrorKind::Version)),
        SniffReport::Incomplete
    );
    assert_eq!(
        report_for(HeadParse::Failed(ParseErrorKind::NewLine), HeadParse::Partial),
        SniffReport::Incomplete
    );
    assert_eq!(
        report_for(
            HeadParse::Failed(ParseErrorKind::HeaderName),
            HeadParse::Failed(ParseErrorKind::HeaderValue)
        ),
        SniffReport::Malformed {
            request: ParseErrorKind::HeaderName,
            response: ParseErrorKind::HeaderValue,
        }
    );
}

fn sniffer_kinds(payload: &[u8]) -> Option<(ParseErrorKind, ParseErrorKind)> {
    match sniff(payload, 80, 80) {
        Some(SniffReport::Malformed { request, response }) => Some((request, response)),
        _ => None,
    }
}

#[test]
fn each_parser_error_is_told() {
    assert_eq!(
        sniffer_kinds(b"GET / HTTP/1.1\rX-rest-of-it"),
        Some((ParseErrorKind::NewLine, ParseErrorKind::Version))
    );
    assert_eq!(
        sniffer_kinds(b"GET / HTTP/1.1\r\n@: x\r\n\r\n"),
        Some((ParseErrorKind::HeaderName, ParseErrorKind::Version))
    );
    assert_eq!(
        sniffer_kinds(b"GET / HTTP/1.1\r\nA: \x00\r\n\r\n"),
        Some((ParseErrorKind::HeaderValue, ParseErrorKind::Version))
    );
    assert_eq!(
        sniffer_kinds(b"GET / HTTP/9.9\r\n\r\n"),
        Some((ParseErrorKind::Version, ParseErrorKind::Version))
    );
    assert_eq!(
        sniffer_kinds(b"HTTP/1.1 2x0 OK\r\n\r\n"),
        Some((ParseErrorKind::Token, ParseErrorKind::Status))
    );
    assert_eq!(
        sniffer_kinds(b"HTTP/1.1 200 OK\r\nA\x01: b\r\n\r\n"),
        Some((ParseErrorKind::Token, ParseErrorKind::HeaderName))
    );
}
