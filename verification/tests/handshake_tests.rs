use base64::Engine;
use wsrelay::handshake::{
    assemble_request, build_request, has_reserved, reserved_name, HandshakeRequest, Header,
    ParsedUrl, RequestError, KEY_LENGTH,
};

fn header(name: &str, value: &str) -> Header {
    Header { name: name.to_string(), value: value.to_string() }
}

fn names(request: &HandshakeRequest) -> Vec<String> {
    request.headers.iter().map(|h| h.name.clone()).collect()
}

#[test]
fn credential_becomes_basic_authorization() {
    let request = build_request("ws://example.test/socket", Some("alice:secret"), &vec![]).unwrap();
    assert_eq!(request.header("Authorization"), Some("Basic YWxpY2U6c2VjcmV0"));
    assert_eq!(
        request.headers[5],
        header("Authorization", "Basic YWxpY2U6c2VjcmV0")
    );
}

#[test]
fn no_credential_no_authorization() {
    let request = build_request("ws://example.test/socket", None, &vec![]).unwrap();
    assert_eq!(request.header("Authorization"), None);
    assert!(request.headers.iter().all(|h| !h.name.eq_ignore_ascii_case("authorization")));
    assert_eq!(request.headers.len(), 5);
}

#[test]
fn successive_keys_differ() {
    let a = build_request("ws://example.test/socket", None, &vec![]).unwrap();
    let b = build_request("ws://example.test/socket", None, &vec![]).unwrap();
    assert_ne!(a.header("Sec-WebSocket-Key"), b.header("Sec-WebSocket-Key"));
}

#[test]
fn key_is_sixteen_random_bytes_in_base64() {
    let request = build_request("ws://example.test/socket", None, &vec![]).unwrap();
    let key = request.header("Sec-WebSocket-Key").unwrap();
    assert_eq!(key.len(), 24);
    let bytes = base64::engine::general_purpose::STANDARD.decode(key).unwrap();
    assert_eq!(bytes.len(), KEY_LENGTH);
    assert_ne!(bytes, vec![0u8; 16]);
}

#[test]
fn request_line_and_mandatory_headers() {
    let request = build_request("ws://example.test/socket", None, &vec![]).unwrap();
    assert_eq!(request.method, "GET");
    assert_eq!(request.uri, "ws://example.test/socket");
    assert_eq!(request.version, "HTTP/1.1");
    assert_eq!(
        names(&request),
        vec!["Connection", "Host", "Upgrade", "Sec-WebSocket-Version", "Sec-WebSocket-Key"]
    );
    assert_eq!(request.header("Connection"), Some("Upgrade"));
    assert_eq!(request.header("Host"), Some("example.test"));
    assert_eq!(request.header("Upgrade"), Some("websocket"));
    assert_eq!(request.header("Sec-WebSocket-Version"), Some("13"));
}

#[test]
fn target_is_written_as_the_parser_writes_it() {
    let request = build_request("WS://Example.TEST", None, &vec![]).unwrap();
    assert_eq!(request.uri, "ws://example.test/");
    assert_eq!(request.header("host"), Some("example.test"));
    let secure = build_request("wss://example.test:8443/a b?q=1", None, &vec![]).unwrap();
    assert_eq!(secure.uri, "wss://example.test:8443/a%20b?q=1");
    assert_eq!(secure.header("Host"), Some("example.test"));
}

#[test]
fn invalid_targets_are_refused() {
    for url in ["", "not a url", "example.test/socket", "http://example.test/", "ws://", "ws:", "mailto:a@b.c"] {
        assert_eq!(build_request(url, None, &vec![]), Err(RequestError::InvalidUrl), "{}", url);
    }
}

#[test]
fn extra_headers_come_last_in_their_order() {
    let extra = vec![header("X-Two", "2"), header("X-One", "1"), header("X-Two", "3")];
    let request = build_request("ws://example.test/", Some("u:p"), &extra).unwrap();
    assert_eq!(request.headers.len(), 9);
    assert_eq!(request.headers[6..], extra[..]);
    assert_eq!(request.header("x-two"), Some("2"));
}

#[test]
fn reserved_headers_are_refused() {
    for name in ["Host", "connection", "UPGRADE", "sec-websocket-version", "Sec-WebSocket-Key", "authorization"] {
        let extra = vec![header("X-Fine", "1"), header(name, "x")];
        assert_eq!(
            build_request("ws://example.test/", None, &extra),
            Err(RequestError::ReservedHeader),
            "{}",
            name
        );
    }
}

#[test]
fn invalid_target_is_reported_before_reserved_header() {
    let extra = vec![header("Host", "x")];
    assert_eq!(build_request("http://example.test/", None, &extra), Err(RequestError::InvalidUrl));
}

#[test]
fn reserved_names() {
    assert!(reserved_name("host"));
    assert!(reserved_name("Authorization"));
    assert!(!reserved_name("Hosts"));
    assert!(!reserved_name("Origin"));
    assert!(!reserved_name("Sec-WebSocket-Protocol"));
    assert!(!has_reserved(&vec![]));
    assert!(!has_reserved(&vec![header("Origin", "x")]));
    assert!(has_reserved(&vec![header("Origin", "x"), header("hOST", "y")]));
}

fn target(scheme: &str, host: Option<&str>, href: &str) -> Option<ParsedUrl> {
    Some(ParsedUrl {
        scheme: scheme.to_string(),
        host: host.map(str::to_string),
        href: href.to_string(),
    })
}

#[test]
fn assemble_builds_the_request_from_its_parts() {
    let extra = vec![header("Origin", "http://o.test")];
    let request = assemble_request(
        target("wss", Some("h.test"), "wss://h.test/x"),
        Some("a2V5".to_string()),
        Some("dG9rZW4=".to_string()),
        &extra,
    );
    assert_eq!(
        request,
        Ok(HandshakeRequest {
            method: "GET".to_string(),
            uri: "wss://h.test/x".to_string(),
            version: "HTTP/1.1".to_string(),
            headers: vec![
                header("Connection", "Upgrade"),
                header("Host", "h.test"),
                header("Upgrade", "websocket"),
                header("Sec-WebSocket-Version", "13"),
                header("Sec-WebSocket-Key", "a2V5"),
                header("Authorization", "Basic dG9rZW4="),
                header("Origin", "http://o.test"),
            ],
        })
    );
}

#[test]
fn assemble_refuses_what_is_no_websocket_target() {
    let none: Vec<Header> = vec![];
    assert_eq!(
        assemble_request(None, Some("k".to_string()), None, &none),
        Err(RequestError::InvalidUrl)
    );
    assert_eq!(
        assemble_request(target("http", Some("h"), "http://h/"), Some("k".to_string()), None, &none),
        Err(RequestError::InvalidUrl)
    );
    assert_eq!(
        assemble_request(target("ws", None, "ws:x"), Some("k".to_string()), None, &none),
        Err(RequestError::InvalidUrl)
    );
    assert_eq!(
        assemble_request(target("WS", Some("h"), "ws://h/"), Some("k".to_string()), None, &none),
        Err(RequestError::InvalidUrl)
    );
    assert_eq!(
        assemble_request(
            target("ws", Some("h"), "ws://h/"),
            Some("k".to_string()),
            None,
            &vec![header("upgrade", "x")]
        ),
        Err(RequestError::ReservedHeader)
    );
}

#[test]
fn assemble_reports_a_missing_key_last() {
    let none: Vec<Header> = vec![];
    assert_eq!(
        assemble_request(target("ws", Some("h"), "ws://h/"), None, None, &none),
        Err(RequestError::NoEntropy)
    );
    assert_eq!(
        assemble_request(target("http", Some("h"), "http://h/"), None, None, &none),
        Err(RequestError::InvalidUrl)
    );
    assert_eq!(
        assemble_request(target("ws", Some("h"), "ws://h/"), None, None, &vec![header("host", "x")]),
        Err(RequestError::ReservedHeader)
    );
}

#[test]
fn header_lookup_gives_the_first_match() {
    let request = assemble_request(
        target("ws", Some("h"), "ws://h/"),
        Some("k".to_string()),
        None,
        &vec![header("X-A", "1"), header("x-a", "2")],
    )
    .unwrap();
    assert_eq!(request.header("X-a"), Some("1"));
    assert_eq!(request.header("X-B"), None);
}

#[test]
fn credential_is_encoded_from_its_utf8_bytes() {
    let request = build_request("ws://example.test/", Some("j\u{fc}rgen:pa\u{df}"), &vec![]).unwrap();
    let value = request.header("Authorization").unwrap();
    let token = value.strip_prefix("Basic ").unwrap();
    let bytes = base64::engine::general_purpose::STANDARD.decode(token).unwrap();
    assert_eq!(String::from_utf8(bytes).unwrap(), "j\u{fc}rgen:pa\u{df}");
}

#[test]
fn errors_are_described() {
    assert_eq!(RequestError::InvalidUrl.describe(), "The URL must start with ws:// or wss://");
    assert!(!RequestError::ReservedHeader.describe().is_empty());
    assert!(!RequestError::NoEntropy.describe().is_empty());
}
