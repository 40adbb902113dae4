use ws_gonzale::handshake::{get_accept_from_key, handshake_response, HTTPMethod, Request};
use ws_gonzale::WsGonzaleError;

#[test]
fn test_small_post() {
    let request = r#"POST / HTTP/1.1
        Content-Type: application/javascript
        User-Agent: PostmanRuntime/7.26.1
        Accept: */*
        Cache-Control: no-cache
        Postman-Token: dc343e4f-6cf3-4d6d-827e-7fbbd82d80fb
        Host: 127.0.0.1:8080
        Accept-Encoding: gzip, deflate, br
        Connection: keep-alive
        Content-Length: 15

        {
            id: 5
        }"#;
    let result = Request::from_str(request).unwrap();
    let mut body = result.get_body().unwrap().get_body().to_string();
    body.retain(|c| !c.is_whitespace());
    assert_eq!(*result.get_endpoint().get_method(), HTTPMethod::POST);
    assert_eq!(body.len(), 6);
}

#[test]
fn test_post_without_data() {
    let request = r#"POST / HTTP/1.1
        Content-Type: application/javascript
        User-Agent: PostmanRuntime/7.26.1
        Accept: */*
        Cache-Control: no-cache
        Postman-Token: dc343e4f-6cf3-4d6d-827e-7fbbd82d80fb
        Host: 127.0.0.1:8080
        Accept-Encoding: gzip, deflate, br
        Connection: keep-alive
        Content-Length: 15
"#;
    let result = Request::from_str(request).unwrap();
    assert_eq!(*result.get_endpoint().get_method(), HTTPMethod::POST);
    assert!(result.get_body().is_none());
}

#[test]
fn test_post_without_any_data() {
    let request = "";
    assert_eq!(
        Request::from_str(request).err().unwrap(),
        WsGonzaleError::InvalidPayload
    );
}

#[test]
fn test_post_without_headers_ending() {
    let request = r#"POST / HTTP/1.1
        Content-Type: application/javascript
        User-Agent: PostmanRuntime/7.26.1
        Accept: */*
        Cache-Control: no-cache
        Postman-Token: dc343e4f-6cf3-4d6d-827e-7fbbd82d80fb
        Host: 127.0.0.1:8080
        Accept-Encoding: gzip, deflate, br
        Connection: keep-alive
        Content-Length: 15"#;
    let result = Request::from_str(request).unwrap();
    assert_eq!(*result.get_endpoint().get_method(), HTTPMethod::POST);
    assert!(result.get_body().is_none());
}

#[test]
fn test_small_get() {
    let request = r#"GET / HTTP/1.1
        Content-Type: application/javascript
        User-Agent: PostmanRuntime/7.26.1
        Accept: */*
        Cache-Control: no-cache
        Postman-Token: dc343e4f-6cf3-4d6d-827e-7fbbd82d80fb
        Host: 127.0.0.1:8080
        Accept-Encoding: gzip, deflate, br
        Connection: keep-alive
        Content-Length: 15

        {
            id: 5
        }"#;
    let result = Request::from_str(request).unwrap();
    assert_eq!(result.get_headers().len(), 9);
    assert_eq!(*result.get_endpoint().get_method(), HTTPMethod::GET);
    assert!(result.get_body().is_none());
}

#[test]
fn test_accept_key_sample_nonce() {
    let accept = get_accept_from_key("dGhlIHNhbXBsZSBub25jZQ==").unwrap();
    assert_eq!(accept, "s3pPLMBiTxaQ9kYGzzhZRbK+xOo=");
    assert_eq!(accept.len(), 28);
}

#[test]
fn test_accept_key_empty_key() {
    // A missing Sec-WebSocket-Key degrades to hashing the bare GUID; the
    // accept key is still well formed and twenty-eight characters long.
    let accept = get_accept_from_key("").unwrap();
    assert_eq!(accept, "Kfh9QIsMVZcl6xEPYxPHzW8SZ8w=");
    assert_eq!(accept.len(), 28);
}

#[test]
fn test_handshake_response_contains_accept() {
    let response = handshake_response("dGhlIHNhbXBsZSBub25jZQ==");
    assert_eq!(
        response,
        "HTTP/1.1 101 Switching Protocols\r\nUpgrade: websocket\r\nConnection: Upgrade\r\nSec-Websocket-Accept: s3pPLMBiTxaQ9kYGzzhZRbK+xOo=\r\n\r\n"
    );
}

#[test]
fn test_request_header_lookup() {
    let request = "GET /chat HTTP/1.1\r\nHost: server.example.com\r\nUpgrade: websocket\r\nSec-WebSocket-Key: dGhlIHNhbXBsZSBub25jZQ==\r\n\r\n";
    let result = Request::from_str(request).unwrap();
    assert_eq!(*result.get_endpoint().get_method(), HTTPMethod::GET);
    assert_eq!(result.get_endpoint().get_uri().as_str(), "/chat");
    let key = result.get_headers().get("Sec-WebSocket-Key").unwrap();
    assert_eq!(key, "dGhlIHNhbXBsZSBub25jZQ==");
    assert!(result.get_headers().get("Missing-Header").is_none());
}

#[test]
fn test_request_duplicate_header_last_wins() {
    let request = "GET / HTTP/1.1\r\nX-Token: first\r\nX-Token: second\r\n\r\n";
    let result = Request::from_str(request).unwrap();
    assert_eq!(result.get_headers().get("X-Token").unwrap(), "second");
    assert_eq!(result.get_headers().len(), 2);
}

#[test]
fn test_request_line_without_uri() {
    let request = "GET\r\nHost: x\r\n\r\n";
    let result = Request::from_str(request).unwrap();
    assert_eq!(*result.get_endpoint().get_method(), HTTPMethod::GET);
    assert_eq!(result.get_endpoint().get_uri().as_str(), "");
}

#[test]
fn test_header_line_without_separator_is_dropped() {
    let request = "GET / HTTP/1.1\r\nNoSeparatorHere\r\nHost: x\r\n\r\n";
    let result = Request::from_str(request).unwrap();
    assert_eq!(result.get_headers().len(), 1);
    assert_eq!(result.get_headers().get("Host").unwrap(), "x");
}
