use anduin::httpserver::{serve, Logs};

#[test]
fn serves_a_get_end_to_end() {
    let input = b"GET /f.txt HTTP/1.1\r\nHost: h\r\n\r\n".to_vec();
    let (bytes, logs) = serve(&input, Some((b"data!".to_vec(), false)));
    let text = String::from_utf8(bytes).unwrap();
    assert!(text.starts_with("HTTP/1.1 200 OK \r\n"));
    assert!(text.contains("Content-Type: text/plain\r\n"));
    assert!(text.contains("Content-Length: 5\r\n"));
    assert!(text.ends_with("\r\n\r\ndata!"));
    assert_eq!(logs.as_str(), "GET /f.txt HTTP/1.1 -- 200 OK ");
}

#[test]
fn serves_not_found_with_default_body() {
    let input = b"GET /gone.html HTTP/1.1\r\n\r\n".to_vec();
    let (bytes, logs) = serve(&input, None);
    let text = String::from_utf8(bytes).unwrap();
    assert!(text.starts_with("HTTP/1.1 404 Not Found \r\n"));
    assert!(text.contains("Content-Type: text/html\r\n"));
    assert!(text.contains("404"));
    assert!(text.contains("Not Found"));
    assert_eq!(logs.as_str(), "GET /gone.html HTTP/1.1 -- 404 Not Found ");
}

#[test]
fn malformed_request_yields_bad_request() {
    let input = b"NOPE\r\n\r\n".to_vec();
    let (bytes, logs) = serve(&input, None);
    let text = String::from_utf8(bytes).unwrap();
    assert!(text.starts_with("HTTP/1.1 400 Bad Request \r\n"));
    assert!(text.contains("Bad Request"));
    assert_eq!(logs.as_str(), "400 Bad Request ");
}

#[test]
fn post_with_full_body_succeeds() {
    let input = b"POST /x HTTP/1.1\r\nContent-Length: 2\r\n\r\nhi".to_vec();
    let (bytes, logs) = serve(&input, None);
    let text = String::from_utf8(bytes).unwrap();
    assert!(text.starts_with("HTTP/1.1 200 OK \r\n"));
    assert!(text.ends_with("\r\n\r\nOK"));
    assert_eq!(logs.as_str(), "POST /x HTTP/1.1 -- 200 OK ");
}

#[test]
fn invalid_utf8_body_yields_bad_request() {
    let mut input = b"POST /x HTTP/1.1\r\nContent-Length: 2\r\n\r\n".to_vec();
    input.extend_from_slice(&[0xff, 0xfe]);
    let (bytes, logs) = serve(&input, None);
    let text = String::from_utf8(bytes).unwrap();
    assert!(text.starts_with("HTTP/1.1 400 Bad Request \r\n"));
    assert_eq!(logs.as_str(), "400 Bad Request ");
}

#[test]
fn missing_body_bytes_yield_bad_request() {
    let input = b"POST /x HTTP/1.1\r\nContent-Length: 9\r\n\r\nhi".to_vec();
    let (bytes, _) = serve(&input, None);
    let text = String::from_utf8(bytes).unwrap();
    assert!(text.starts_with("HTTP/1.1 400 Bad Request \r\n"));
}

#[test]
fn logs_join_with_the_separator() {
    let mut l = Logs::new();
    assert_eq!(l.as_str(), "");
    l.log("one");
    assert_eq!(l.as_str(), "one");
    l.log("two");
    assert_eq!(l.as_str(), "one -- two");
    l.append("front");
    assert_eq!(l.as_str(), "front -- one -- two");
    assert_eq!(Logs::none(), "");
}
