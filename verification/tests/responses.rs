use anduin::defaults::Defaults;
use anduin::httpresponse::{HttpResponse, ResponseCode};

#[test]
fn round_trip_of_a_plain_response() {
    let mut r = HttpResponse::new(
        ResponseCode::OK,
        Some(b"hi".to_vec()),
        Some(String::from("text/plain")),
    );
    let bytes = r.response();
    let text = String::from_utf8(bytes).unwrap();
    let blank = text.find("\r\n\r\n").unwrap();
    let head = &text[..blank];
    let body = &text[blank + 4..];
    let mut lines = head.split("\r\n");
    let status_line = lines.next().unwrap();
    assert_eq!(status_line, "HTTP/1.1 200 OK ");
    assert!(status_line.contains("200"));
    assert_eq!(lines.next().unwrap(), "Content-Type: text/plain");
    assert_eq!(lines.next().unwrap(), "Content-Length: 2");
    assert_eq!(body, "hi");
}

#[test]
fn building_the_same_response_twice_is_byte_identical() {
    let mut a = HttpResponse::new(
        ResponseCode::OK,
        Some(b"hi".to_vec()),
        Some(String::from("text/plain")),
    );
    let mut b = HttpResponse::new(
        ResponseCode::OK,
        Some(b"hi".to_vec()),
        Some(String::from("text/plain")),
    );
    assert_eq!(a.response(), b.response());
    let first = a.response();
    let second = a.response();
    assert_eq!(first, second);
}

#[test]
fn building_a_default_body_response_twice_is_byte_identical() {
    let mut a = HttpResponse::new(ResponseCode::NotFound, None, None);
    let first = a.response();
    let second = a.response();
    assert_eq!(first, second);
}

#[test]
fn missing_body_gets_default_html() {
    let mut r = HttpResponse::new(ResponseCode::NotFound, None, None);
    let bytes = r.response();
    let text = String::from_utf8(bytes).unwrap();
    assert!(text.starts_with("HTTP/1.1 404 Not Found \r\n"));
    assert!(text.contains("Content-Type: text/html\r\n"));
    assert!(text.contains("404"));
    assert!(text.contains("Not Found"));
}

#[test]
fn status_table_pairs() {
    assert_eq!(ResponseCode::Continue.get(), (100, "Continue "));
    assert_eq!(ResponseCode::OK.get(), (200, "OK "));
    assert_eq!(ResponseCode::TemporaryRedirect.get(), (307, "Temporary Redirect "));
    assert_eq!(ResponseCode::BadRequest.get(), (400, "Bad Request "));
    assert_eq!(ResponseCode::NotFound.get(), (404, "Not Found "));
    assert_eq!(ResponseCode::RequestTimeout.get(), (408, "Request Time-out "));
    assert_eq!(ResponseCode::InternalServerError.get(), (500, "Internal Server Error "));
    assert_eq!(ResponseCode::NotImplemented.get(), (501, "Not Implemented "));
    assert_eq!(ResponseCode::HttpVersionNotSupported.get(), (505, "Http Version not supported "));
}

#[test]
fn default_message_exact_bytes() {
    let body = Defaults::default_message(&ResponseCode::NotFound);
    assert_eq!(
        String::from_utf8(body).unwrap(),
        "\n<html>\n  <title>Anduin Error</title>\n  <body>\n    <h1> 404 Not Found  </h1>\n  </body>\n</html>"
    );
}
