use anduin::httprequest::{read_exact_body, HttpRequest, RequestMethod};
use anduin::httpresponse::ResponseCode;
use anduin::httpserver::Logs;

#[test]
fn accepts_every_known_method() {
    for m in ["OPTIONS", "GET", "HEAD", "POST", "PUT", "DELETE", "TRACE", "CONNECT"] {
        let req = format!("{} / HTTP/1.1\r\n\r\n", m);
        assert!(HttpRequest::parse(&req).is_ok(), "{} must parse", m);
    }
}

#[test]
fn rejects_an_unknown_method() {
    assert!(HttpRequest::parse("FETCH / HTTP/1.1\r\n\r\n").is_err());
    assert!(HttpRequest::parse("get / HTTP/1.1\r\n\r\n").is_err());
}

#[test]
fn version_forms() {
    assert!(HttpRequest::parse("GET / HTTP/1.1\r\n\r\n").is_ok());
    assert!(HttpRequest::parse("GET / http/1.1\r\n\r\n").is_ok());
    assert!(HttpRequest::parse("GET / HtTp/1.1\r\n\r\n").is_ok());
    assert!(HttpRequest::parse("GET / HTTP/1\r\n\r\n").is_err());
    assert!(HttpRequest::parse("GET / HTTP1.1\r\n\r\n").is_err());
    assert!(HttpRequest::parse("GET / FTP/1.1\r\n\r\n").is_err());
}

#[test]
fn version_components_are_exactly_two_digit_runs() {
    assert!(HttpRequest::parse("GET / HTTP/1.1.9\r\n\r\n").is_err());
    assert!(HttpRequest::parse("GET / HTTP/256.1\r\n\r\n").is_err());
    assert!(HttpRequest::parse("GET / HTTP/+1.1\r\n\r\n").is_err());
    assert!(HttpRequest::parse("GET / HTTP/.1\r\n\r\n").is_err());
    assert!(HttpRequest::parse("GET / HTTP/1.\r\n\r\n").is_err());
    assert!(HttpRequest::parse("GET / HTTP/007.0\r\n\r\n").is_ok());
}

#[test]
fn content_length_accepts_a_leading_plus() {
    let (_, n) = HttpRequest::parse("POST /x HTTP/1.1\r\nContent-Length: +5\r\n\r\n").unwrap();
    assert_eq!(n, 5);
}

#[test]
fn parses_the_request_line() {
    let (req, n) = HttpRequest::parse("GET /index.html HTTP/1.1\r\nHost: x\r\n\r\n").unwrap();
    assert_eq!(req.method, RequestMethod::Get);
    assert_eq!(req.uri, "/index.html");
    assert_eq!(req.version, "HTTP/1.1");
    assert_eq!(n, 0);
    assert!(req.data.is_none());
}

#[test]
fn too_few_tokens_fail() {
    assert!(HttpRequest::parse("").is_err());
    assert!(HttpRequest::parse("GET\r\n\r\n").is_err());
    assert!(HttpRequest::parse("GET /\r\n\r\n").is_err());
}

#[test]
fn content_length_declares_the_body() {
    let (mut req, n) = HttpRequest::parse("POST /x HTTP/1.1\r\nContent-Length: 5\r\n\r\n").unwrap();
    assert_eq!(n, 5);
    let avail = b"hello".to_vec();
    let body = read_exact_body(&avail, 0, n).unwrap();
    req.attach_body(body).unwrap();
    assert_eq!(req.data.unwrap(), b"hello".to_vec());
}

#[test]
fn invalid_utf8_body_fails_to_attach() {
    let (mut req, n) = HttpRequest::parse("POST /x HTTP/1.1\r\nContent-Length: 2\r\n\r\n").unwrap();
    assert_eq!(n, 2);
    let avail = vec![0xffu8, 0xfe];
    let body = read_exact_body(&avail, 0, n).unwrap();
    assert!(req.attach_body(body).is_err());
    assert!(req.data.is_none());
}

#[test]
fn short_body_read_fails() {
    let (_, n) = HttpRequest::parse("POST /x HTTP/1.1\r\nContent-Length: 5\r\n\r\n").unwrap();
    assert_eq!(n, 5);
    let avail = b"hel".to_vec();
    assert!(read_exact_body(&avail, 0, n).is_err());
}

#[test]
fn last_content_length_wins() {
    let head = "POST /x HTTP/1.1\r\nContent-Length: 5\r\nContent-Length: 7\r\n\r\n";
    let (_, n) = HttpRequest::parse(head).unwrap();
    assert_eq!(n, 7);
}

#[test]
fn malformed_content_length_fails() {
    assert!(HttpRequest::parse("POST /x HTTP/1.1\r\nContent-Length: abc\r\n\r\n").is_err());
    // the literal matches anywhere in a line, and the scan then parses the
    // text after the line's first sixteen characters
    assert!(HttpRequest::parse("POST /x HTTP/1.1\r\nX-Content-Length: 5\r\n\r\n").is_err());
}

#[test]
fn get_with_found_resource_is_ok_with_mime() {
    let (req, _) = HttpRequest::parse("GET /page.html HTTP/1.1\r\n\r\n").unwrap();
    let mut logs = Logs::new();
    let resp = req.handle_method(Some((b"<p>hi</p>".to_vec(), false)), &mut logs);
    assert_eq!(resp.status, ResponseCode::OK);
    assert_eq!(resp.data.unwrap(), b"<p>hi</p>".to_vec());
    assert_eq!(resp.content_type.unwrap(), "text/html");
    assert_eq!(logs.as_str(), "GET /page.html HTTP/1.1");
}

#[test]
fn get_on_a_directory_serves_index_html_as_text_html() {
    let (req, _) = HttpRequest::parse("GET /site HTTP/1.1\r\n\r\n").unwrap();
    let mut logs = Logs::new();
    let resp = req.handle_method(Some((b"<html></html>".to_vec(), true)), &mut logs);
    assert_eq!(resp.status, ResponseCode::OK);
    assert_eq!(resp.data.unwrap(), b"<html></html>".to_vec());
    assert_eq!(resp.content_type.unwrap(), "text/html");
}

#[test]
fn get_with_missing_resource_is_not_found() {
    let (req, _) = HttpRequest::parse("GET /gone HTTP/1.1\r\n\r\n").unwrap();
    let mut logs = Logs::new();
    let resp = req.handle_method(None, &mut logs);
    assert_eq!(resp.status, ResponseCode::NotFound);
    assert!(resp.data.is_none());
    assert!(resp.content_type.is_none());
}

#[test]
fn post_returns_the_fixed_acknowledgement() {
    let (req, _) = HttpRequest::parse("POST /x HTTP/1.1\r\n\r\n").unwrap();
    let mut logs = Logs::new();
    let resp = req.handle_method(None, &mut logs);
    assert_eq!(resp.status, ResponseCode::OK);
    assert_eq!(resp.data.unwrap(), b"OK".to_vec());
    assert_eq!(resp.content_type.unwrap(), "text/plain");
}

#[test]
fn other_methods_are_not_implemented() {
    for m in ["OPTIONS", "HEAD", "PUT", "DELETE", "TRACE", "CONNECT"] {
        let head = format!("{} /x HTTP/1.1\r\n\r\n", m);
        let (req, _) = HttpRequest::parse(&head).unwrap();
        let mut logs = Logs::new();
        let resp = req.handle_method(None, &mut logs);
        assert_eq!(resp.status, ResponseCode::NotImplemented, "{}", m);
        assert!(resp.data.is_none());
    }
}

#[test]
fn content_type_table() {
    let cases = [
        ("/a.html", "text/html"),
        ("/a.txt", "text/plain"),
        ("/a.css", "text/css"),
        ("/a.csv", "text/csv"),
        ("/a.xml", "application/xml"),
        ("/a.zip", "application/zip"),
        ("/a.js", "application/javascript"),
        ("/a.json", "application/json"),
        ("/a.gif", "image/gif"),
        ("/a.jpeg", "image/jpeg"),
        ("/a.jpg", "image/jpeg"),
        ("/a.png", "image/png"),
        ("/a.tiff", "image/tiff"),
        ("/a.mpeg", "video/mpeg"),
        ("/a.mp4", "video/mp4"),
        ("/a.weird", "application/octet-stream"),
        ("/plain", "application/octet-stream"),
        ("/.bashrc", "application/octet-stream"),
        ("/dir/", "application/octet-stream"),
        ("/x/b.sub.json", "application/json"),
    ];
    for (uri, want) in cases {
        let head = format!("GET {} HTTP/1.1\r\n\r\n", uri);
        let (req, _) = HttpRequest::parse(&head).unwrap();
        assert_eq!(req.get_content_type(), want, "{}", uri);
    }
}

#[test]
fn unhex_decodes_escapes() {
    let (req, _) = HttpRequest::parse("GET /a%20b%2Fc HTTP/1.1\r\n\r\n").unwrap();
    assert_eq!(req._unhex(), "a b/c");
}

#[test]
fn unhex_keeps_plain_text() {
    let (req, _) = HttpRequest::parse("GET /plain.html HTTP/1.1\r\n\r\n").unwrap();
    assert_eq!(req._unhex(), "plain.html");
}
