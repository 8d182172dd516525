//! HTTP status codes and response serialization.
use vstd::prelude::*;
use vstd::slice::slice_to_vec;
use vstd::string::StrSliceExecFns;
use vstd::utf8::encode_utf8;
use crate::defaults::Defaults;
use crate::text::{dec_bytes, render_dec};

verus! {

/// The closed set of HTTP status codes the server can answer with,
/// covering the standard 1xx-5xx set.
#[derive(Clone, Copy, Debug, PartialEq, Eq, Structural)]
pub enum ResponseCode {
    Continue,
    SwitchingProtocols,
    OK,
    Created,
    Accepted,
    NonAuthoritativeInformation,
    NoContent,
    ResetContent,
    PartialContent,
    MultipleChoices,
    MovedPermanently,
    Found,
    SeeOther,
    NotModified,
    UseProxy,
    TemporaryRedirect,
    BadRequest,
    Unauthorized,
    PaymentRequired,
    Forbidden,
    NotFound,
    MethodNotAllowed,
    NotAcceptable,
    ProxyAuthenticationRequired,
    RequestTimeout,
    Conflict,
    Gone,
    LengthRequired,
    PreconditionFailed,
    RequestEntityTooLarge,
    RequestURITooLarge,
    UnsupportedMediaType,
    RequestedRangeNotSatisfiable,
    ExpectationFailed,
    InternalServerError,
    NotImplemented,
    BadGateway,
    ServiceUnavailable,
    GatewayTimeOut,
    HttpVersionNotSupported,
}

impl ResponseCode {
    /// The numeric status code on the wire.
    pub open spec fn code_num(self) -> u16 {
        match self {
            ResponseCode::Continue => 100,
            ResponseCode::SwitchingProtocols => 101,
            ResponseCode::OK => 200,
            ResponseCode::Created => 201,
            ResponseCode::Accepted => 202,
            ResponseCode::NonAuthoritativeInformation => 203,
            ResponseCode::NoContent => 204,
            ResponseCode::ResetContent => 205,
            ResponseCode::PartialContent => 206,
            ResponseCode::MultipleChoices => 300,
            ResponseCode::MovedPermanently => 301,
            ResponseCode::Found => 302,
            ResponseCode::SeeOther => 303,
            ResponseCode::NotModified => 304,
            ResponseCode::UseProxy => 305,
            ResponseCode::TemporaryRedirect => 307,
            ResponseCode::BadRequest => 400,
            ResponseCode::Unauthorized => 401,
            ResponseCode::PaymentRequired => 402,
            ResponseCode::Forbidden => 403,
            ResponseCode::NotFound => 404,
            ResponseCode::MethodNotAllowed => 405,
            ResponseCode::NotAcceptable => 406,
            ResponseCode::ProxyAuthenticationRequired => 407,
            ResponseCode::RequestTimeout => 408,
            ResponseCode::Conflict => 409,
            ResponseCode::Gone => 410,
            ResponseCode::LengthRequired => 411,
            ResponseCode::PreconditionFailed => 412,
            ResponseCode::RequestEntityTooLarge => 413,
            ResponseCode::RequestURITooLarge => 414,
            ResponseCode::UnsupportedMediaType => 415,
            ResponseCode::RequestedRangeNotSatisfiable => 416,
            ResponseCode::ExpectationFailed => 417,
            ResponseCode::InternalServerError => 500,
            ResponseCode::NotImplemented => 501,
            ResponseCode::BadGateway => 502,
            ResponseCode::ServiceUnavailable => 503,
            ResponseCode::GatewayTimeOut => 504,
            ResponseCode::HttpVersionNotSupported => 505,
        }
    }

    /// The reason phrase paired with the numeric code. Each phrase carries a
    /// trailing space, which the status line and the default body preserve.
    pub open spec fn reason_phrase(self) -> Seq<char> {
        match self {
            ResponseCode::Continue => "Continue "@,
            ResponseCode::SwitchingProtocols => "Switching Protocols "@,
            ResponseCode::OK => "OK "@,
            ResponseCode::Created => "Created "@,
            ResponseCode::Accepted => "Accepted "@,
            ResponseCode::NonAuthoritativeInformation => "Non-Authoritative Information "@,
            ResponseCode::NoContent => "No Content "@,
            ResponseCode::ResetContent => "Reset Content "@,
            ResponseCode::PartialContent => "Partial Content "@,
            ResponseCode::MultipleChoices => "Multiple Choices "@,
            ResponseCode::MovedPermanently => "Moved Permanently "@,
            ResponseCode::Found => "Found "@,
            ResponseCode::SeeOther => "See Other "@,
            ResponseCode::NotModified => "Not Modified "@,
            ResponseCode::UseProxy => "Use Proxy "@,
            ResponseCode::TemporaryRedirect => "Temporary Redirect "@,
            ResponseCode::BadRequest => "Bad Request "@,
            ResponseCode::Unauthorized => "Unauthorized "@,
            ResponseCode::PaymentRequired => "Payment Required "@,
            ResponseCode::Forbidden => "Forbidden "@,
            ResponseCode::NotFound => "Not Found "@,
            ResponseCode::MethodNotAllowed => "Method Not Allowed "@,
            ResponseCode::NotAcceptable => "Not Acceptable "@,
            ResponseCode::ProxyAuthenticationRequired => "Proxy Authentication Required "@,
            ResponseCode::RequestTimeout => "Request Time-out "@,
            ResponseCode::Conflict => "Conflict "@,
            ResponseCode::Gone => "Gone "@,
            ResponseCode::LengthRequired => "Length Required "@,
            ResponseCode::PreconditionFailed => "Precondition Failed "@,
            ResponseCode::RequestEntityTooLarge => "Request Entity Too Large "@,
            ResponseCode::RequestURITooLarge => "Request-URI Too Large "@,
            ResponseCode::UnsupportedMediaType => "Unsupported Media Type "@,
            ResponseCode::RequestedRangeNotSatisfiable => "Requested range not satisfiable "@,
            ResponseCode::ExpectationFailed => "Expectation Failed "@,
            ResponseCode::InternalServerError => "Internal Server Error "@,
            ResponseCode::NotImplemented => "Not Implemented "@,
            ResponseCode::BadGateway => "Bad Gateway "@,
            ResponseCode::ServiceUnavailable => "Service Unavailable "@,
            ResponseCode::GatewayTimeOut => "Gateway Time-out "@,
            ResponseCode::HttpVersionNotSupported => "Http Version not supported "@,
        }
    }

    /// Map the status code to its numeric code and reason phrase.
    pub fn get(&self) -> (r: (u16, &'static str))
        ensures
            r.0 == self.code_num(),
            r.1@ == self.reason_phrase(),
    {
        match self {
            ResponseCode::Continue => (100, "Continue "),
            ResponseCode::SwitchingProtocols => (101, "Switching Protocols "),
            ResponseCode::OK => (200, "OK "),
            ResponseCode::Created => (201, "Created "),
            ResponseCode::Accepted => (202, "Accepted "),
            ResponseCode::NonAuthoritativeInformation => (203, "Non-Authoritative Information "),
            ResponseCode::NoContent => (204, "No Content "),
            ResponseCode::ResetContent => (205, "Reset Content "),
            ResponseCode::PartialContent => (206, "Partial Content "),
            ResponseCode::MultipleChoices => (300, "Multiple Choices "),
            ResponseCode::MovedPermanently => (301, "Moved Permanently "),
            ResponseCode::Found => (302, "Found "),
            ResponseCode::SeeOther => (303, "See Other "),
            ResponseCode::NotModified => (304, "Not Modified "),
            ResponseCode::UseProxy => (305, "Use Proxy "),
            ResponseCode::TemporaryRedirect => (307, "Temporary Redirect "),
            ResponseCode::BadRequest => (400, "Bad Request "),
            ResponseCode::Unauthorized => (401, "Unauthorized "),
            ResponseCode::PaymentRequired => (402, "Payment Required "),
            ResponseCode::Forbidden => (403, "Forbidden "),
            ResponseCode::NotFound => (404, "Not Found "),
            ResponseCode::MethodNotAllowed => (405, "Method Not Allowed "),
            ResponseCode::NotAcceptable => (406, "Not Acceptable "),
            ResponseCode::ProxyAuthenticationRequired => (407, "Proxy Authentication Required "),
            ResponseCode::RequestTimeout => (408, "Request Time-out "),
            ResponseCode::Conflict => (409, "Conflict "),
            ResponseCode::Gone => (410, "Gone "),
            ResponseCode::LengthRequired => (411, "Length Required "),
            ResponseCode::PreconditionFailed => (412, "Precondition Failed "),
            ResponseCode::RequestEntityTooLarge => (413, "Request Entity Too Large "),
            ResponseCode::RequestURITooLarge => (414, "Request-URI Too Large "),
            ResponseCode::UnsupportedMediaType => (415, "Unsupported Media Type "),
            ResponseCode::RequestedRangeNotSatisfiable => (416, "Requested range not satisfiable "),
            ResponseCode::ExpectationFailed => (417, "Expectation Failed "),
            ResponseCode::InternalServerError => (500, "Internal Server Error "),
            ResponseCode::NotImplemented => (501, "Not Implemented "),
            ResponseCode::BadGateway => (502, "Bad Gateway "),
            ResponseCode::ServiceUnavailable => (503, "Service Unavailable "),
            ResponseCode::GatewayTimeOut => (504, "Gateway Time-out "),
            ResponseCode::HttpVersionNotSupported => (505, "Http Version not supported "),
        }
    }
}

/// An HTTP response: a status code, an optional body, and an optional
/// content type. A response without a body is serialized with the default
/// HTML body and a forced `text/html` content type; a response with a body
/// must carry a content type of its own.
pub struct HttpResponse {
    pub status: ResponseCode,
    pub data: Option<Vec<u8>>,
    pub content_type: Option<String>,
}

impl HttpResponse {
    /// A response with a body must name its content type.
    pub open spec fn wf(self) -> bool {
        self.data is Some ==> self.content_type is Some
    }

    /// Create a new HTTP response.
    pub fn new(status: ResponseCode, data: Option<Vec<u8>>, content_type: Option<String>) -> (r:
        Self)
        ensures
            r.status == status,
            r.data == data,
            r.content_type == content_type,
    {
        Self { status, data, content_type }
    }

    /// The wire encoding of a response: status line with the trailing-space
    /// reason phrase, `Content-Type` and `Content-Length` headers, a blank
    /// line, then the body.
    pub open spec fn wire_bytes(status: ResponseCode, ctype: Seq<char>, body: Seq<u8>) -> Seq<u8> {
        encode_utf8("HTTP/1.1 "@) + dec_bytes(status.code_num() as nat) + encode_utf8(" "@)
            + encode_utf8(status.reason_phrase()) + encode_utf8("\r\nContent-Type: "@)
            + encode_utf8(ctype) + encode_utf8("\r\nContent-Length: "@) + dec_bytes(body.len())
            + encode_utf8("\r\n\r\n"@) + body
    }

    /// The bytes `response` produces for this value: the supplied body under
    /// the supplied content type, or the default body under `text/html`.
    pub open spec fn response_bytes(self) -> Seq<u8> {
        match self.data {
            Some(d) => Self::wire_bytes(self.status, self.content_type->Some_0@, d@),
            None => Self::wire_bytes(
                self.status,
                "text/html"@,
                Defaults::default_message_bytes(self.status),
            ),
        }
    }

    /// Serialization is idempotent: responses equal part for part produce
    /// byte-identical wire output, however many times each is built, since
    /// `response` returns exactly `response_bytes` of the value it started
    /// from.
    pub proof fn lemma_response_idempotent(a: HttpResponse, b: HttpResponse)
        requires
            a.status == b.status,
            a.data is Some <==> b.data is Some,
            a.data is Some ==> a.data->Some_0@ == b.data->Some_0@,
            a.content_type is Some <==> b.content_type is Some,
            a.content_type is Some ==> a.content_type->Some_0@ == b.content_type->Some_0@,
        ensures
            a.response_bytes() == b.response_bytes(),
    {
    }

    /// Serialize the response into the bytes sent back to the client.
    /// The output is a function of the response value alone, so building
    /// the same response twice yields byte-identical output.
    pub fn response(&mut self) -> (r: Vec<u8>)
        requires
            old(self).wf(),
        ensures
            r@ == old(self).response_bytes(),
            final(self).status == old(self).status,
            final(self).data == old(self).data,
            old(self).data is Some ==> final(self).content_type == old(self).content_type,
            old(self).data is None ==> final(self).content_type is Some
                && final(self).content_type->Some_0@ == "text/html"@,
    {
        let (num, msg) = self.status.get();
        if self.data.is_none() {
            self.content_type = Some("text/html".to_owned());
        }
        let body: Vec<u8> = match &self.data {
            Some(d) => slice_to_vec(d.as_slice()),
            None => Defaults::default_message(&self.status),
        };
        let mut r = "HTTP/1.1 ".as_bytes_vec();
        let mut part = render_dec(num as usize);
        r.append(&mut part);
        let mut part = " ".as_bytes_vec();
        r.append(&mut part);
        let mut part = msg.as_bytes_vec();
        r.append(&mut part);
        let mut part = "\r\nContent-Type: ".as_bytes_vec();
        r.append(&mut part);
        let mut part = match &self.content_type {
            Some(c) => c.as_str().as_bytes_vec(),
            None => Vec::new(),
        };
        r.append(&mut part);
        let mut part = "\r\nContent-Length: ".as_bytes_vec();
        r.append(&mut part);
        let mut part = render_dec(body.len());
        r.append(&mut part);
        let mut part = "\r\n\r\n".as_bytes_vec();
        r.append(&mut part);
        let mut body = body;
        r.append(&mut body);
        proof {
            assert(r@ =~= old(self).response_bytes());
        }
        r
    }
}

} // verus!
