//! Per-connection log accumulation and the connection pipeline.
use vstd::prelude::*;
use vstd::string::StringExecFns;
use vstd::string::StrSliceExecFns;
use vstd::utf8::{decode_utf8, valid_utf8};
use crate::defaults::Defaults;
use crate::framer::{frame_len, Framer};
use crate::httprequest::{
    dispatch_parts, parse_head, read_exact_body, resource_view, HttpRequest, RequestMethod,
};
use crate::httpresponse::{HttpResponse, ResponseCode};
use crate::text::{bytes_as_str, dec_chars, render_dec_string};

verus! {

/// An ordered, append-only accumulator of short event strings for one
/// connection, joined with the fixed separator `" -- "` and flushed once
/// at connection end.
pub struct Logs(pub String);

impl View for Logs {
    type V = Seq<char>;

    open spec fn view(&self) -> Seq<char> {
        self.0@
    }
}

impl Logs {
    pub fn new() -> (r: Self)
        ensures
            r@ == Seq::<char>::empty(),
    {
        Logs(String::new())
    }

    /// The empty log text.
    pub fn none() -> (r: &'static str)
        ensures
            r@ == Seq::<char>::empty(),
    {
        proof {
            reveal_strlit("");
            assert(""@ =~= Seq::<char>::empty());
        }
        ""
    }

    /// The text after appending `entry` at the back: the entry alone on an
    /// empty log, otherwise separated from what is already there.
    pub open spec fn logged(self, entry: Seq<char>) -> Seq<char> {
        if self@.len() == 0 {
            entry
        } else {
            self@ + " -- "@ + entry
        }
    }

    /// Append one entry at the back.
    pub fn log(&mut self, entry: &str)
        ensures
            final(self)@ == old(self).logged(entry@),
    {
        if !self.0.as_str().is_empty() {
            self.0.append(" -- ");
        }
        self.0.append(entry);
    }

    pub fn as_str(&self) -> (r: &str)
        ensures
            r@ == self@,
    {
        self.0.as_str()
    }

    /// Prepend one entry at the front, separated from what follows.
    pub fn append(&mut self, entry: &str)
        ensures
            final(self)@ == entry@ + " -- "@ + old(self)@,
    {
        let mut s = entry.to_owned();
        s.append(" -- ");
        s.append(self.0.as_str());
        self.0 = s;
    }
}

/// The entry the connection logs after sending a response: the numeric
/// code and the reason phrase.
pub open spec fn status_log_line(c: ResponseCode) -> Seq<char> {
    dec_chars(c.code_num() as nat) + " "@ + c.reason_phrase()
}

/// The reply to a request that could not be parsed: a 400 with the default
/// body, and a log holding only the status entry.
pub open spec fn bad_request_reply() -> (Seq<u8>, Seq<char>) {
    (
        HttpResponse::wire_bytes(
            ResponseCode::BadRequest,
            "text/html"@,
            Defaults::default_message_bytes(ResponseCode::BadRequest),
        ),
        status_log_line(ResponseCode::BadRequest),
    )
}

/// The reply to a parsed request: the dispatched response on the wire, and
/// a log holding the request line and then the status entry.
pub open spec fn dispatched_reply(
    m: RequestMethod,
    uri: Seq<char>,
    ver: Seq<char>,
    resource: Option<(Seq<u8>, bool)>,
) -> (Seq<u8>, Seq<char>) {
    let parts = dispatch_parts(m, uri, resource);
    let wire = match parts.1 {
        Some(d) => HttpResponse::wire_bytes(parts.0, parts.2->Some_0, d),
        None => HttpResponse::wire_bytes(
            parts.0,
            "text/html"@,
            Defaults::default_message_bytes(parts.0),
        ),
    };
    (wire, m.token() + " "@ + uri + " "@ + ver + " -- "@ + status_log_line(parts.0))
}

/// One connection's computation over the bytes the peer sends: frame the
/// header block, decode it, parse it, read the declared body from what
/// follows, dispatch, and serialize the response. Any failure up to and
/// including the body read — too few body bytes, or body bytes that are
/// not valid UTF-8 — is answered with a 400.
pub open spec fn serve_spec(input: Seq<u8>, resource: Option<(Seq<u8>, bool)>) -> (
    Seq<u8>,
    Seq<char>,
) {
    let k = frame_len(input);
    let head = input.take(k);
    if !valid_utf8(head) {
        bad_request_reply()
    } else {
        match parse_head(decode_utf8(head)) {
            None => bad_request_reply(),
            Some(h) => {
                if h.3 > 0 && k + h.3 > input.len() {
                    bad_request_reply()
                } else if h.3 > 0 && !valid_utf8(input.subrange(k, k + h.3 as int)) {
                    bad_request_reply()
                } else {
                    dispatched_reply(h.0, h.1, h.2, resource)
                }
            },
        }
    }
}

/// Serve one connection from the bytes the peer sent, with the outcome of
/// resolving a GET resource supplied by the caller. Returns the response
/// bytes to write back and the connection's logs.
pub fn serve(input: &Vec<u8>, resource: Option<(Vec<u8>, bool)>) -> (r: (Vec<u8>, Logs))
    ensures
        r.0@ == serve_spec(input@, resource_view(resource)).0,
        r.1@ == serve_spec(input@, resource_view(resource)).1,
{
    let (head, _done) = Framer::run(input);
    let mut logs = Logs::new();
    let mut resp: HttpResponse = match bytes_as_str(head.as_slice()) {
        None => HttpResponse::new(ResponseCode::BadRequest, None, None),
        Some(text) => match HttpRequest::parse(text) {
            Err(_) => HttpResponse::new(ResponseCode::BadRequest, None, None),
            Ok((req, n)) => {
                if n > 0 {
                    match read_exact_body(input, head.len(), n) {
                        Err(_) => HttpResponse::new(ResponseCode::BadRequest, None, None),
                        Ok(body) => {
                            let mut req = req;
                            match req.attach_body(body) {
                                Ok(()) => req.handle_method(resource, &mut logs),
                                Err(_) => HttpResponse::new(ResponseCode::BadRequest, None, None),
                            }
                        },
                    }
                } else {
                    req.handle_method(resource, &mut logs)
                }
            },
        },
    };
    let (code, msg) = resp.status.get();
    let mut status_line = render_dec_string(code as usize);
    status_line.append(" ");
    status_line.append(msg);
    logs.log(status_line.as_str());
    let bytes = resp.response();
    (bytes, logs)
}

} // verus!
