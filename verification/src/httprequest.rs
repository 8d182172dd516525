//! Request parsing: request line, method, version, `Content-Length` scan,
//! exact-length body reads, and method dispatch.
use vstd::prelude::*;
use vstd::string::StrSliceExecFns;
use vstd::string::StringExecFns;
use vstd::utf8::encode_utf8;
use crate::httpresponse::{HttpResponse, ResponseCode};
use crate::httpserver::Logs;
use vstd::utf8::valid_utf8;
use crate::text::{
    contains_seq, find_in, line_body_end, range_contains, find_char, parse_uint, uint_of,
    str_range_eq, rfind_in, rfind_after, trim_end, is_digit, digit_val, digits_val, all_digits,
    push_char, bytes_as_str,
};

verus! {

/// Failure of request parsing at any stage. A request that fails to parse
/// is answered with a 400 Bad Request.
#[derive(Clone, Copy, Debug, PartialEq, Eq, Structural)]
pub struct ParseError;

/// The closed set of request methods the parser accepts.
#[derive(Clone, Copy, Debug, PartialEq, Eq, Structural)]
pub enum RequestMethod {
    Options,
    Get,
    Head,
    Post,
    Put,
    Delete,
    Trace,
    Connect,
}

impl RequestMethod {
    /// The literal token of each method.
    pub open spec fn token(self) -> Seq<char> {
        match self {
            RequestMethod::Options => "OPTIONS"@,
            RequestMethod::Get => "GET"@,
            RequestMethod::Head => "HEAD"@,
            RequestMethod::Post => "POST"@,
            RequestMethod::Put => "PUT"@,
            RequestMethod::Delete => "DELETE"@,
            RequestMethod::Trace => "TRACE"@,
            RequestMethod::Connect => "CONNECT"@,
        }
    }

    pub fn as_token(&self) -> (r: &'static str)
        ensures
            r@ == self.token(),
    {
        match self {
            RequestMethod::Options => "OPTIONS",
            RequestMethod::Get => "GET",
            RequestMethod::Head => "HEAD",
            RequestMethod::Post => "POST",
            RequestMethod::Put => "PUT",
            RequestMethod::Delete => "DELETE",
            RequestMethod::Trace => "TRACE",
            RequestMethod::Connect => "CONNECT",
        }
    }

    /// The method named by a token: exactly the eight literal tokens are
    /// accepted, and any other token is refused.
    pub open spec fn of_token(t: Seq<char>) -> Option<RequestMethod> {
        if t == "OPTIONS"@ {
            Some(RequestMethod::Options)
        } else if t == "GET"@ {
            Some(RequestMethod::Get)
        } else if t == "HEAD"@ {
            Some(RequestMethod::Head)
        } else if t == "POST"@ {
            Some(RequestMethod::Post)
        } else if t == "PUT"@ {
            Some(RequestMethod::Put)
        } else if t == "DELETE"@ {
            Some(RequestMethod::Delete)
        } else if t == "TRACE"@ {
            Some(RequestMethod::Trace)
        } else if t == "CONNECT"@ {
            Some(RequestMethod::Connect)
        } else {
            None
        }
    }

    /// Match the token `s[from..to]` against the closed method set.
    pub fn from_token(s: &str, from: usize, to: usize) -> (r: Option<RequestMethod>)
        requires
            from <= to <= s@.len(),
        ensures
            r == Self::of_token(s@.subrange(from as int, to as int)),
    {
        if str_range_eq(s, from, to, "OPTIONS") {
            Some(RequestMethod::Options)
        } else if str_range_eq(s, from, to, "GET") {
            Some(RequestMethod::Get)
        } else if str_range_eq(s, from, to, "HEAD") {
            Some(RequestMethod::Head)
        } else if str_range_eq(s, from, to, "POST") {
            Some(RequestMethod::Post)
        } else if str_range_eq(s, from, to, "PUT") {
            Some(RequestMethod::Put)
        } else if str_range_eq(s, from, to, "DELETE") {
            Some(RequestMethod::Delete)
        } else if str_range_eq(s, from, to, "TRACE") {
            Some(RequestMethod::Trace)
        } else if str_range_eq(s, from, to, "CONNECT") {
            Some(RequestMethod::Connect)
        } else {
            None
        }
    }
}

/// Whether a token starts with `HTTP` in any mix of case.
pub open spec fn http_prefix(v: Seq<char>) -> bool {
    &&& v.len() >= 4
    &&& (v[0] == 'H' || v[0] == 'h')
    &&& (v[1] == 'T' || v[1] == 't')
    &&& (v[2] == 'T' || v[2] == 't')
    &&& (v[3] == 'P' || v[3] == 'p')
}

/// Whether a version token is acceptable: `HTTP` case-insensitively, a
/// slash, then exactly two dot-separated runs of digits, each with a value
/// small enough for a `u8`. Any deviation — a sign, an empty run, a second
/// dot — is refused.
pub open spec fn version_ok(v: Seq<char>) -> bool {
    let n = v.len() as int;
    &&& n >= 5
    &&& http_prefix(v)
    &&& v[4] == '/'
    &&& {
        let d1 = find_in(v, '.', 5, n);
        &&& 5 < d1 < n
        &&& all_digits(v, 5, d1)
        &&& digits_val(v, 5, d1) <= 255
        &&& d1 + 1 < n
        &&& all_digits(v, d1 + 1, n)
        &&& digits_val(v, d1 + 1, n) <= 255
    }
}

/// Parse a run of digits as a small integer: `None` when the run is empty,
/// when any character is not a digit, or when the value exceeds 255.
fn parse_version_component(s: &str, from: usize, to: usize) -> (r: Option<u8>)
    requires
        from <= to <= s@.len(),
    ensures
        r is Some <==> (from < to && all_digits(s@, from as int, to as int) && digits_val(
            s@,
            from as int,
            to as int,
        ) <= 255),
        r is Some ==> r->Some_0 as nat == digits_val(s@, from as int, to as int),
{
    if from == to {
        return None;
    }
    let mut i = from;
    let mut val: u32 = 0;
    while i < to
        invariant
            from <= i <= to <= s@.len(),
            all_digits(s@, from as int, i as int),
            val as nat == digits_val(s@, from as int, i as int),
            val <= 255,
        decreases to - i,
    {
        let d = s.get_char(i) as u32;
        if d < 48 || d > 57 {
            proof {
                assert(!is_digit(s@[i as int]));
                assert(!all_digits(s@, from as int, to as int));
            }
            return None;
        }
        let next = val * 10 + (d - 48);
        if next > 255 {
            proof {
                assert(digits_val(s@, from as int, i as int + 1) == next);
                crate::text::lemma_digits_val_mono(s@, from as int, i as int + 1, to as int);
            }
            return None;
        }
        val = next;
        i = i + 1;
    }
    Some(val as u8)
}

/// Validate the version token `s[from..to]`.
pub fn validate_version(s: &str, from: usize, to: usize) -> (r: bool)
    requires
        from <= to <= s@.len(),
    ensures
        r == version_ok(s@.subrange(from as int, to as int)),
{
    let v = s.substring_char(from, to);
    let n = to - from;
    if n < 5 {
        return false;
    }
    let c0 = v.get_char(0);
    let c1 = v.get_char(1);
    let c2 = v.get_char(2);
    let c3 = v.get_char(3);
    if !((c0 == 'H' || c0 == 'h') && (c1 == 'T' || c1 == 't') && (c2 == 'T' || c2 == 't') && (c3
        == 'P' || c3 == 'p')) {
        return false;
    }
    if v.get_char(4) != '/' {
        return false;
    }
    let d1 = find_char(v, '.', 5, n);
    proof {
        crate::text::lemma_find_in(v@, '.', 5, n as int);
    }
    if d1 == n {
        return false;
    }
    if parse_version_component(v, 5, d1).is_none() {
        return false;
    }
    parse_version_component(v, d1 + 1, n).is_some()
}

/// The declared body length after scanning the lines starting at `p`: every
/// line holding the literal `"Content-Length: "` anywhere has the text after
/// its first 16 characters parsed as the length, the last such line winning;
/// a malformed or oversized length fails the whole scan.
pub open spec fn scan_content_length(s: Seq<char>, p: int, cur: nat) -> Option<nat>
    decreases s.len() - p + 1,
{
    if p >= s.len() {
        Some(cur)
    } else {
        let e0 = find_in(s, '\n', p, s.len() as int);
        let e = if e0 < p {
            p
        } else {
            e0
        };
        let l = line_body_end(s, p, e);
        let found = uint_of(s, p + 16, l);
        let cur2 = if contains_seq(s, p, l, "Content-Length: "@) {
            if found is Some && found->Some_0 <= usize::MAX {
                found
            } else {
                None
            }
        } else {
            Some(cur)
        };
        if cur2 is None {
            None
        } else if e >= s.len() {
            cur2
        } else {
            scan_content_length(s, e + 1, cur2->Some_0)
        }
    }
}

/// Scan the lines starting at `p` for the declared body length.
pub fn scan_content_length_exec(s: &str, p0: usize) -> (r: Option<usize>)
    requires
        p0 <= s@.len(),
    ensures
        r is Some ==> scan_content_length(s@, p0 as int, 0) == Some(r->Some_0 as nat),
        r is None <==> scan_content_length(s@, p0 as int, 0) is None,
{
    let len = s.unicode_len();
    let mut p = p0;
    let mut cur: usize = 0;
    loop
        invariant
            p0 <= p <= len == s@.len(),
            scan_content_length(s@, p as int, cur as nat) == scan_content_length(
                s@,
                p0 as int,
                0,
            ),
        decreases len - p + 1,
    {
        if p >= len {
            return Some(cur);
        }
        let e = find_char(s, '\n', p, len);
        proof {
            crate::text::lemma_find_in(s@, '\n', p as int, len as int);
        }
        let l = if e == len {
            e
        } else if e > p && s.get_char(e - 1) == '\r' {
            e - 1
        } else {
            e
        };
        if range_contains(s, p, l, "Content-Length: ") {
            proof {
                reveal_strlit("Content-Length: ");
            }
            match parse_uint(s, p + 16, l) {
                Some(v) => {
                    cur = v;
                },
                None => {
                    return None;
                },
            }
        }
        if e == len {
            return Some(cur);
        }
        p = e + 1;
    }
}

/// What a well-formed header block parses to: the method, the URI token,
/// the version token, and the declared body length (zero when no
/// `Content-Length` line is present).
pub open spec fn parse_head(s: Seq<char>) -> Option<(RequestMethod, Seq<char>, Seq<char>, nat)> {
    if s.len() == 0 {
        None
    } else {
        let e0 = find_in(s, '\n', 0, s.len() as int);
        let l = line_body_end(s, 0, e0);
        let p1 = find_in(s, ' ', 0, l);
        if p1 >= l {
            None
        } else {
            let p2 = find_in(s, ' ', p1 + 1, l);
            if p2 >= l {
                None
            } else {
                let p3 = find_in(s, ' ', p2 + 1, l);
                let t0 = s.subrange(0, p1);
                let t1 = s.subrange(p1 + 1, p2);
                let t2 = s.subrange(p2 + 1, p3);
                if RequestMethod::of_token(t0) is None {
                    None
                } else if !version_ok(t2) {
                    None
                } else {
                    let next = if e0 >= s.len() {
                        s.len() as int
                    } else {
                        e0 + 1
                    };
                    match scan_content_length(s, next, 0) {
                        None => None,
                        Some(n) => if n <= usize::MAX {
                            Some((RequestMethod::of_token(t0)->Some_0, t1, t2, n))
                        } else {
                            None
                        },
                    }
                }
            }
        }
    }
}

/// The extension of the file a URI path names, following std's path rules:
/// trailing slashes are ignored, the file name is what follows the last
/// slash, `.` and `..` have no extension, and otherwise the extension is
/// what follows the last dot, unless the name's only dot starts it.
pub open spec fn extension_of(u: Seq<char>) -> Option<Seq<char>> {
    let end = trim_end(u, '/', u.len() as int);
    let q = rfind_in(u, '/', 0, end) + 1;
    if end <= q {
        None
    } else if u.subrange(q, end) == "."@ || u.subrange(q, end) == ".."@ {
        None
    } else {
        let d = rfind_in(u, '.', q, end);
        if d > q {
            Some(u.subrange(d + 1, end))
        } else {
            None
        }
    }
}

/// The fixed extension-to-MIME table, with `application/octet-stream` for
/// an unrecognized or absent extension.
pub open spec fn mime_for(ext: Option<Seq<char>>) -> Seq<char> {
    match ext {
        None => "application/octet-stream"@,
        Some(e) => {
            if e == "html"@ {
                "text/html"@
            } else if e == "txt"@ {
                "text/plain"@
            } else if e == "css"@ {
                "text/css"@
            } else if e == "csv"@ {
                "text/csv"@
            } else if e == "xml"@ {
                "application/xml"@
            } else if e == "zip"@ {
                "application/zip"@
            } else if e == "js"@ {
                "application/javascript"@
            } else if e == "json"@ {
                "application/json"@
            } else if e == "gif"@ {
                "image/gif"@
            } else if e == "jpeg"@ {
                "image/jpeg"@
            } else if e == "jpg"@ {
                "image/jpeg"@
            } else if e == "png"@ {
                "image/png"@
            } else if e == "tiff"@ {
                "image/tiff"@
            } else if e == "mpeg"@ {
                "video/mpeg"@
            } else if e == "mp4"@ {
                "video/mp4"@
            } else {
                "application/octet-stream"@
            }
        },
    }
}

/// The filesystem path a URI resolves to, relative to the served root:
/// `index.html` is appended when the path names a directory.
pub open spec fn resolved_path(uri: Seq<char>, is_dir: bool) -> Seq<char> {
    "."@ + uri + (if is_dir {
        "/index.html"@
    } else {
        Seq::empty()
    })
}

/// Resolve a URI against the served root.
pub fn resolve_path(uri: &str, is_dir: bool) -> (r: String)
    ensures
        r@ == resolved_path(uri@, is_dir),
{
    let mut p = ".".to_owned();
    p.append(uri);
    if is_dir {
        p.append("/index.html");
    }
    proof {
        assert(p@ =~= resolved_path(uri@, is_dir));
    }
    p
}

/// A resolved GET resource as the contracts see it: the file bytes and
/// whether the URI named a directory (so that `index.html` was read).
pub open spec fn resource_view(r: Option<(Vec<u8>, bool)>) -> Option<(Seq<u8>, bool)> {
    match r {
        Some((d, dir)) => Some((d@, dir)),
        None => None,
    }
}

/// The response a dispatched method produces, as status, body, and content
/// type: a found resource under the MIME type of its resolved path for GET
/// and a missing one as 404, a fixed plain-text acknowledgement for POST,
/// and 501 otherwise.
pub open spec fn dispatch_parts(
    m: RequestMethod,
    uri: Seq<char>,
    resource: Option<(Seq<u8>, bool)>,
) -> (ResponseCode, Option<Seq<u8>>, Option<Seq<char>>) {
    match m {
        RequestMethod::Get => match resource {
            Some((d, dir)) => (
                ResponseCode::OK,
                Some(d),
                Some(mime_for(extension_of(resolved_path(uri, dir)))),
            ),
            None => (ResponseCode::NotFound, None, None),
        },
        RequestMethod::Post => (ResponseCode::OK, Some(encode_utf8("OK"@)), Some("text/plain"@)),
        _ => (ResponseCode::NotImplemented, None, None),
    }
}

/// A parsed request: method, URI, version, and the body once attached.
pub struct HttpRequest {
    pub method: RequestMethod,
    pub uri: String,
    pub version: String,
    pub data: Option<Vec<u8>>,
}

impl HttpRequest {
    /// Parse the framed header block into a request and the declared body
    /// length. Succeeds exactly on the header blocks `parse_head` accepts;
    /// on success the request carries no body yet.
    pub fn parse(request: &str) -> (r: Result<(HttpRequest, usize), ParseError>)
        ensures
            r is Ok <==> parse_head(request@) is Some,
            r is Ok ==> {
                let h = parse_head(request@)->Some_0;
                &&& r->Ok_0.0.method == h.0
                &&& r->Ok_0.0.uri@ == h.1
                &&& r->Ok_0.0.version@ == h.2
                &&& r->Ok_0.0.data is None
                &&& r->Ok_0.1 as nat == h.3
            },
    {
        let len = request.unicode_len();
        if len == 0 {
            return Err(ParseError);
        }
        let e0 = find_char(request, '\n', 0, len);
        proof {
            crate::text::lemma_find_in(request@, '\n', 0, len as int);
        }
        let l = if e0 == len {
            e0
        } else if e0 > 0 && request.get_char(e0 - 1) == '\r' {
            e0 - 1
        } else {
            e0
        };
        let p1 = find_char(request, ' ', 0, l);
        proof {
            crate::text::lemma_find_in(request@, ' ', 0, l as int);
        }
        if p1 >= l {
            return Err(ParseError);
        }
        let p2 = find_char(request, ' ', p1 + 1, l);
        proof {
            crate::text::lemma_find_in(request@, ' ', p1 as int + 1, l as int);
        }
        if p2 >= l {
            return Err(ParseError);
        }
        let p3 = find_char(request, ' ', p2 + 1, l);
        proof {
            crate::text::lemma_find_in(request@, ' ', p2 as int + 1, l as int);
        }
        let method = match RequestMethod::from_token(request, 0, p1) {
            Some(m) => m,
            None => {
                return Err(ParseError);
            },
        };
        if !validate_version(request, p2 + 1, p3) {
            return Err(ParseError);
        }
        let next = if e0 == len {
            len
        } else {
            e0 + 1
        };
        let size = match scan_content_length_exec(request, next) {
            Some(n) => n,
            None => {
                return Err(ParseError);
            },
        };
        let uri = request.substring_char(p1 + 1, p2).to_owned();
        let version = request.substring_char(p2 + 1, p3).to_owned();
        Ok((HttpRequest { method, uri, version, data: None }, size))
    }

    /// The request line as recorded in the connection's logs.
    pub open spec fn request_line(self) -> Seq<char> {
        self.method.token() + " "@ + self.uri@ + " "@ + self.version@
    }

    /// The MIME type for the request's URI, from the fixed extension table.
    pub fn get_content_type(&self) -> (r: String)
        ensures
            r@ == mime_for(extension_of(self.uri@)),
    {
        Self::content_type_of(self.uri.as_str())
    }

    /// The MIME type for a path, from the fixed extension table.
    pub fn content_type_of(u: &str) -> (r: String)
        ensures
            r@ == mime_for(extension_of(u@)),
    {
        let len = u.unicode_len();
        let mut end = len;
        while end > 0 && u.get_char(end - 1) == '/'
            invariant
                end <= len == u@.len(),
                trim_end(u@, '/', end as int) == trim_end(u@, '/', len as int),
            decreases end,
        {
            end = end - 1;
        }
        let q = rfind_after(u, '/', 0, end);
        if end <= q {
            return "application/octet-stream".to_owned();
        }
        if str_range_eq(u, q, end, ".") || str_range_eq(u, q, end, "..") {
            return "application/octet-stream".to_owned();
        }
        let d_after = rfind_after(u, '.', q, end);
        if d_after <= q + 1 {
            return "application/octet-stream".to_owned();
        }
        let ext = u.substring_char(d_after, end).to_owned();
        if ext == "html".to_owned() {
            "text/html".to_owned()
        } else if ext == "txt".to_owned() {
            "text/plain".to_owned()
        } else if ext == "css".to_owned() {
            "text/css".to_owned()
        } else if ext == "csv".to_owned() {
            "text/csv".to_owned()
        } else if ext == "xml".to_owned() {
            "application/xml".to_owned()
        } else if ext == "zip".to_owned() {
            "application/zip".to_owned()
        } else if ext == "js".to_owned() {
            "application/javascript".to_owned()
        } else if ext == "json".to_owned() {
            "application/json".to_owned()
        } else if ext == "gif".to_owned() {
            "image/gif".to_owned()
        } else if ext == "jpeg".to_owned() {
            "image/jpeg".to_owned()
        } else if ext == "jpg".to_owned() {
            "image/jpeg".to_owned()
        } else if ext == "png".to_owned() {
            "image/png".to_owned()
        } else if ext == "tiff".to_owned() {
            "image/tiff".to_owned()
        } else if ext == "mpeg".to_owned() {
            "video/mpeg".to_owned()
        } else if ext == "mp4".to_owned() {
            "video/mp4".to_owned()
        } else {
            "application/octet-stream".to_owned()
        }
    }

    /// Dispatch on the method after logging the request line. The caller
    /// supplies the outcome of resolving the URI against the served root:
    /// the file bytes and whether the URI named a directory, or `None` for
    /// any read failure. It is consulted only for GET.
    pub fn handle_method(&self, resource: Option<(Vec<u8>, bool)>, logs: &mut Logs) -> (r:
        HttpResponse)
        ensures
            final(logs)@ == old(logs).logged(self.request_line()),
            ({
                let parts = dispatch_parts(self.method, self.uri@, resource_view(resource));
                &&& r.status == parts.0
                &&& (r.data is Some <==> parts.1 is Some)
                &&& r.data is Some ==> r.data->Some_0@ == parts.1->Some_0
                &&& (r.content_type is Some <==> parts.2 is Some)
                &&& r.content_type is Some ==> r.content_type->Some_0@ == parts.2->Some_0
                &&& r.wf()
            }),
    {
        let mut line = self.method.as_token().to_owned();
        line.append(" ");
        line.append(self.uri.as_str());
        line.append(" ");
        line.append(self.version.as_str());
        logs.log(line.as_str());
        match self.method {
            RequestMethod::Get => match resource {
                Some((d, dir)) => {
                    let path = resolve_path(self.uri.as_str(), dir);
                    let ct = Self::content_type_of(path.as_str());
                    HttpResponse::new(ResponseCode::OK, Some(d), Some(ct))
                },
                None => HttpResponse::new(ResponseCode::NotFound, None, None),
            },
            RequestMethod::Post => HttpResponse::new(
                ResponseCode::OK,
                Some("OK".as_bytes_vec()),
                Some("text/plain".to_owned()),
            ),
            _ => HttpResponse::new(ResponseCode::NotImplemented, None, None),
        }
    }

    /// Percent-decode the URI after its leading character, one `%XX`
    /// escape at a time; a decoded byte becomes the character with that
    /// code. The preconditions mirror the scan's unwraps, which panic on
    /// any other input.
    pub fn _unhex(&self) -> (r: String)
        requires
            self.uri@.len() >= 1,
            unhex_wf(self.uri@, 1),
        ensures
            r@ == unhex_out(self.uri@, 1),
    {
        let u = self.uri.as_str();
        let len = u.unicode_len();
        let mut out = String::new();
        let mut i: usize = 1;
        while i < len
            invariant
                1 <= i <= len == u@.len(),
                unhex_wf(u@, i as int),
                out@ + unhex_out(u@, i as int) == unhex_out(u@, 1),
            decreases len - i,
        {
            let c = u.get_char(i);
            if c != '%' {
                push_char(&mut out, c);
                i = i + 1;
                proof {
                    assert(out@ + unhex_out(u@, i as int) =~= unhex_out(u@, 1));
                }
            } else {
                let a = u.get_char(i + 1);
                let b = u.get_char(i + 2);
                let val: u8 = if a == '+' {
                    hex_digit(b)
                } else {
                    hex_digit(a) * 16 + hex_digit(b)
                };
                push_char(&mut out, val as char);
                i = i + 3;
                proof {
                    assert(out@ + unhex_out(u@, i as int) =~= unhex_out(u@, 1));
                }
            }
        }
        out
    }

    /// Attach the body read from the stream, which is interpreted as UTF-8
    /// text: a body that is not valid UTF-8 is fatal for this read and
    /// fails the request, leaving it unchanged.
    pub fn attach_body(&mut self, body: Vec<u8>) -> (r: Result<(), ParseError>)
        ensures
            r is Ok <==> valid_utf8(body@),
            r is Ok ==> final(self).method == old(self).method && final(self).uri == old(self).uri
                && final(self).version == old(self).version && final(self).data == Some(body),
            r is Err ==> *final(self) == *old(self),
    {
        if bytes_as_str(body.as_slice()).is_some() {
            self.data = Some(body);
            Ok(())
        } else {
            Err(ParseError)
        }
    }
}

pub open spec fn is_hex_digit(c: char) -> bool {
    is_digit(c) || (97 <= c as int <= 102) || (65 <= c as int <= 70)
}

pub open spec fn hex_digit_val(c: char) -> nat {
    if is_digit(c) {
        digit_val(c)
    } else if 97 <= c as int <= 102 {
        (c as int - 87) as nat
    } else {
        (c as int - 55) as nat
    }
}

/// A two-character escape body that std's radix-16 parse of a `u8`
/// accepts: two hex digits, or a plus sign and one hex digit.
pub open spec fn hexpair_ok(a: char, b: char) -> bool {
    (is_hex_digit(a) || a == '+') && is_hex_digit(b)
}

pub open spec fn hexpair_val(a: char, b: char) -> nat {
    if a == '+' {
        hex_digit_val(b)
    } else {
        hex_digit_val(a) * 16 + hex_digit_val(b)
    }
}

/// The sequential escape scan starting at `i` runs off neither the input
/// nor a malformed escape: every `%` marker it reaches is followed by two
/// characters forming a valid hex pair.
pub open spec fn unhex_wf(s: Seq<char>, i: int) -> bool
    decreases s.len() - i,
{
    if i >= s.len() {
        true
    } else if s[i] == '%' {
        i + 2 < s.len() && hexpair_ok(s[i + 1], s[i + 2]) && unhex_wf(s, i + 3)
    } else {
        unhex_wf(s, i + 1)
    }
}

/// The decoded text from `i` on: each `%` escape becomes the character
/// with the decoded code, every other character is kept.
pub open spec fn unhex_out(s: Seq<char>, i: int) -> Seq<char>
    decreases s.len() - i,
{
    if i >= s.len() {
        Seq::empty()
    } else if s[i] == '%' {
        if i + 2 < s.len() {
            seq![(hexpair_val(s[i + 1], s[i + 2]) as u8) as char] + unhex_out(s, i + 3)
        } else {
            Seq::empty()
        }
    } else {
        seq![s[i]] + unhex_out(s, i + 1)
    }
}

/// The value of one hex digit.
fn hex_digit(c: char) -> (r: u8)
    requires
        is_hex_digit(c),
    ensures
        r as nat == hex_digit_val(c),
        r <= 15,
{
    let d = c as u32;
    if d >= 97 {
        (d - 87) as u8
    } else if d >= 65 {
        (d - 55) as u8
    } else {
        (d - 48) as u8
    }
}

/// Exact-length read of `n` body bytes from the bytes that follow the
/// header block: fails exactly when fewer than `n` bytes are available,
/// as a short read from the stream does.
pub fn read_exact_body(src: &Vec<u8>, start: usize, n: usize) -> (r: Result<Vec<u8>, ParseError>)
    ensures
        r is Ok <==> start + n <= src@.len(),
        r is Ok ==> r->Ok_0@ == src@.subrange(start as int, start as int + n as int),
{
    if start > src.len() || src.len() - start < n {
        return Err(ParseError);
    }
    let mut out: Vec<u8> = Vec::new();
    let mut i: usize = 0;
    while i < n
        invariant
            start + n <= src@.len(),
            start + n <= usize::MAX,
            i <= n,
            out@ == src@.subrange(start as int, start as int + i as int),
        decreases n - i,
    {
        out.push(src[start + i]);
        i = i + 1;
        proof {
            assert(out@ =~= src@.subrange(start as int, start as int + i as int));
        }
    }
    Ok(out)
}

} // verus!
