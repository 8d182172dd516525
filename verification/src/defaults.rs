//! Default HTML bodies for responses that carry none of their own.
use vstd::prelude::*;
use vstd::string::StrSliceExecFns;
use vstd::utf8::encode_utf8;
use crate::httpresponse::ResponseCode;
use crate::text::{dec_bytes, render_dec};

verus! {

pub struct Defaults;

impl Defaults {
    /// The default HTML page for a status code: a minimal wrapper naming the
    /// numeric code and the reason phrase.
    pub open spec fn default_message_bytes(code: ResponseCode) -> Seq<u8> {
        encode_utf8("\n<html>\n  <title>Anduin Error</title>\n  <body>\n    <h1> "@)
            + dec_bytes(code.code_num() as nat) + encode_utf8(" "@) + encode_utf8(
            code.reason_phrase(),
        ) + encode_utf8(" </h1>\n  </body>\n</html>"@)
    }

    /// Generate the default HTML body for `code`.
    pub fn default_message(code: &ResponseCode) -> (r: Vec<u8>)
        ensures
            r@ == Self::default_message_bytes(*code),
    {
        let (num, msg) = code.get();
        let mut r = "\n<html>\n  <title>Anduin Error</title>\n  <body>\n    <h1> ".as_bytes_vec();
        let mut part = render_dec(num as usize);
        r.append(&mut part);
        let mut part = " ".as_bytes_vec();
        r.append(&mut part);
        let mut part = msg.as_bytes_vec();
        r.append(&mut part);
        let mut part = " </h1>\n  </body>\n</html>".as_bytes_vec();
        r.append(&mut part);
        proof {
            assert(r@ =~= Self::default_message_bytes(*code));
        }
        r
    }
}

} // verus!
