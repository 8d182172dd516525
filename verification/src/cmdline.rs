//! Command-line option parsing: bind host, bind port, and the sandbox
//! flag, from an argument vector.
use vstd::prelude::*;
use vstd::string::StrSliceExecFns;
use vstd::string::StringExecFns;
use crate::text::{parse_uint, uint_of};

verus! {

/// Why the command line was refused, or that help was asked for. The
/// caller prints the matching message and stops.
#[derive(Clone, Copy, Debug, PartialEq, Eq, Structural)]
pub enum CmdLineError {
    NoHost,
    NoPort,
    InvalidPort,
    HelpRequested,
}

impl CmdLineError {
    /// The message the refusal carries.
    pub open spec fn spec_message(self) -> Seq<char> {
        match self {
            CmdLineError::NoHost => "No host provided"@,
            CmdLineError::NoPort => "No port provided"@,
            CmdLineError::InvalidPort => "Invalid Port"@,
            CmdLineError::HelpRequested => "help requested"@,
        }
    }

    pub fn message(&self) -> (r: &'static str)
        ensures
            r@ == self.spec_message(),
    {
        match self {
            CmdLineError::NoHost => "No host provided",
            CmdLineError::NoPort => "No port provided",
            CmdLineError::InvalidPort => "Invalid Port",
            CmdLineError::HelpRequested => "help requested",
        }
    }
}

/// The options the server starts with.
pub struct CmdLineOptions {
    pub host: String,
    pub port: u32,
    pub sandbox: bool,
}

impl Default for CmdLineOptions {
    /// The defaults: serve everywhere on port 8000, sandboxed.
    fn default() -> (r: Self)
        ensures
            r.host@ == "0.0.0.0"@,
            r.port == 8000,
            r.sandbox == true,
    {
        CmdLineOptions { host: "0.0.0.0".to_owned(), port: 8000, sandbox: true }
    }
}

/// The views of a vector of strings, element by element.
pub open spec fn views_of(v: Seq<String>) -> Seq<Seq<char>> {
    Seq::new(v.len(), |k: int| v[k]@)
}

/// What scanning the arguments from position `i` yields, given the options
/// collected so far and the unrecognized tokens seen so far: the final
/// host, port, sandbox flag and unrecognized tokens, or a refusal. A host
/// or port option consumes the following argument as its value.
pub open spec fn parse_from(
    args: Seq<Seq<char>>,
    i: int,
    host: Seq<char>,
    port: u32,
    sandbox: bool,
    bad: Seq<Seq<char>>,
) -> Result<(Seq<char>, u32, bool, Seq<Seq<char>>), CmdLineError>
    decreases args.len() - i,
{
    if i >= args.len() {
        Ok((host, port, sandbox, bad))
    } else {
        let a = args[i];
        if a == "-i"@ || a == "--host"@ {
            if i + 1 < args.len() {
                parse_from(args, i + 2, args[i + 1], port, sandbox, bad)
            } else {
                Err(CmdLineError::NoHost)
            }
        } else if a == "-p"@ || a == "--port"@ {
            if i + 1 < args.len() {
                let v = uint_of(args[i + 1], 0, args[i + 1].len() as int);
                if v is Some && v->Some_0 <= u32::MAX {
                    parse_from(args, i + 2, host, v->Some_0 as u32, sandbox, bad)
                } else {
                    Err(CmdLineError::InvalidPort)
                }
            } else {
                Err(CmdLineError::NoPort)
            }
        } else if a == "--no-sandbox"@ {
            parse_from(args, i + 1, host, port, false, bad)
        } else if a == "-h"@ || a == "--help"@ {
            Err(CmdLineError::HelpRequested)
        } else {
            parse_from(args, i + 1, host, port, sandbox, bad.push(a))
        }
    }
}

/// Whether `a` equals the option token `pat`.
fn arg_is(a: &String, pat: &str) -> (r: bool)
    ensures
        r == (a@ == pat@),
{
    a.as_str().to_owned() == pat.to_owned()
}

impl CmdLineOptions {
    /// Parse an argument vector, the program name first, into options plus
    /// the unrecognized tokens in order; or report why it was refused.
    pub fn parse(args: &Vec<String>) -> (r: Result<(CmdLineOptions, Vec<String>), CmdLineError>)
        ensures
            ({
                let s = parse_from(views_of(args@), 1, "0.0.0.0"@, 8000, true, Seq::empty());
                match r {
                    Ok(o) => s is Ok && o.0.host@ == s->Ok_0.0 && o.0.port == s->Ok_0.1
                        && o.0.sandbox == s->Ok_0.2 && views_of(o.1@) == s->Ok_0.3,
                    Err(e) => s is Err && e == s->Err_0,
                }
            }),
    {
        let mut host: String = "0.0.0.0".to_owned();
        let mut port: u32 = 8000;
        let mut sandbox: bool = true;
        let mut bad: Vec<String> = Vec::new();
        let mut i: usize = 1;
        let len = args.len();
        proof {
            assert(views_of(bad@) =~= Seq::<Seq<char>>::empty());
        }
        while i < len
            invariant
                1 <= i,
                len == args@.len(),
                parse_from(views_of(args@), i as int, host@, port, sandbox, views_of(bad@))
                    == parse_from(views_of(args@), 1, "0.0.0.0"@, 8000, true, Seq::empty()),
            decreases len - i,
        {
            proof {
                assert(views_of(args@)[i as int] == args@[i as int]@);
            }
            let a = &args[i];
            if arg_is(a, "-i") || arg_is(a, "--host") {
                if i + 1 < len {
                    proof {
                        assert(views_of(args@)[i as int + 1] == args@[i as int + 1]@);
                    }
                    host = args[i + 1].as_str().to_owned();
                    i = i + 2;
                } else {
                    return Err(CmdLineError::NoHost);
                }
            } else if arg_is(a, "-p") || arg_is(a, "--port") {
                if i + 1 < len {
                    proof {
                        assert(views_of(args@)[i as int + 1] == args@[i as int + 1]@);
                    }
                    let v = args[i + 1].as_str();
                    match parse_uint(v, 0, v.unicode_len()) {
                        Some(p) if p <= u32::MAX as usize => {
                            port = p as u32;
                            i = i + 2;
                        },
                        _ => {
                            return Err(CmdLineError::InvalidPort);
                        },
                    }
                } else {
                    return Err(CmdLineError::NoPort);
                }
            } else if arg_is(a, "--no-sandbox") {
                sandbox = false;
                i = i + 1;
            } else if arg_is(a, "-h") || arg_is(a, "--help") {
                return Err(CmdLineError::HelpRequested);
            } else {
                let ghost prev = views_of(bad@);
                bad.push(a.as_str().to_owned());
                i = i + 1;
                proof {
                    assert(views_of(bad@) =~= prev.push(views_of(args@)[i as int - 1]));
                }
            }
        }
        Ok((CmdLineOptions { host, port, sandbox }, bad))
    }
}

} // verus!
