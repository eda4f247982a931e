//! The request side of the engine: the method set, parse failures, the
//! request value, and the parser for a request head given as the lines
//! read from the connection.

use vstd::prelude::*;
use crate::headers::{Headers, HeaderSeq, spec_insert};
use crate::strutil::{token_start, token_end, colon_pos, spec_trim, str_eq, scan_token, find_colon, trim_str};

verus! {

/// A request method. A closed enumeration; a token outside it is a parse
/// failure.
#[derive(Debug, Copy, Clone, Eq, PartialEq, Hash, Structural)]
pub enum Method {
    Get,
}

/// Why a request head failed to parse.
#[derive(Debug, Clone, PartialEq, Eq)]
pub enum ParseError {
    /// The request line has no first token.
    MissingMethod,
    /// The request line's first token is not a known method; carries the
    /// offending token.
    UnknownMethod(String),
    /// The request line has no second token.
    MissingPath,
    /// A header line has no name before the colon.
    MissingHeaderName,
    /// A header line has no colon introducing a value.
    MissingHeaderValue,
}

impl Method {
    /// The method named by a token, by exact case-sensitive match.
    pub open spec fn spec_of_token(t: Seq<char>) -> Option<Method> {
        if t == "GET"@ {
            Some(Method::Get)
        } else {
            None
        }
    }

    /// Converts a method token into a `Method`; any token outside the
    /// known set is an `UnknownMethod` failure carrying the token.
    pub fn try_from(value: &str) -> (r: Result<Method, ParseError>)
        ensures
            match r {
                Ok(m) => Method::spec_of_token(value@) == Some(m),
                Err(e) => {
                    &&& Method::spec_of_token(value@) is None
                    &&& e matches ParseError::UnknownMethod(t) && t@ == value@
                },
            },
    {
        if str_eq(value, "GET") {
            Ok(Method::Get)
        } else {
            Err(ParseError::UnknownMethod(value.to_owned()))
        }
    }
}

/// A parsed request: method, path, and header map.
#[derive(Debug, Clone)]
pub struct Request {
    pub method: Method,
    pub path: String,
    pub headers: Headers,
}

/// The line at position `i`; past the read lines, end of stream reads as
/// an empty line.
pub open spec fn line_at(ls: Seq<Seq<char>>, i: int) -> Seq<char> {
    if 0 <= i < ls.len() {
        ls[i]
    } else {
        Seq::empty()
    }
}

/// A line that terminates the header block: empty (end of stream), a bare
/// newline, or a bare carriage-return newline.
pub open spec fn is_blank_line(l: Seq<char>) -> bool {
    ||| l.len() == 0
    ||| (l.len() == 1 && l[0] == '\n')
    ||| (l.len() == 2 && l[0] == '\r' && l[1] == '\n')
}

/// Whether the request line has a first (method) token.
pub open spec fn spec_has_method(l: Seq<char>) -> bool {
    token_start(l, 0) < l.len()
}

/// The request line's first token.
pub open spec fn spec_method_token(l: Seq<char>) -> Seq<char> {
    l.subrange(token_start(l, 0), token_end(l, token_start(l, 0)))
}

/// Where the request line's second token would start.
pub open spec fn spec_path_start(l: Seq<char>) -> int {
    token_start(l, token_end(l, token_start(l, 0)))
}

/// Whether the request line has a second (path) token.
pub open spec fn spec_has_path(l: Seq<char>) -> bool {
    spec_path_start(l) < l.len()
}

/// The request line's second token.
pub open spec fn spec_path_token(l: Seq<char>) -> Seq<char> {
    l.subrange(spec_path_start(l), token_end(l, spec_path_start(l)))
}

/// Whether a header line has a colon.
pub open spec fn spec_has_colon(l: Seq<char>) -> bool {
    colon_pos(l, 0) < l.len()
}

/// A header line's name: everything before the first colon.
pub open spec fn spec_header_key(l: Seq<char>) -> Seq<char> {
    l.subrange(0, colon_pos(l, 0))
}

/// A header line's value: everything after the first colon, trimmed of
/// surrounding whitespace.
pub open spec fn spec_header_value(l: Seq<char>) -> Seq<char> {
    spec_trim(l.subrange(colon_pos(l, 0) + 1, l.len() as int))
}

/// Every header line from `i` up to the terminating blank line has a
/// colon.
pub open spec fn spec_headers_ok(ls: Seq<Seq<char>>, i: int) -> bool
    decreases ls.len() - i,
{
    if is_blank_line(line_at(ls, i)) {
        true
    } else {
        spec_has_colon(line_at(ls, i)) && spec_headers_ok(ls, i + 1)
    }
}

/// The header map accumulated from line `i` on, starting from `acc`, with
/// a repeated name overwriting the prior value.
pub open spec fn spec_headers_acc(ls: Seq<Seq<char>>, i: int, acc: HeaderSeq) -> HeaderSeq
    decreases ls.len() - i,
{
    let l = line_at(ls, i);
    if is_blank_line(l) || !spec_has_colon(l) {
        acc
    } else {
        spec_headers_acc(ls, i + 1, spec_insert(acc, spec_header_key(l), spec_header_value(l)))
    }
}

/// Whether a request head parses: a known method token, a path token, and
/// a colon on every header line.
pub open spec fn spec_parse_ok(ls: Seq<Seq<char>>) -> bool {
    let rl = line_at(ls, 0);
    &&& spec_has_method(rl)
    &&& Method::spec_of_token(spec_method_token(rl)) is Some
    &&& spec_has_path(rl)
    &&& spec_headers_ok(ls, 1)
}

/// A header-terminating line: empty, `"\n"`, or `"\r\n"`. The read loop
/// around the parser stops reading header lines at the first such line.
pub fn is_end_of_headers(line: &str) -> (r: bool)
    ensures
        r == is_blank_line(line@),
{
    let n = line.unicode_len();
    if n == 0 {
        true
    } else if n == 1 {
        line.get_char(0) == '\n'
    } else if n == 2 {
        line.get_char(0) == '\r' && line.get_char(1) == '\n'
    } else {
        false
    }
}

/// Parses a request head from the lines read off the stream: the request
/// line first, then header lines up to the first blank line. A line the
/// stream did not yield (end of stream) reads as an empty line and so
/// terminates the header block.
#[verifier::loop_isolation(false)]
pub fn parse_request(lines: &Vec<String>) -> (r: Result<Request, ParseError>)
    ensures
        ({
            let ls = lines.deep_view();
            let rl = line_at(ls, 0);
            &&& (r is Ok <==> spec_parse_ok(ls))
            &&& (r matches Ok(req) ==> {
                &&& req.method == Method::Get
                &&& Method::spec_of_token(spec_method_token(rl)) == Some(req.method)
                &&& req.path@ == spec_path_token(rl)
                &&& req.headers@ == spec_headers_acc(ls, 1, Seq::empty())
                &&& req.headers.wf()
            })
            &&& (r matches Err(e) ==> match e {
                ParseError::MissingMethod => !spec_has_method(rl),
                ParseError::MissingPath => {
                    &&& spec_has_method(rl)
                    &&& !spec_has_path(rl)
                },
                ParseError::UnknownMethod(t) => {
                    &&& spec_has_method(rl)
                    &&& spec_has_path(rl)
                    &&& Method::spec_of_token(spec_method_token(rl)) is None
                    &&& t@ == spec_method_token(rl)
                },
                ParseError::MissingHeaderName => false,
                ParseError::MissingHeaderValue => {
                    &&& spec_has_method(rl)
                    &&& Method::spec_of_token(spec_method_token(rl)) is Some
                    &&& spec_has_path(rl)
                    &&& !spec_headers_ok(ls, 1)
                },
            })
        }),
{
    let ghost ls = lines.deep_view();
    let rl: &str = if lines.len() > 0 {
        lines[0].as_str()
    } else {
        ""
    };
    proof {
        reveal_strlit("");
        assert(rl@ =~= line_at(ls, 0));
    }

    let n0 = rl.unicode_len();
    let (ms, me) = scan_token(rl, 0);
    if ms == n0 {
        return Err(ParseError::MissingMethod);
    }
    let (ps, pe) = scan_token(rl, me);
    if ps == n0 {
        return Err(ParseError::MissingPath);
    }
    let method = match Method::try_from(rl.substring_char(ms, me)) {
        Ok(m) => m,
        Err(e) => {
            return Err(e);
        },
    };
    let path = rl.substring_char(ps, pe).to_owned();

    let mut headers = Headers::new();
    let mut i: usize = 1;
    loop
        invariant
            1 <= i,
            headers.wf(),
            spec_headers_ok(ls, 1) <==> spec_headers_ok(ls, i as int),
            spec_headers_acc(ls, 1, Seq::empty()) == spec_headers_acc(ls, i as int, headers@),
        decreases lines@.len() + 1 - i,
    {
        let line: &str = if i < lines.len() {
            lines[i].as_str()
        } else {
            ""
        };
        proof {
            reveal_strlit("");
            assert(line@ =~= line_at(ls, i as int));
        }
        if is_end_of_headers(line) {
            return Ok(Request { method, path, headers });
        }
        let n = line.unicode_len();
        let c = find_colon(line);
        if c == n {
            return Err(ParseError::MissingHeaderValue);
        }
        let key = line.substring_char(0, c).to_owned();
        let value = trim_str(line.substring_char(c + 1, n)).to_owned();
        headers.insert(key, value);
        i = i + 1;
    }
}

} // verus!
