//! The response side of the engine: status codes, the response value, and
//! its serialization to wire bytes.

use vstd::prelude::*;
use vstd::utf8::encode_utf8;
use crate::headers::{Headers, HeaderSeq, spec_find};
use crate::strutil::{dec_of, dec_string};

verus! {

/// A response status code. A closed enumeration; each code carries a
/// canonical reason phrase.
#[derive(Debug, Copy, Clone, Eq, PartialEq, Hash, Structural)]
pub enum Status {
    NotFound,
}

impl Status {
    /// The canonical status text, code and reason phrase together.
    pub open spec fn spec_text(self) -> Seq<char> {
        match self {
            Status::NotFound => "404 Not Found"@,
        }
    }

    /// Renders the status code and reason phrase, e.g. `404 Not Found`.
    pub fn text(&self) -> (r: String)
        ensures
            r@ == self.spec_text(),
    {
        match self {
            Status::NotFound => "404 Not Found".to_owned(),
        }
    }
}

/// Rendering a status is deterministic: two renderings of the same status
/// are the same text.
pub proof fn lemma_status_text_deterministic(s: Status, r1: Seq<char>, r2: Seq<char>)
    requires
        r1 == s.spec_text(),
        r2 == s.spec_text(),
    ensures
        r1 == r2,
{
}

/// A response: status, headers, and an in-memory body.
#[derive(Debug, Clone)]
pub struct Response {
    pub status: Status,
    pub headers: Headers,
    pub body: Vec<u8>,
}

/// One header entry rendered as a `name: value` line.
pub open spec fn spec_render_header(kv: (Seq<char>, Seq<char>)) -> Seq<char> {
    kv.0 + ": "@ + kv.1
}

/// The header entries from position `i` on, each preceded by a line
/// separator.
pub open spec fn spec_join_rest(hs: HeaderSeq, i: int) -> Seq<char>
    decreases hs.len() - i,
{
    if i >= hs.len() {
        Seq::empty()
    } else {
        "\r\n"@ + spec_render_header(hs[i]) + spec_join_rest(hs, i + 1)
    }
}

/// All header entries rendered as `name: value`, joined by line
/// separators, in the map's insertion order.
pub open spec fn spec_join_headers(hs: HeaderSeq) -> Seq<char> {
    if hs.len() == 0 {
        Seq::empty()
    } else {
        spec_render_header(hs[0]) + spec_join_rest(hs, 1)
    }
}

/// The response head: status line, header lines, and the blank line that
/// closes the header block.
pub open spec fn spec_status_and_headers(status: Status, hs: HeaderSeq) -> Seq<char> {
    "HTTP/1.1 "@ + status.spec_text() + "\r\n"@ + spec_join_headers(hs) + "\r\n\r\n"@
}

/// The full wire output of a response: the head's bytes followed by the
/// body bytes.
pub open spec fn spec_wire_bytes(r: Response) -> Seq<u8> {
    encode_utf8(spec_status_and_headers(r.status, r.headers@)) + r.body@
}

/// The headers of a response built from an HTML payload of `n` bytes.
pub open spec fn spec_html_headers(n: nat) -> HeaderSeq {
    seq![("Content-Type"@, "text/html"@), ("Content-Length"@, dec_of(n))]
}

impl Response {
    /// Renders the status line and the header block, terminated by a
    /// blank line.
    #[verifier::loop_isolation(false)]
    pub fn status_and_headers(&self) -> (r: String)
        ensures
            r@ == spec_status_and_headers(self.status, self.headers@),
    {
        let ghost hs = self.headers@;
        let mut out = "HTTP/1.1 ".to_owned();
        let st = self.status.text();
        out.append(st.as_str());
        out.append("\r\n");
        let n = self.headers.len();
        if n > 0 {
            let kv = self.headers.entry_at(0);
            out.append(kv.0.as_str());
            out.append(": ");
            out.append(kv.1.as_str());
        }
        proof {
            assert(out@ + spec_join_rest(hs, if n == 0 { 0int } else { 1int }) + "\r\n\r\n"@
                =~= spec_status_and_headers(self.status, hs));
        }
        let mut i: usize = 1;
        while i < n
            invariant
                1 <= i,
                i <= n || n == 0,
                out@ + spec_join_rest(hs, i as int) + "\r\n\r\n"@
                    == spec_status_and_headers(self.status, hs),
            decreases n - i,
        {
            let ghost prev = out@;
            let kv = self.headers.entry_at(i);
            out.append("\r\n");
            out.append(kv.0.as_str());
            out.append(": ");
            out.append(kv.1.as_str());
            proof {
                assert(out@ + spec_join_rest(hs, i + 1) =~= prev + spec_join_rest(hs, i as int));
                assert(out@ + spec_join_rest(hs, i + 1) + "\r\n\r\n"@
                    =~= prev + spec_join_rest(hs, i as int) + "\r\n\r\n"@);
            }
            i = i + 1;
        }
        out.append("\r\n\r\n");
        proof {
            assert(out@ =~= spec_status_and_headers(self.status, hs));
        }
        out
    }

    /// Serializes the whole response onto a byte sink: the head first,
    /// then the body, byte for byte.
    pub fn write(self, stream: &mut Vec<u8>)
        ensures
            final(stream)@ == old(stream)@ + spec_wire_bytes(self),
    {
        let head = self.status_and_headers();
        let mut head_bytes = head.as_str().as_bytes_vec();
        stream.append(&mut head_bytes);
        let mut body = self.body;
        stream.append(&mut body);
        proof {
            assert(stream@ =~= old(stream)@ + spec_wire_bytes(self));
        }
    }

    /// Builds an in-memory HTML response: the payload's bytes become the
    /// body, and the headers declare `text/html` and the payload's exact
    /// byte length.
    pub fn from_html(status: Status, body: &str) -> (r: Response)
        ensures
            r.status == status,
            r.body@ == encode_utf8(body@),
            r.headers@ == spec_html_headers(encode_utf8(body@).len() as nat),
            r.headers.wf(),
    {
        let bytes = body.as_bytes_vec();
        let len_str = dec_string(bytes.len());
        let mut headers = Headers::new();
        headers.insert("Content-Type".to_owned(), "text/html".to_owned());
        headers.insert("Content-Length".to_owned(), len_str);
        proof {
            reveal_strlit("Content-Type");
            reveal_strlit("Content-Length");
            assert("Content-Type"@.len() == 12);
            assert("Content-Length"@.len() == 14);
            let e = Seq::<(Seq<char>, Seq<char>)>::empty();
            crate::headers::lemma_insert_new(e, "Content-Type"@, "text/html"@);
            crate::headers::lemma_insert_new(
                e.push(("Content-Type"@, "text/html"@)),
                "Content-Length"@,
                len_str@,
            );
            assert(headers@ =~~= spec_html_headers(encode_utf8(body@).len() as nat));
        }
        Response { status, headers, body: bytes }
    }
}

/// Round trip: a response built from an HTML payload declares a
/// `Content-Length` equal to the payload's exact byte length, and its
/// wire output ends with the payload's bytes verbatim, right after the
/// head.
pub proof fn lemma_from_html_round_trip(r: Response, text: Seq<char>)
    requires
        r.body@ == encode_utf8(text),
        r.headers@ == spec_html_headers(encode_utf8(text).len() as nat),
    ensures
        spec_find(r.headers@, "Content-Length"@) == Some(dec_of(encode_utf8(text).len() as nat)),
        spec_wire_bytes(r) == encode_utf8(spec_status_and_headers(r.status, r.headers@))
            + encode_utf8(text),
        spec_wire_bytes(r).skip(
            encode_utf8(spec_status_and_headers(r.status, r.headers@)).len() as int,
        ) =~= encode_utf8(text),
{
    reveal_strlit("Content-Type");
    reveal_strlit("Content-Length");
    let hs = r.headers@;
    assert("Content-Type"@.len() == 12);
    assert("Content-Length"@.len() == 14);
    assert(hs[0].0 != hs[1].0);
    crate::headers::lemma_find_at(hs, 1);
    let head = encode_utf8(spec_status_and_headers(r.status, r.headers@));
    assert((head + r.body@).skip(head.len() as int) =~= r.body@);
}

} // verus!
