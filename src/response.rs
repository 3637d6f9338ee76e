//! Assembly of HTTP/1.1 response bytes.

use vstd::prelude::*;
use crate::bytes::{append_bytes, opt_view};
use vstd::string::StringSliceAdditionalSpecFns;

verus! {

/// The ASCII decimal digits of `n`, most significant first, without leading zeros.
pub open spec fn decimal(n: nat) -> Seq<u8>
    decreases n,
{
    if n < 10 {
        seq![(48 + n) as u8]
    } else {
        decimal(n / 10).push((48 + n % 10) as u8)
    }
}

/// One header line: `name` and `value` joined by a colon and a space, then CRLF.
pub open spec fn header_line(name: Seq<u8>, value: Seq<u8>) -> Seq<u8> {
    name + ": ".spec_bytes() + value + "\r\n".spec_bytes()
}

/// The header line for `value` under `name`, or nothing when the header is absent.
pub open spec fn optional_header(name: Seq<u8>, value: Option<Seq<u8>>) -> Seq<u8> {
    match value {
        Some(v) => header_line(name, v),
        None => Seq::empty(),
    }
}

/// The bytes of a response: the status line, the present headers in the fixed
/// order Content-Encoding, Content-Type, Content-Length, a blank line, the body.
pub open spec fn response_bytes(
    status: Seq<u8>,
    encoding: Option<Seq<u8>>,
    content_type: Option<Seq<u8>>,
    content_length: Option<nat>,
    body: Seq<u8>,
) -> Seq<u8> {
    "HTTP/1.1 ".spec_bytes() + status + "\r\n".spec_bytes()
        + optional_header("Content-Encoding".spec_bytes(), encoding)
        + optional_header("Content-Type".spec_bytes(), content_type)
        + optional_header(
            "Content-Length".spec_bytes(),
            match content_length {
                Some(n) => Some(decimal(n)),
                None => None,
            },
        )
        + "\r\n".spec_bytes() + body
}

/// Appends the decimal digits of `n` to `out`.
pub fn append_decimal(out: &mut Vec<u8>, n: usize)
    ensures
        final(out)@ == old(out)@ + decimal(n as nat),
    decreases n,
{
    if n >= 10 {
        append_decimal(out, n / 10);
    }
    out.push((48 + n % 10) as u8);
    assert(final(out)@ =~= old(out)@ + decimal(n as nat));
}

/// Appends `name: value\r\n` to `out`.
fn append_header(out: &mut Vec<u8>, name: &str, value: &[u8])
    ensures
        final(out)@ == old(out)@ + header_line(name.spec_bytes(), value@),
{
    append_bytes(out, name.as_bytes());
    append_bytes(out, ": ".as_bytes());
    append_bytes(out, value);
    append_bytes(out, "\r\n".as_bytes());
    assert(final(out)@ =~= old(out)@ + header_line(name.spec_bytes(), value@));
}

/// The parts of a response, gathered before its bytes are written out.
/// Every field holds what it shows; an absent header is `None`.
pub struct HTTPRequestBuilder {
    /// Status code and reason phrase, such as `200 OK`.
    pub status: Vec<u8>,
    pub content_encoding: Option<Vec<u8>>,
    pub content_type: Option<Vec<u8>>,
    pub content_length: Option<usize>,
    pub content: Vec<u8>,
}

impl HTTPRequestBuilder {
    /// The response bytes that this builder describes.
    pub open spec fn spec_bytes(&self) -> Seq<u8> {
        response_bytes(
            self.status@,
            opt_view(self.content_encoding),
            opt_view(self.content_type),
            match self.content_length {
                Some(n) => Some(n as nat),
                None => None,
            },
            self.content@,
        )
    }

    /// A `200 OK` response with no headers and an empty body.
    pub fn default() -> (r: Self)
        ensures
            r.status@ == "200 OK".spec_bytes(),
            r.content_encoding is None,
            r.content_type is None,
            r.content_length is None,
            r.content@.len() == 0,
    {
        let mut status: Vec<u8> = Vec::new();
        append_bytes(&mut status, "200 OK".as_bytes());
        HTTPRequestBuilder {
            status,
            content_encoding: None,
            content_type: None,
            content_length: None,
            content: Vec::new(),
        }
    }

    /// Sets `Content-Encoding`.
    pub fn add_encoding(self, encoding: &[u8]) -> (r: Self)
        ensures
            opt_view(r.content_encoding) == Some(encoding@),
            r.status == self.status,
            r.content_type == self.content_type,
            r.content_length == self.content_length,
            r.content == self.content,
    {
        let mut e: Vec<u8> = Vec::new();
        append_bytes(&mut e, encoding);
        HTTPRequestBuilder { content_encoding: Some(e), ..self }
    }

    /// Sets `Content-Type`.
    pub fn add_content_type(self, content_type: &[u8]) -> (r: Self)
        ensures
            opt_view(r.content_type) == Some(content_type@),
            r.status == self.status,
            r.content_encoding == self.content_encoding,
            r.content_length == self.content_length,
            r.content == self.content,
    {
        let mut t: Vec<u8> = Vec::new();
        append_bytes(&mut t, content_type);
        HTTPRequestBuilder { content_type: Some(t), ..self }
    }

    /// Sets `Content-Length`.
    pub fn add_content_length(self, content_length: usize) -> (r: Self)
        ensures
            r.content_length == Some(content_length),
            r.status == self.status,
            r.content_encoding == self.content_encoding,
            r.content_type == self.content_type,
            r.content == self.content,
    {
        HTTPRequestBuilder { content_length: Some(content_length), ..self }
    }

    /// Sets the body, written out unmodified.
    pub fn add_content(self, content: &[u8]) -> (r: Self)
        ensures
            r.content@ == content@,
            r.status == self.status,
            r.content_encoding == self.content_encoding,
            r.content_type == self.content_type,
            r.content_length == self.content_length,
    {
        let mut c: Vec<u8> = Vec::new();
        append_bytes(&mut c, content);
        HTTPRequestBuilder { content: c, ..self }
    }

    /// Replaces the status code and reason phrase.
    pub fn add_status(self, status: &[u8]) -> (r: Self)
        ensures
            r.status@ == status@,
            r.content_encoding == self.content_encoding,
            r.content_type == self.content_type,
            r.content_length == self.content_length,
            r.content == self.content,
    {
        let mut s: Vec<u8> = Vec::new();
        append_bytes(&mut s, status);
        HTTPRequestBuilder { status: s, ..self }
    }

    /// The response bytes.
    pub fn build(&self) -> (r: Vec<u8>)
        ensures
            r@ == self.spec_bytes(),
    {
        let mut out: Vec<u8> = Vec::new();
        append_bytes(&mut out, "HTTP/1.1 ".as_bytes());
        append_bytes(&mut out, self.status.as_slice());
        append_bytes(&mut out, "\r\n".as_bytes());
        let ghost head = out@;
        match &self.content_encoding {
            Some(e) => append_header(&mut out, "Content-Encoding", e.as_slice()),
            None => {},
        }
        let ghost with_encoding = out@;
        match &self.content_type {
            Some(t) => append_header(&mut out, "Content-Type", t.as_slice()),
            None => {},
        }
        let ghost with_type = out@;
        match self.content_length {
            Some(n) => {
                append_bytes(&mut out, "Content-Length".as_bytes());
                append_bytes(&mut out, ": ".as_bytes());
                append_decimal(&mut out, n);
                append_bytes(&mut out, "\r\n".as_bytes());
            },
            None => {},
        }
        let ghost with_length = out@;
        append_bytes(&mut out, "\r\n".as_bytes());
        append_bytes(&mut out, self.content.as_slice());
        assert(with_encoding =~= head + optional_header(
            "Content-Encoding".spec_bytes(), opt_view(self.content_encoding)));
        assert(with_type =~= with_encoding + optional_header(
            "Content-Type".spec_bytes(), opt_view(self.content_type)));
        assert(out@ =~= self.spec_bytes());
        out
    }
}

} // verus!
