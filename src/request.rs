//! Parsing of the bytes received on a connection into a request.
//!
//! The received bytes are split on CRLF into lines. Line 0 is the request
//! line, whose whitespace-separated tokens give the method, the path and the
//! version. Headers are found by a case-sensitive prefix scan over the lines,
//! and the body is the last line.

use vstd::prelude::*;
use crate::bytes::{copy_range, is_prefix, opt_view, starts_with};

verus! {

/// The views of a sequence of byte vectors.
pub open spec fn views(v: Seq<Vec<u8>>) -> Seq<Seq<u8>> {
    v.map_values(|x: Vec<u8>| x@)
}

/// The lines of `s[start..]`, where the current line began at `start` and the
/// scan for the next CRLF has reached `i`.
pub open spec fn lines_from(s: Seq<u8>, start: int, i: int) -> Seq<Seq<u8>>
    decreases s.len() - i,
{
    if i + 1 >= s.len() {
        seq![s.subrange(start, s.len() as int)]
    } else if s[i] == 13 && s[i + 1] == 10 {
        seq![s.subrange(start, i)] + lines_from(s, i + 2, i + 2)
    } else {
        lines_from(s, start, i + 1)
    }
}

/// `s` split on CRLF: there is always at least one line, possibly empty.
pub open spec fn lines(s: Seq<u8>) -> Seq<Seq<u8>> {
    lines_from(s, 0, 0)
}

/// Splits `s` on CRLF.
pub fn split_lines(s: &[u8]) -> (r: Vec<Vec<u8>>)
    ensures
        views(r@) == lines(s@),
        r@.len() >= 1,
{
    let mut out: Vec<Vec<u8>> = Vec::new();
    let ghost mut done: Seq<Seq<u8>> = Seq::empty();
    let mut start: usize = 0;
    let mut i: usize = 0;
    while s.len() - i > 1
        invariant
            start <= i <= s@.len(),
            lines(s@) == done + lines_from(s@, start as int, i as int),
            views(out@) == done,
        decreases s@.len() - i,
    {
        if s[i] == 13 && s[i + 1] == 10 {
            let line = copy_range(s, start, i);
            proof {
                let rest = lines_from(s@, (i + 2) as int, (i + 2) as int);
                assert(done + (seq![line@] + rest) =~= done.push(line@) + rest);
                done = done.push(line@);
            }
            out.push(line);
            assert(views(out@) =~= done);
            i = i + 2;
            start = i;
        } else {
            i = i + 1;
        }
    }
    let last = copy_range(s, start, s.len());
    proof {
        assert(done + seq![last@] =~= done.push(last@));
        done = done.push(last@);
    }
    out.push(last);
    assert(views(out@) =~= done);
    out
}

proof fn lemma_first_line_from(s: Seq<u8>, n: int, i: int)
    requires
        0 <= i <= n,
        n + 1 < s.len(),
        s[n] == 13,
        s[n + 1] == 10,
        forall|k: int| 0 <= k < n ==> s[k] != 13,
    ensures
        lines_from(s, 0, i)[0] == s.subrange(0, n),
    decreases n - i,
{
    if i < n {
        lemma_first_line_from(s, n, i + 1);
    }
}

/// The first line of `line`, CRLF, `rest` is `line` itself, where `line`
/// holds no carriage return.
pub proof fn lemma_first_line(line: Seq<u8>, rest: Seq<u8>)
    requires
        forall|k: int| 0 <= k < line.len() ==> line[k] != 13,
    ensures
        lines(line + seq![13u8, 10u8] + rest)[0] == line,
{
    let s = line + seq![13u8, 10u8] + rest;
    lemma_first_line_from(s, line.len() as int, 0);
    assert(s.subrange(0, line.len() as int) =~= line);
}

/// ASCII whitespace: space, tab, line feed, vertical tab, form feed, carriage return.
pub open spec fn is_space(b: u8) -> bool {
    b == 32 || (9 <= b && b <= 13)
}

/// The whitespace-separated tokens of `s[start..]`, where the current token
/// began at `start` and the scan has reached `i`.
pub open spec fn tokens_from(s: Seq<u8>, start: int, i: int) -> Seq<Seq<u8>>
    decreases s.len() - i,
{
    if i >= s.len() {
        if start < i {
            seq![s.subrange(start, i)]
        } else {
            Seq::empty()
        }
    } else if is_space(s[i]) {
        (if start < i {
            seq![s.subrange(start, i)]
        } else {
            Seq::empty()
        }) + tokens_from(s, i + 1, i + 1)
    } else {
        tokens_from(s, start, i + 1)
    }
}

/// The non-empty whitespace-separated tokens of `s`, in order.
pub open spec fn tokens(s: Seq<u8>) -> Seq<Seq<u8>> {
    tokens_from(s, 0, 0)
}

/// Splits `s` into its non-empty whitespace-separated tokens.
pub fn split_whitespace(s: &[u8]) -> (r: Vec<Vec<u8>>)
    ensures
        views(r@) == tokens(s@),
{
    let mut out: Vec<Vec<u8>> = Vec::new();
    let ghost mut done: Seq<Seq<u8>> = Seq::empty();
    let mut start: usize = 0;
    let mut i: usize = 0;
    while i < s.len()
        invariant
            start <= i <= s@.len(),
            tokens(s@) == done + tokens_from(s@, start as int, i as int),
            views(out@) == done,
        decreases s@.len() - i,
    {
        let b = s[i];
        if b == 32 || (9 <= b && b <= 13) {
            if start < i {
                let token = copy_range(s, start, i);
                proof {
                    let rest = tokens_from(s@, (i + 1) as int, (i + 1) as int);
                    assert(done + (seq![token@] + rest) =~= done.push(token@) + rest);
                    done = done.push(token@);
                }
                out.push(token);
                assert(views(out@) =~= done);
            } else {
                assert(Seq::<Seq<u8>>::empty() + tokens_from(s@, (i + 1) as int, (i + 1) as int)
                    =~= tokens_from(s@, (i + 1) as int, (i + 1) as int));
            }
            i = i + 1;
            start = i;
        } else {
            i = i + 1;
        }
    }
    if start < i {
        let token = copy_range(s, start, i);
        proof {
            assert(done + seq![token@] =~= done.push(token@));
            done = done.push(token@);
        }
        out.push(token);
        assert(views(out@) =~= done);
    } else {
        assert(done + Seq::<Seq<u8>>::empty() =~= done);
    }
    out
}

/// The index of the first of `ls[k..]` that starts with `p`.
pub open spec fn first_prefixed_from(ls: Seq<Seq<u8>>, p: Seq<u8>, k: int) -> Option<int>
    decreases ls.len() - k,
{
    if k < 0 || k >= ls.len() {
        None
    } else if is_prefix(p, ls[k]) {
        Some(k)
    } else {
        first_prefixed_from(ls, p, k + 1)
    }
}

/// The index of the first line of `ls` that starts with `p`.
pub open spec fn first_prefixed(ls: Seq<Seq<u8>>, p: Seq<u8>) -> Option<int> {
    first_prefixed_from(ls, p, 0)
}

/// Finds the first line of `ls` that starts with `p`.
pub fn find_prefixed(ls: &Vec<Vec<u8>>, p: &[u8]) -> (r: Option<usize>)
    ensures
        r matches Some(k) ==> first_prefixed(views(ls@), p@) == Some(k as int),
        r is None ==> first_prefixed(views(ls@), p@) is None,
{
    let ghost v = views(ls@);
    let mut k: usize = 0;
    while k < ls.len()
        invariant
            k <= ls@.len(),
            v == views(ls@),
            first_prefixed(v, p@) == first_prefixed_from(v, p@, k as int),
        decreases ls@.len() - k,
    {
        if starts_with(ls[k].as_slice(), p) {
            return Some(k);
        }
        k = k + 1;
    }
    None
}

/// The first position at or after `i` that holds no space or tab.
pub open spec fn skip_blanks(s: Seq<u8>, i: int) -> int
    decreases s.len() - i,
{
    if 0 <= i < s.len() && (s[i] == 32 || s[i] == 9) {
        skip_blanks(s, i + 1)
    } else {
        i
    }
}

/// The value of a header line whose name and colon are `p`: what follows
/// them, without its leading spaces and tabs.
pub open spec fn header_value_of(line: Seq<u8>, p: Seq<u8>) -> Seq<u8> {
    line.subrange(skip_blanks(line, p.len() as int), line.len() as int)
}

/// The value of the first header of `ls` named by `p` (its name and colon).
pub open spec fn header_in(ls: Seq<Seq<u8>>, p: Seq<u8>) -> Option<Seq<u8>> {
    match first_prefixed(ls, p) {
        Some(k) => Some(header_value_of(ls[k], p)),
        None => None,
    }
}

proof fn lemma_first_prefixed_from(ls: Seq<Seq<u8>>, p: Seq<u8>, k: int)
    ensures
        first_prefixed_from(ls, p, k) matches Some(j) ==> k <= j < ls.len() && is_prefix(p, ls[j]),
    decreases ls.len() - k,
{
    if k < 0 || k >= ls.len() {
    } else if is_prefix(p, ls[k]) {
    } else {
        lemma_first_prefixed_from(ls, p, k + 1);
    }
}

/// Looks up the value of the first header of `ls` whose line starts with `p`.
pub fn header_value(ls: &Vec<Vec<u8>>, p: &[u8]) -> (r: Option<Vec<u8>>)
    ensures
        opt_view(r) == header_in(views(ls@), p@),
{
    match find_prefixed(ls, p) {
        Some(k) => {
            proof { lemma_first_prefixed_from(views(ls@), p@, 0); }
            let line = ls[k].as_slice();
            assert(line@ == views(ls@)[k as int]);
            let mut i: usize = p.len();
            while i < line.len() && (line[i] == 32 || line[i] == 9)
                invariant
                    p@.len() <= i <= line@.len(),
                    skip_blanks(line@, p@.len() as int) == skip_blanks(line@, i as int),
                decreases line@.len() - i,
            {
                i = i + 1;
            }
            Some(copy_range(line, i, line.len()))
        },
        None => None,
    }
}

/// A request as read from one connection.
pub struct ParsedRequest {
    pub method: Vec<u8>,
    /// The request target, not percent-decoded.
    pub path: Vec<u8>,
    /// The protocol version; empty where the request line has no third token.
    pub version: Vec<u8>,
    /// All lines of the received bytes, the request line first; headers are
    /// looked up among them.
    pub lines: Vec<Vec<u8>>,
    /// The last line of the received bytes.
    pub body: Vec<u8>,
}

impl ParsedRequest {
    /// This request is what `parse_request` makes of `s`.
    pub open spec fn parsed_from(&self, s: Seq<u8>) -> bool {
        let ls = lines(s);
        let ts = tokens(ls[0]);
        &&& views(self.lines@) == ls
        &&& self.method@ == ts[0]
        &&& self.path@ == ts[1]
        &&& self.version@ == (if ts.len() >= 3 { ts[2] } else { Seq::empty() })
        &&& self.body@ == ls.last()
    }
}

/// Whether the request line of `s` holds a method and a path.
pub open spec fn well_formed(s: Seq<u8>) -> bool {
    tokens(lines(s)[0]).len() >= 2
}

/// Parses the received bytes `s`; `None` where the request line lacks a
/// method or a path.
pub fn parse_request(s: &[u8]) -> (r: Option<ParsedRequest>)
    ensures
        r is Some <==> well_formed(s@),
        r matches Some(req) ==> req.parsed_from(s@),
{
    let ls = split_lines(s);
    let ts = split_whitespace(ls[0].as_slice());
    assert(views(ls@)[0] == ls@[0]@);
    if ts.len() < 2 {
        return None;
    }
    assert(views(ts@)[0] == ts@[0]@);
    let mut method: Vec<u8> = Vec::new();
    crate::bytes::append_bytes(&mut method, ts[0].as_slice());
    let mut path: Vec<u8> = Vec::new();
    crate::bytes::append_bytes(&mut path, ts[1].as_slice());
    let mut version: Vec<u8> = Vec::new();
    if ts.len() >= 3 {
        crate::bytes::append_bytes(&mut version, ts[2].as_slice());
    }
    let last = ls.len() - 1;
    let mut body: Vec<u8> = Vec::new();
    crate::bytes::append_bytes(&mut body, ls[last].as_slice());
    assert(views(ts@)[1] == ts@[1]@);
    assert(ts@.len() >= 3 ==> views(ts@)[2] == ts@[2]@);
    assert(views(ls@)[last as int] == ls@[last as int]@);
    assert(version@ =~= (if ts@.len() >= 3 { views(ts@)[2] } else { Seq::<u8>::empty() }));
    Some(ParsedRequest { method, path, version, lines: ls, body })
}

/// `s[start..j]` is a run of non-space bytes ended by a space or by the end:
/// it is the next token, and the scan goes on after it.
proof fn lemma_token_run(s: Seq<u8>, start: int, i: int, j: int)
    requires
        0 <= start < j <= s.len(),
        start <= i <= j,
        forall|k: int| start <= k < j ==> !is_space(#[trigger] s[k]),
        j == s.len() || is_space(s[j]),
    ensures
        tokens_from(s, start, i) == seq![s.subrange(start, j)] + (if j < s.len() {
            tokens_from(s, j + 1, j + 1)
        } else {
            Seq::empty()
        }),
    decreases j - i,
{
    if i < j {
        lemma_token_run(s, start, i + 1, j);
    } else if j == s.len() {
        assert(seq![s.subrange(start, j)] + Seq::<Seq<u8>>::empty() =~= seq![s.subrange(start, j)]);
    }
}

/// Three non-empty words with no whitespace, joined by single spaces, are
/// exactly three tokens.
pub proof fn lemma_three_tokens(a: Seq<u8>, b: Seq<u8>, c: Seq<u8>)
    requires
        a.len() > 0,
        b.len() > 0,
        c.len() > 0,
        forall|k: int| 0 <= k < a.len() ==> !is_space(#[trigger] a[k]),
        forall|k: int| 0 <= k < b.len() ==> !is_space(#[trigger] b[k]),
        forall|k: int| 0 <= k < c.len() ==> !is_space(#[trigger] c[k]),
    ensures
        tokens(a + seq![32u8] + b + seq![32u8] + c) == seq![a, b, c],
{
    let s = a + seq![32u8] + b + seq![32u8] + c;
    let n1 = a.len() as int;
    let n2 = n1 + 1 + b.len();
    assert forall|k: int| 0 <= k < n1 implies !is_space(#[trigger] s[k]) by {
        assert(s[k] == a[k]);
    }
    assert forall|k: int| n1 + 1 <= k < n2 implies !is_space(#[trigger] s[k]) by {
        assert(s[k] == b[k - n1 - 1]);
    }
    assert forall|k: int| n2 + 1 <= k < s.len() implies !is_space(#[trigger] s[k]) by {
        assert(s[k] == c[k - n2 - 1]);
    }
    lemma_token_run(s, 0, 0, n1);
    lemma_token_run(s, n1 + 1, n1 + 1, n2);
    lemma_token_run(s, n2 + 1, n2 + 1, s.len() as int);
    assert(s.subrange(0, n1) =~= a);
    assert(s.subrange(n1 + 1, n2) =~= b);
    assert(s.subrange(n2 + 1, s.len() as int) =~= c);
    assert(tokens(s) =~= seq![a, b, c]);
}

} // verus!
