//! The request-line parser. The first line of a connection is split into
//! whitespace-separated tokens: method, path, protocol. A missing or
//! unrecognized token never fails the parse; the documented default is
//! substituted instead, so every byte sequence parses to a request.

use vstd::prelude::*;

use crate::http::HttpMethod;
use crate::http::Request;
use crate::http::RequestModel;
use crate::http::http11_bytes;
use crate::http::slash_bytes;

verus! {

/// The bytes the tokenizer treats as whitespace: space, tab, CR, LF.
pub open spec fn is_ws(b: u8) -> bool {
    b == 32 || b == 9 || b == 13 || b == 10
}

/// Whether the byte is tokenizer whitespace.
pub fn is_ws_byte(b: u8) -> (r: bool)
    ensures
        r == is_ws(b),
{
    b == 32 || b == 9 || b == 13 || b == 10
}

/// The first index at or after `i` holding a non-whitespace byte, or the
/// end of the sequence.
pub open spec fn skip_ws(s: Seq<u8>, i: int) -> int
    decreases s.len() - i,
{
    if i < s.len() && is_ws(s[i]) {
        skip_ws(s, i + 1)
    } else {
        i
    }
}

/// The first index at or after `i` holding a whitespace byte, or the end
/// of the sequence.
pub open spec fn token_end(s: Seq<u8>, i: int) -> int
    decreases s.len() - i,
{
    if i < s.len() && !is_ws(s[i]) {
        token_end(s, i + 1)
    } else {
        i
    }
}

/// The token starting at or after `i`: empty exactly when only whitespace
/// is left.
pub open spec fn token_at(s: Seq<u8>, i: int) -> Seq<u8>
    recommends
        0 <= i <= s.len(),
{
    s.subrange(skip_ws(s, i), token_end(s, skip_ws(s, i)))
}

/// Where scanning resumes after the token starting at or after `i`.
pub open spec fn next_pos(s: Seq<u8>, i: int) -> int
    recommends
        0 <= i <= s.len(),
{
    token_end(s, skip_ws(s, i))
}

/// `skip_ws` lands in bounds, skips only whitespace, and stops on the
/// first non-whitespace byte.
pub proof fn lemma_skip_ws(s: Seq<u8>, i: int)
    requires
        0 <= i <= s.len(),
    ensures
        i <= skip_ws(s, i) <= s.len(),
        forall|j: int| i <= j < skip_ws(s, i) ==> is_ws(s[j]),
        skip_ws(s, i) < s.len() ==> !is_ws(s[skip_ws(s, i)]),
    decreases s.len() - i,
{
    if i < s.len() && is_ws(s[i]) {
        lemma_skip_ws(s, i + 1);
    }
}

/// `skip_ws(s, i)` is the one index bounding a whitespace run from `i`.
pub proof fn lemma_skip_ws_unique(s: Seq<u8>, i: int, j: int)
    requires
        0 <= i <= j <= s.len(),
        forall|k: int| i <= k < j ==> is_ws(s[k]),
        j == s.len() || !is_ws(s[j]),
    ensures
        skip_ws(s, i) == j,
    decreases j - i,
{
    if i < j {
        assert(is_ws(s[i]));
        lemma_skip_ws_unique(s, i + 1, j);
    }
}

/// `token_end` lands in bounds, passes only non-whitespace, and stops on
/// the first whitespace byte.
pub proof fn lemma_token_end(s: Seq<u8>, i: int)
    requires
        0 <= i <= s.len(),
    ensures
        i <= token_end(s, i) <= s.len(),
        forall|j: int| i <= j < token_end(s, i) ==> !is_ws(s[j]),
        token_end(s, i) < s.len() ==> is_ws(s[token_end(s, i)]),
    decreases s.len() - i,
{
    if i < s.len() && !is_ws(s[i]) {
        lemma_token_end(s, i + 1);
    }
}

/// `token_end(s, i)` is the one index bounding a non-whitespace run from
/// `i`.
pub proof fn lemma_token_end_unique(s: Seq<u8>, i: int, j: int)
    requires
        0 <= i <= j <= s.len(),
        forall|k: int| i <= k < j ==> !is_ws(s[k]),
        j == s.len() || is_ws(s[j]),
    ensures
        token_end(s, i) == j,
    decreases j - i,
{
    if i < j {
        assert(!is_ws(s[i]));
        lemma_token_end_unique(s, i + 1, j);
    }
}

/// If bytes `j..k` form a token preceded from `i` by whitespace and
/// followed by whitespace or the end, that token is the one read at `i`.
pub proof fn lemma_token_run(s: Seq<u8>, i: int, j: int, k: int)
    requires
        0 <= i <= j < k <= s.len(),
        forall|m: int| i <= m < j ==> is_ws(s[m]),
        forall|m: int| j <= m < k ==> !is_ws(s[m]),
        k == s.len() || is_ws(s[k]),
    ensures
        token_at(s, i) == s.subrange(j, k),
        next_pos(s, i) == k,
{
    lemma_skip_ws_unique(s, i, j);
    lemma_token_end_unique(s, j, k);
}

/// The index of the first non-whitespace byte at or after `start`, or the
/// length of the line.
pub fn skip_ws_index(line: &Vec<u8>, start: usize) -> (i: usize)
    requires
        start <= line@.len(),
    ensures
        i as int == skip_ws(line@, start as int),
        start <= i <= line@.len(),
{
    let mut i: usize = start;
    while i < line.len() && is_ws_byte(line[i])
        invariant
            start <= i <= line@.len(),
            skip_ws(line@, start as int) == skip_ws(line@, i as int),
        decreases line@.len() - i,
    {
        proof {
            assert(skip_ws(line@, i as int) == skip_ws(line@, i as int + 1));
        }
        i = i + 1;
    }
    proof {
        assert(skip_ws(line@, i as int) == i as int);
    }
    i
}

/// Reads the token at or after `start` and reports where scanning resumes.
pub fn read_token(line: &Vec<u8>, start: usize) -> (r: (Vec<u8>, usize))
    requires
        start <= line@.len(),
    ensures
        r.0@ == token_at(line@, start as int),
        r.1 as int == next_pos(line@, start as int),
        start <= r.1 <= line@.len(),
{
    let i = skip_ws_index(line, start);
    let mut j: usize = i;
    let mut tok: Vec<u8> = Vec::new();
    while j < line.len() && !is_ws_byte(line[j])
        invariant
            i <= j <= line@.len(),
            token_end(line@, i as int) == token_end(line@, j as int),
            tok@ =~= line@.subrange(i as int, j as int),
        decreases line@.len() - j,
    {
        proof {
            assert(token_end(line@, j as int) == token_end(line@, j as int + 1));
        }
        tok.push(line[j]);
        j = j + 1;
        proof {
            assert(tok@ =~= line@.subrange(i as int, j as int));
        }
    }
    proof {
        assert(token_end(line@, j as int) == j as int);
        assert(tok@ == token_at(line@, start as int));
    }
    (tok, j)
}

/// The method token `GET`.
pub open spec fn get_token() -> Seq<u8> {
    seq!['G' as u8, 'E' as u8, 'T' as u8]
}

/// The method token `POST`.
pub open spec fn post_token() -> Seq<u8> {
    seq!['P' as u8, 'O' as u8, 'S' as u8, 'T' as u8]
}

/// The method token `PUT`.
pub open spec fn put_token() -> Seq<u8> {
    seq!['P' as u8, 'U' as u8, 'T' as u8]
}

/// The method token `DELETE`.
pub open spec fn delete_token() -> Seq<u8> {
    seq!['D' as u8, 'E' as u8, 'L' as u8, 'E' as u8, 'T' as u8, 'E' as u8]
}

/// The method a token names; anything unrecognized (the empty token
/// included) degrades to `Get`.
pub open spec fn method_of_token(tok: Seq<u8>) -> HttpMethod {
    if tok == get_token() {
        HttpMethod::Get
    } else if tok == post_token() {
        HttpMethod::Post
    } else if tok == put_token() {
        HttpMethod::Put
    } else if tok == delete_token() {
        HttpMethod::Delete
    } else {
        HttpMethod::Get
    }
}

/// Whether two byte vectors hold the same bytes.
pub fn bytes_eq(a: &Vec<u8>, b: &Vec<u8>) -> (r: bool)
    ensures
        r == (a@ == b@),
{
    if a.len() != b.len() {
        proof {
            assert(a@ != b@);
        }
        return false;
    }
    let mut i: usize = 0;
    while i < a.len()
        invariant
            i <= a@.len(),
            a@.len() == b@.len(),
            forall|j: int| 0 <= j < i ==> a@[j] == b@[j],
        decreases a@.len() - i,
    {
        if a[i] != b[i] {
            proof {
                assert(a@ != b@);
            }
            return false;
        }
        i = i + 1;
    }
    proof {
        assert(a@ =~= b@);
    }
    true
}

/// The method named by a token, defaults included.
pub fn parse_method(tok: &Vec<u8>) -> (m: HttpMethod)
    ensures
        m == method_of_token(tok@),
{
    let get_bytes: Vec<u8> = vec!['G' as u8, 'E' as u8, 'T' as u8];
    let post_bytes: Vec<u8> = vec!['P' as u8, 'O' as u8, 'S' as u8, 'T' as u8];
    let put_bytes: Vec<u8> = vec!['P' as u8, 'U' as u8, 'T' as u8];
    let delete_bytes: Vec<u8> = vec![
        'D' as u8, 'E' as u8, 'L' as u8, 'E' as u8, 'T' as u8, 'E' as u8,
    ];
    proof {
        assert(get_bytes@ =~= get_token());
        assert(post_bytes@ =~= post_token());
        assert(put_bytes@ =~= put_token());
        assert(delete_bytes@ =~= delete_token());
    }
    if bytes_eq(tok, &get_bytes) {
        HttpMethod::Get
    } else if bytes_eq(tok, &post_bytes) {
        HttpMethod::Post
    } else if bytes_eq(tok, &put_bytes) {
        HttpMethod::Put
    } else if bytes_eq(tok, &delete_bytes) {
        HttpMethod::Delete
    } else {
        HttpMethod::Get
    }
}

/// The request a line of bytes parses to: three tokens, with the
/// documented default substituted for each missing one, and an empty body.
pub open spec fn parse_request_spec(line: Seq<u8>) -> RequestModel {
    let t1 = token_at(line, 0);
    let p1 = next_pos(line, 0);
    let t2 = token_at(line, p1);
    let p2 = next_pos(line, p1);
    let t3 = token_at(line, p2);
    RequestModel {
        method: method_of_token(t1),
        path: if t2.len() == 0 {
            slash_bytes()
        } else {
            t2
        },
        protocol: if t3.len() == 0 {
            http11_bytes()
        } else {
            t3
        },
        body: Seq::empty(),
    }
}

/// Parses a request line. Total: every byte sequence, the empty line
/// included, yields a request, with defaults in place of missing tokens.
pub fn parse_request(line: &Vec<u8>) -> (req: Request)
    ensures
        req@ == parse_request_spec(line@),
{
    let (t1, p1) = read_token(line, 0);
    let (t2, p2) = read_token(line, p1);
    let (t3, _p3) = read_token(line, p2);
    let method = parse_method(&t1);
    let path: Vec<u8> = if t2.len() == 0 {
        vec!['/' as u8]
    } else {
        t2
    };
    let protocol: Vec<u8> = if t3.len() == 0 {
        vec![
            'H' as u8, 'T' as u8, 'T' as u8, 'P' as u8, '/' as u8, '1' as u8, '.' as u8,
            '1' as u8,
        ]
    } else {
        t3
    };
    let req = Request { method, path, protocol, body: Vec::new() };
    proof {
        assert(req.path@ =~= parse_request_spec(line@).path);
        assert(req.protocol@ =~= parse_request_spec(line@).protocol);
        assert(req@ =~= parse_request_spec(line@));
    }
    req
}

/// A request line of nothing but whitespace — the empty line included —
/// parses to the documented defaults: method `GET`, path `/`, protocol
/// `HTTP/1.1`.
pub proof fn lemma_blank_line_defaults(line: Seq<u8>)
    requires
        forall|i: int| 0 <= i < line.len() ==> is_ws(line[i]),
    ensures
        parse_request_spec(line).method == HttpMethod::Get,
        parse_request_spec(line).path == slash_bytes(),
        parse_request_spec(line).protocol == http11_bytes(),
{
    lemma_skip_ws_unique(line, 0, line.len() as int);
    assert(token_end(line, line.len() as int) == line.len() as int);
    assert(token_at(line, 0) =~= Seq::<u8>::empty());
    assert(token_at(line, 0).len() == 0);
    assert(get_token().len() == 3);
    assert(post_token().len() == 4);
    assert(put_token().len() == 3);
    assert(delete_token().len() == 6);
}

/// The request line `GET {path} HTTP/1.1`, space-separated.
pub open spec fn get_request_line(path: Seq<u8>) -> Seq<u8> {
    (((get_token() + seq![32u8]) + path) + seq![32u8]) + http11_bytes()
}

/// A well-formed `GET {path} HTTP/1.1` line parses to exactly that
/// method, path and protocol, provided the path is a nonempty token.
pub proof fn lemma_parse_get_request_line(path: Seq<u8>)
    requires
        path.len() > 0,
        forall|i: int| 0 <= i < path.len() ==> !is_ws(#[trigger] path[i]),
    ensures
        parse_request_spec(get_request_line(path)) == (RequestModel {
            method: HttpMethod::Get,
            path: path,
            protocol: http11_bytes(),
            body: Seq::empty(),
        }),
{
    let line = get_request_line(path);
    let plen = path.len() as int;
    assert(line.len() == plen + 13);
    assert(!is_ws(get_token()[0]));
    assert(!is_ws(get_token()[1]));
    assert(!is_ws(get_token()[2]));
    assert(!is_ws(http11_bytes()[0]));
    assert(!is_ws(http11_bytes()[1]));
    assert(!is_ws(http11_bytes()[2]));
    assert(!is_ws(http11_bytes()[3]));
    assert(!is_ws(http11_bytes()[4]));
    assert(!is_ws(http11_bytes()[5]));
    assert(!is_ws(http11_bytes()[6]));
    assert(!is_ws(http11_bytes()[7]));
    assert forall|m: int| 0 <= m < 3 implies !is_ws(#[trigger] line[m]) by {
        assert(line[m] == get_token()[m]);
    }
    assert(line[3] == 32u8);
    assert forall|m: int| 4 <= m < 4 + plen implies !is_ws(#[trigger] line[m]) by {
        assert(line[m] == path[m - 4]);
    }
    assert(line[4 + plen] == 32u8);
    assert forall|m: int| 5 + plen <= m < 13 + plen implies !is_ws(#[trigger] line[m]) by {
        assert(line[m] == http11_bytes()[m - 5 - plen]);
    }
    lemma_token_run(line, 0, 0, 3);
    assert(token_at(line, 0) =~= get_token());
    lemma_token_run(line, 3, 4, 4 + plen);
    assert(token_at(line, 3) =~= path);
    lemma_token_run(line, 4 + plen, 5 + plen, 13 + plen);
    assert(token_at(line, 4 + plen) =~= http11_bytes());
    assert(parse_request_spec(line) =~= (RequestModel {
        method: HttpMethod::Get,
        path: path,
        protocol: http11_bytes(),
        body: Seq::empty(),
    }));
}

/// Parsing never yields an empty path or protocol: a malformed line
/// degrades to defaults instead of failing.
pub proof fn lemma_parse_never_empty(line: Seq<u8>)
    ensures
        parse_request_spec(line).path.len() > 0,
        parse_request_spec(line).protocol.len() > 0,
{
    lemma_skip_ws(line, 0);
    lemma_token_end(line, skip_ws(line, 0));
    lemma_skip_ws(line, next_pos(line, 0));
    lemma_token_end(line, skip_ws(line, next_pos(line, 0)));
}

} // verus!
