//! Request and response data for the minimal HTTP/1.1 subset served here:
//! methods, status codes with their status lines, and the precomputed
//! responses that the route table freezes at registration time.

use vstd::prelude::*;

verus! {

/// The request methods the request line may carry. An unrecognized or
/// missing method token degrades to `Get` during parsing.
#[derive(Clone, Copy, PartialEq, Eq, Structural, Debug)]
pub enum HttpMethod {
    Get,
    Post,
    Put,
    Delete,
}

/// The status codes a response may carry.
#[derive(Clone, Copy, PartialEq, Eq, Structural, Debug)]
pub enum StatusCode {
    Okay,
    BadRequest,
    NotFound,
    InternalServerError,
}

impl StatusCode {
    /// The numeric code of this status.
    pub open spec fn code_spec(self) -> int {
        match self {
            StatusCode::Okay => 200,
            StatusCode::BadRequest => 400,
            StatusCode::NotFound => 404,
            StatusCode::InternalServerError => 500,
        }
    }

    /// The status line written after the protocol, as bytes.
    pub open spec fn status_line_spec(self) -> Seq<u8> {
        match self {
            StatusCode::Okay => seq!['2' as u8, '0' as u8, '0' as u8, ' ' as u8, 'O' as u8, 'K' as u8],
            StatusCode::BadRequest => seq![
                '4' as u8, '0' as u8, '0' as u8, ' ' as u8, 'B' as u8, 'a' as u8, 'd' as u8, ' ' as u8, 'R' as u8, 'e' as u8, 'q' as u8, 'u' as u8, 'e' as u8,
                's' as u8, 't' as u8,
            ],
            StatusCode::NotFound => seq![
                '4' as u8, '0' as u8, '4' as u8, ' ' as u8, 'N' as u8, 'o' as u8, 't' as u8, ' ' as u8, 'F' as u8, 'o' as u8, 'u' as u8, 'n' as u8, 'd' as u8,
            ],
            StatusCode::InternalServerError => seq![
                '5' as u8, '0' as u8, '0' as u8, ' ' as u8, 'I' as u8, 'n' as u8, 't' as u8, 'e' as u8, 'r' as u8, 'n' as u8, 'a' as u8, 'l' as u8, ' ' as u8,
                'S' as u8, 'e' as u8, 'r' as u8, 'v' as u8, 'e' as u8, 'r' as u8, ' ' as u8, 'E' as u8, 'r' as u8, 'r' as u8, 'o' as u8, 'r' as u8,
            ],
        }
    }

    /// The numeric code of this status.
    pub fn code(&self) -> (c: u16)
        ensures
            c as int == self.code_spec(),
    {
        match self {
            StatusCode::Okay => 200,
            StatusCode::BadRequest => 400,
            StatusCode::NotFound => 404,
            StatusCode::InternalServerError => 500,
        }
    }

    /// The status line written after the protocol, as bytes.
    pub fn status_line(&self) -> (r: Vec<u8>)
        ensures
            r@ == self.status_line_spec(),
    {
        let r: Vec<u8> = match self {
            StatusCode::Okay => vec!['2' as u8, '0' as u8, '0' as u8, ' ' as u8, 'O' as u8, 'K' as u8],
            StatusCode::BadRequest => vec![
                '4' as u8, '0' as u8, '0' as u8, ' ' as u8, 'B' as u8, 'a' as u8, 'd' as u8,
                ' ' as u8, 'R' as u8, 'e' as u8, 'q' as u8, 'u' as u8, 'e' as u8, 's' as u8,
                't' as u8,
            ],
            StatusCode::NotFound => vec![
                '4' as u8, '0' as u8, '4' as u8, ' ' as u8, 'N' as u8, 'o' as u8, 't' as u8,
                ' ' as u8, 'F' as u8, 'o' as u8, 'u' as u8, 'n' as u8, 'd' as u8,
            ],
            StatusCode::InternalServerError => vec![
                '5' as u8, '0' as u8, '0' as u8, ' ' as u8, 'I' as u8, 'n' as u8, 't' as u8,
                'e' as u8, 'r' as u8, 'n' as u8, 'a' as u8, 'l' as u8, ' ' as u8, 'S' as u8,
                'e' as u8, 'r' as u8, 'v' as u8, 'e' as u8, 'r' as u8, ' ' as u8, 'E' as u8,
                'r' as u8, 'r' as u8, 'o' as u8, 'r' as u8,
            ],
        };
        proof {
            assert(r@ =~= self.status_line_spec());
        }
        r
    }
}

/// The protocol written when none was given: `HTTP/1.1`.
pub open spec fn http11_bytes() -> Seq<u8> {
    seq![
        'H' as u8, 'T' as u8, 'T' as u8, 'P' as u8, '/' as u8, '1' as u8, '.' as u8, '1' as u8,
    ]
}

/// The path substituted when none was given: `/`.
pub open spec fn slash_bytes() -> Seq<u8> {
    seq!['/' as u8]
}

/// A request line reduced to its three tokens. The body is never read off
/// the wire; it stays empty.
pub struct Request {
    pub method: HttpMethod,
    pub path: Vec<u8>,
    pub protocol: Vec<u8>,
    pub body: Vec<u8>,
}

/// The mathematical value of a `Request`.
#[verifier::ext_equal]
pub struct RequestModel {
    pub method: HttpMethod,
    pub path: Seq<u8>,
    pub protocol: Seq<u8>,
    pub body: Seq<u8>,
}

impl View for Request {
    type V = RequestModel;

    open spec fn view(&self) -> RequestModel {
        RequestModel {
            method: self.method,
            path: self.path@,
            protocol: self.protocol@,
            body: self.body@,
        }
    }
}

/// A precomputed response: what a route freezes at registration and what
/// the dispatcher writes back, byte for byte.
pub struct Response {
    pub protocol: Vec<u8>,
    pub status_code: StatusCode,
    pub body: Vec<u8>,
}

/// The mathematical value of a `Response`.
#[verifier::ext_equal]
pub struct ResponseModel {
    pub protocol: Seq<u8>,
    pub status_code: StatusCode,
    pub body: Seq<u8>,
}

impl View for Response {
    type V = ResponseModel;

    open spec fn view(&self) -> ResponseModel {
        ResponseModel {
            protocol: self.protocol@,
            status_code: self.status_code,
            body: self.body@,
        }
    }
}

impl Response {
    /// An owned copy; the route table hands these out while keeping the
    /// frozen original.
    pub fn duplicate(&self) -> (r: Response)
        ensures
            r@ == self@,
    {
        let mut protocol: Vec<u8> = Vec::new();
        let mut body: Vec<u8> = Vec::new();
        copy_bytes(&mut protocol, &self.protocol);
        copy_bytes(&mut body, &self.body);
        proof {
            assert(protocol@ =~= self.protocol@);
            assert(body@ =~= self.body@);
        }
        let r = Response { protocol, status_code: self.status_code, body };
        proof {
            assert(r@ =~= self@);
        }
        r
    }
}

/// The model of the response `html_response` builds from given contents.
pub open spec fn html_response_spec(contents: Seq<u8>) -> ResponseModel {
    ResponseModel { protocol: http11_bytes(), status_code: StatusCode::Okay, body: contents }
}

/// An `HTTP/1.1 200` response whose body is exactly the given contents.
/// The contents were read from the backing file once, before this call;
/// the response never re-reads them.
pub fn html_response(contents: Vec<u8>) -> (r: Response)
    ensures
        r@ == html_response_spec(contents@),
{
    let protocol: Vec<u8> = vec![
        'H' as u8, 'T' as u8, 'T' as u8, 'P' as u8, '/' as u8, '1' as u8, '.' as u8, '1' as u8,
    ];
    proof {
        assert(protocol@ =~= http11_bytes());
    }
    let r = Response { protocol, status_code: StatusCode::Okay, body: contents };
    proof {
        assert(r@ =~= html_response_spec(r.body@));
    }
    r
}

/// Appends every byte of `src` to `dst`, leaving `src` as it was.
pub fn copy_bytes(dst: &mut Vec<u8>, src: &Vec<u8>)
    ensures
        final(dst)@ == old(dst)@ + src@,
{
    let ghost dst0 = dst@;
    let mut i: usize = 0;
    while i < src.len()
        invariant
            i <= src@.len(),
            dst@ =~= dst0 + src@.subrange(0, i as int),
        decreases src@.len() - i,
    {
        dst.push(src[i]);
        i = i + 1;
    }
    proof {
        assert(src@.subrange(0, src@.len() as int) =~= src@);
        assert(dst@ =~= dst0 + src@);
    }
}

} // verus!

