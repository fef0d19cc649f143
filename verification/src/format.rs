//! The response writer. A response is serialized as
//! `{protocol} {status line}\r\nContent-Length: {n}\r\n\r\n{body}` where
//! `n` is the byte length of the body — bytes, not characters, so
//! multi-byte text is measured correctly.

use vstd::prelude::*;

use crate::http::Response;
use crate::http::ResponseModel;
use crate::http::StatusCode;
use crate::http::copy_bytes;

verus! {

/// The decimal digits of `n`, most significant first, no leading zeros
/// (except for `n == 0`, written `0`).
pub open spec fn dec_digits(n: nat) -> Seq<u8>
    decreases n,
{
    if n < 10 {
        seq![(48 + n) as u8]
    } else {
        dec_digits(n / 10) + seq![(48 + n % 10) as u8]
    }
}

/// The number a run of decimal digits denotes.
pub open spec fn dec_value(s: Seq<u8>) -> nat
    decreases s.len(),
{
    if s.len() == 0 {
        0
    } else {
        dec_value(s.drop_last()) * 10 + (if s.last() >= 48 {
            (s.last() - 48) as nat
        } else {
            0
        })
    }
}

/// Writing a number in decimal and reading the digits back yields the
/// same number.
pub proof fn lemma_dec_round_trip(n: nat)
    ensures
        dec_value(dec_digits(n)) == n,
    decreases n,
{
    if n < 10 {
        assert(dec_digits(n) =~= seq![(48 + n) as u8]);
        assert(dec_value(dec_digits(n).drop_last()) == 0) by {
            assert(dec_digits(n).drop_last() =~= Seq::<u8>::empty());
        }
    } else {
        lemma_dec_round_trip(n / 10);
        assert(dec_digits(n).drop_last() =~= dec_digits(n / 10));
        assert(dec_digits(n).last() == (48 + n % 10) as u8);
    }
}

/// Every byte `dec_digits` writes is an ASCII digit.
pub proof fn lemma_dec_digits_are_digits(n: nat)
    ensures
        dec_digits(n).len() > 0,
        forall|i: int| 0 <= i < dec_digits(n).len() ==> 48 <= #[trigger] dec_digits(n)[i] <= 57,
    decreases n,
{
    if n < 10 {
    } else {
        lemma_dec_digits_are_digits(n / 10);
        assert forall|i: int| 0 <= i < dec_digits(n).len() implies 48 <= #[trigger] dec_digits(
            n,
        )[i] <= 57 by {
            if i < dec_digits(n / 10).len() {
                assert(dec_digits(n)[i] == dec_digits(n / 10)[i]);
            } else {
                assert(dec_digits(n)[i] == (48 + n % 10) as u8);
            }
        }
    }
}

/// The decimal digits of `n`, most significant first.
pub fn usize_to_dec(n: usize) -> (r: Vec<u8>)
    ensures
        r@ == dec_digits(n as nat),
    decreases n,
{
    if n < 10 {
        let d: u8 = (48 + n % 10) as u8;
        let r: Vec<u8> = vec![d];
        proof {
            assert(r@ =~= dec_digits(n as nat));
        }
        r
    } else {
        let mut r = usize_to_dec(n / 10);
        let d: u8 = (48 + n % 10) as u8;
        r.push(d);
        proof {
            assert(r@ =~= dec_digits(n as nat));
        }
        r
    }
}

/// The bytes `\r\n`.
pub open spec fn crlf() -> Seq<u8> {
    seq![13u8, 10u8]
}

/// The bytes of the one header written: `Content-Length: `.
pub open spec fn content_length_label() -> Seq<u8> {
    seq![
        'C' as u8, 'o' as u8, 'n' as u8, 't' as u8, 'e' as u8, 'n' as u8, 't' as u8, '-' as u8,
        'L' as u8, 'e' as u8, 'n' as u8, 'g' as u8, 't' as u8, 'h' as u8, ':' as u8, ' ' as u8,
    ]
}

/// Everything written before the body: protocol, space, status line,
/// CRLF, the Content-Length header, and the blank line.
pub open spec fn header_bytes(r: ResponseModel) -> Seq<u8> {
    r.protocol + seq![32u8] + r.status_code.status_line_spec() + crlf() + content_length_label()
        + dec_digits(r.body.len()) + crlf() + crlf()
}

/// The full wire form of a response: the header, then the body, whose
/// byte length the Content-Length header states exactly.
pub open spec fn response_bytes(r: ResponseModel) -> Seq<u8> {
    header_bytes(r) + r.body
}

/// Serializes a response for the wire, byte for byte as `response_bytes`
/// says: exactly one header, whose Content-Length is the byte length of
/// the body.
pub fn format_response(response: &Response) -> (out: Vec<u8>)
    ensures
        out@ == response_bytes(response@),
{
    let mut out: Vec<u8> = Vec::new();
    copy_bytes(&mut out, &response.protocol);
    out.push(32u8);
    let status = response.status_code.status_line();
    copy_bytes(&mut out, &status);
    out.push(13u8);
    out.push(10u8);
    let label: Vec<u8> = vec![
        'C' as u8, 'o' as u8, 'n' as u8, 't' as u8, 'e' as u8, 'n' as u8, 't' as u8, '-' as u8,
        'L' as u8, 'e' as u8, 'n' as u8, 'g' as u8, 't' as u8, 'h' as u8, ':' as u8, ' ' as u8,
    ];
    copy_bytes(&mut out, &label);
    let length = usize_to_dec(response.body.len());
    copy_bytes(&mut out, &length);
    out.push(13u8);
    out.push(10u8);
    out.push(13u8);
    out.push(10u8);
    copy_bytes(&mut out, &response.body);
    proof {
        assert(label@ =~= content_length_label());
        assert(out@ =~= response_bytes(response@));
    }
    out
}

/// The Content-Length round trip: a serialized response carries its body
/// verbatim after the header, and the run of ASCII digits written into
/// its Content-Length header reads back as exactly the byte length of
/// that body — so re-reading Content-Length bytes off the end recovers
/// the body.
pub proof fn lemma_content_length_round_trip(r: ResponseModel)
    ensures
        response_bytes(r).len() == header_bytes(r).len() + r.body.len(),
        response_bytes(r).subrange(
            header_bytes(r).len() as int,
            response_bytes(r).len() as int,
        ) =~= r.body,
        dec_value(dec_digits(r.body.len())) == r.body.len(),
        forall|i: int|
            0 <= i < dec_digits(r.body.len()).len() ==> 48 <= #[trigger] dec_digits(
                r.body.len(),
            )[i] <= 57,
{
    lemma_dec_round_trip(r.body.len());
    lemma_dec_digits_are_digits(r.body.len());
}

} // verus!
