//! The codec of the device file: how a brightness value is laid down
//! in the file and how the file's content is read back.
//!
//! The file holds the ASCII decimal representation of a value in
//! 0..=255, written without a trailing newline. Reading tolerates one
//! trailing `\n` or `\r\n` (never more) before parsing the digits.

use vstd::prelude::*;
use vstd::slice::slice_subrange;

use crate::error::{ParseFault, RpiError};

verus! {

/// The byte is an ASCII decimal digit.
pub open spec fn is_ascii_digit(b: u8) -> bool {
    48 <= b <= 57
}

/// The numeric value of an ASCII decimal digit byte.
pub open spec fn digit_value(b: u8) -> nat
    recommends
        is_ascii_digit(b),
{
    (b - 48) as nat
}

/// Every byte of the sequence is an ASCII decimal digit.
pub open spec fn all_digits(s: Seq<u8>) -> bool {
    forall|i: int| 0 <= i < s.len() ==> is_ascii_digit(s[i])
}

/// The number denoted by a sequence of ASCII decimal digit bytes,
/// most significant digit first.
pub open spec fn digits_value(s: Seq<u8>) -> nat
    recommends
        all_digits(s),
    decreases s.len(),
{
    if s.len() == 0 {
        0
    } else {
        digits_value(s.drop_last()) * 10 + digit_value(s.last())
    }
}

/// The content with one trailing `\n`, or one trailing `\r\n`,
/// stripped; anything else is left as it is.
pub open spec fn trimmed(s: Seq<u8>) -> Seq<u8> {
    if s.len() > 0 && s.last() == 10u8 {
        let t = s.drop_last();
        if t.len() > 0 && t.last() == 13u8 {
            t.drop_last()
        } else {
            t
        }
    } else {
        s
    }
}

/// What parsing a digit string as an 8-bit value yields: `Empty` for no
/// bytes at all, `InvalidDigit` if any byte is not a decimal digit,
/// `Overflow` for a value above 255, and the value otherwise.
pub open spec fn spec_parse_decimal_u8(s: Seq<u8>) -> Result<u8, ParseFault> {
    if s.len() == 0 {
        Err(ParseFault::Empty)
    } else if !all_digits(s) {
        Err(ParseFault::InvalidDigit)
    } else if digits_value(s) > 255 {
        Err(ParseFault::Overflow)
    } else {
        Ok(digits_value(s) as u8)
    }
}

/// What reading the device file's content yields: the content is
/// trimmed of one trailing newline and parsed as a decimal 8-bit
/// value; a parse fault surfaces as `ParseError`.
pub open spec fn spec_parse_brightness(content: Seq<u8>) -> Result<u8, RpiError> {
    match spec_parse_decimal_u8(trimmed(content)) {
        Ok(v) => Ok(v),
        Err(f) => Err(RpiError::ParseError(f)),
    }
}

/// The ASCII decimal representation of a brightness value, without a
/// trailing newline.
pub open spec fn spec_encode(v: u8) -> Seq<u8> {
    if v < 10 {
        seq![(v + 48) as u8]
    } else if v < 100 {
        seq![(v / 10 + 48) as u8, (v % 10 + 48) as u8]
    } else {
        seq![(v / 100 + 48) as u8, ((v / 10) % 10 + 48) as u8, (v % 10 + 48) as u8]
    }
}

/// Strips one trailing `\n` and, if one then ends the content, one
/// `\r` — that is, one `\n` or one `\r\n`, never more.
pub fn trim_newline(s: &[u8]) -> (r: &[u8])
    ensures
        r@ == trimmed(s@),
{
    let mut end: usize = s.len();
    if end > 0 && s[end - 1] == 10 {
        end = end - 1;
        proof {
            assert(s@.drop_last() =~= s@.subrange(0, end as int));
        }
        if end > 0 && s[end - 1] == 13 {
            end = end - 1;
            proof {
                assert(s@.drop_last().drop_last() =~= s@.subrange(0, end as int));
            }
        }
    }
    slice_subrange(s, 0, end)
}

/// Parses a digit string as an 8-bit value, exactly as
/// `spec_parse_decimal_u8` states.
pub fn parse_decimal_u8(s: &[u8]) -> (r: Result<u8, ParseFault>)
    ensures
        r == spec_parse_decimal_u8(s@),
{
    if s.len() == 0 {
        return Err(ParseFault::Empty);
    }
    let mut acc: u32 = 0;
    let mut i: usize = 0;
    while i < s.len()
        invariant
            0 <= i <= s@.len(),
            forall|j: int| 0 <= j < i ==> is_ascii_digit(s@[j]),
            acc == if digits_value(s@.subrange(0, i as int)) <= 255 {
                digits_value(s@.subrange(0, i as int))
            } else {
                256nat
            },
        decreases s@.len() - i,
    {
        let b = s[i];
        if b < 48 || b > 57 {
            return Err(ParseFault::InvalidDigit);
        }
        let d: u32 = (b - 48) as u32;
        proof {
            assert(s@.subrange(0, i + 1).drop_last() =~= s@.subrange(0, i as int));
            assert(s@.subrange(0, i + 1).last() == s@[i as int]);
        }
        let next: u32 = acc * 10 + d;
        if next > 255 {
            acc = 256;
        } else {
            acc = next;
        }
        i = i + 1;
    }
    proof {
        assert(s@.subrange(0, i as int) =~= s@);
    }
    if acc <= 255 {
        Ok(acc as u8)
    } else {
        Err(ParseFault::Overflow)
    }
}

/// Reads a brightness value out of the device file's content: trims
/// one trailing newline, then parses the remaining bytes as a decimal
/// 8-bit value. A parse fault comes back as `ParseError`.
pub fn parse_brightness(content: &[u8]) -> (r: Result<u8, RpiError>)
    ensures
        r == spec_parse_brightness(content@),
{
    let body = trim_newline(content);
    match parse_decimal_u8(body) {
        Ok(v) => Ok(v),
        Err(f) => Err(RpiError::ParseError(f)),
    }
}

/// Lays a brightness value down as its ASCII decimal digits, without
/// a trailing newline.
pub fn encode_brightness(v: u8) -> (r: Vec<u8>)
    ensures
        r@ == spec_encode(v),
{
    let mut out: Vec<u8> = Vec::new();
    if v >= 100 {
        out.push(v / 100 + 48);
    }
    if v >= 10 {
        out.push((v / 10) % 10 + 48);
    }
    out.push(v % 10 + 48);
    proof {
        assert(out@ =~= spec_encode(v));
    }
    out
}

/// Appending one more digit multiplies the value so far by ten.
proof fn lemma_digits_value_push(s: Seq<u8>, b: u8)
    ensures
        digits_value(s.push(b)) == digits_value(s) * 10 + digit_value(b),
{
    assert(s.push(b).drop_last() =~= s);
    assert(s.push(b).last() == b);
}

/// Writing a value and reading it back yields the value again: the
/// encoded digits, trimmed and parsed, give back exactly what was
/// encoded, for every value in 0..=255.
pub proof fn lemma_write_read_round_trip(v: u8)
    ensures
        spec_parse_brightness(spec_encode(v)) == Ok::<u8, RpiError>(v),
{
    let e = spec_encode(v);
    assert(e.last() != 10u8);
    assert(trimmed(e) == e);
    assert(all_digits(e));
    let zero = Seq::<u8>::empty();
    assert(digits_value(zero) == 0);
    if v < 10 {
        let a = (v + 48) as u8;
        assert(e =~= zero.push(a));
        lemma_digits_value_push(zero, a);
        assert(digit_value(a) == v as nat);
    } else if v < 100 {
        let a = (v / 10 + 48) as u8;
        let b = (v % 10 + 48) as u8;
        assert(e =~= zero.push(a).push(b));
        lemma_digits_value_push(zero, a);
        lemma_digits_value_push(zero.push(a), b);
        assert(digit_value(a) == (v / 10) as nat);
        assert(digit_value(b) == (v % 10) as nat);
        assert((v / 10) * 10 + v % 10 == v as nat);
    } else {
        let a = (v / 100 + 48) as u8;
        let b = ((v / 10) % 10 + 48) as u8;
        let c = (v % 10 + 48) as u8;
        assert(e =~= zero.push(a).push(b).push(c));
        lemma_digits_value_push(zero, a);
        lemma_digits_value_push(zero.push(a), b);
        lemma_digits_value_push(zero.push(a).push(b), c);
        assert(digit_value(a) == (v / 100) as nat);
        assert(digit_value(b) == ((v / 10) % 10) as nat);
        assert(digit_value(c) == (v % 10) as nat);
        assert((v / 10) / 10 == v / 100) by (nonlinear_arith);
        assert(v / 10 == (v / 100) * 10 + (v / 10) % 10);
        assert(((v / 100) * 10 + (v / 10) % 10) * 10 + v % 10 == v as nat);
    }
}

} // verus!
