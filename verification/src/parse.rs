//! The decimal parser: maps a text slice to an identifier or a
//! zero-information failure, with a fast accumulation path for inputs
//! short enough that overflow is impossible and a checked path for the
//! rest. Both paths are proved to produce the same result.

use crate::digits::all_digit_bytes;
use crate::digits::all_digit_chars;
use crate::digits::dec_value;
use crate::digits::dec_value_bytes;
use crate::digits::is_digit_byte;
use crate::digits::lemma_dec_value_bytes_bound;
use crate::digits::lemma_dec_value_bytes_prefix_le;
use crate::digits::lemma_dec_value_bytes_take_succ;
use crate::digits::lemma_digit_text;
use crate::digits::lemma_pow10_concrete;
use crate::digits::lemma_pow10_monotone;
use crate::ident::Asn;
use vstd::prelude::*;
use vstd::string::StringExecFns;

verus! {

/// The longest input, in bytes, that the fast path accepts: twice the
/// byte width of the 32-bit accumulator. Eight digits spell at most
/// 99999999, so accumulating them cannot overflow.
pub const FAST_PATH_LIMIT: usize = 8;

/// Error returned when a string is not a valid decimal identifier.
///
/// Deliberately carries no diagnostic payload: equality holds between
/// any two parse failures.
#[derive(Debug, Clone, PartialEq, Eq, Structural)]
pub struct ParseAsnError();

impl ParseAsnError {
    /// The fixed human-readable message of every parse failure.
    pub fn to_string(&self) -> (s: String)
        ensures
            s@ == "can not parse ASN"@,
    {
        String::from_str("can not parse ASN")
    }
}

/// The result both accumulation paths must produce: the numeric value
/// of the bytes when all of them are decimal digits and the value fits
/// the 32-bit domain, and nothing otherwise.
pub open spec fn spec_parse_digits(s: Seq<u8>) -> Option<u32> {
    if all_digit_bytes(s) && dec_value_bytes(s) <= u32::MAX {
        Some(dec_value_bytes(s) as u32)
    } else {
        None
    }
}

/// True when a character sequence parses as an identifier: non-empty,
/// decimal digits only, and a value within the 32-bit domain.
pub open spec fn spec_parses(s: Seq<char>) -> bool {
    s.len() > 0 && all_digit_chars(s) && dec_value(s) <= u32::MAX
}

/// Fast-path accumulation: plain multiply-by-ten-and-add with no
/// per-step overflow check. The length bound makes overflow impossible.
pub fn parse_digits_fast(digits: &[u8]) -> (r: Option<u32>)
    requires
        digits@.len() <= FAST_PATH_LIMIT,
    ensures
        r == spec_parse_digits(digits@),
{
    let mut result: u32 = 0;
    let mut i: usize = 0;
    while i < digits.len()
        invariant
            i <= digits@.len() <= FAST_PATH_LIMIT,
            all_digit_bytes(digits@.take(i as int)),
            result == dec_value_bytes(digits@.take(i as int)),
        decreases digits@.len() - i,
    {
        let b = digits[i];
        if b < 48 || 57 < b {
            proof {
                assert(!is_digit_byte(digits@[i as int]));
            }
            return None;
        }
        proof {
            lemma_dec_value_bytes_bound(digits@.take(i as int));
            lemma_pow10_monotone(i as nat, 7);
            lemma_pow10_concrete();
            lemma_dec_value_bytes_take_succ(digits@, i as int);
            assert(all_digit_bytes(digits@.take(i as int + 1))) by {
                assert(forall|j: int|
                    0 <= j < i ==> digits@.take(i as int)[j] == digits@.take(i as int + 1)[j]);
            }
        }
        result = result * 10 + (b - 48) as u32;
        i = i + 1;
    }
    proof {
        assert(digits@.take(i as int) =~= digits@);
    }
    Some(result)
}

/// Checked accumulation: multiplication and addition are checked, and
/// an overflow of the 32-bit domain rejects the input.
pub fn parse_digits_checked(digits: &[u8]) -> (r: Option<u32>)
    ensures
        r == spec_parse_digits(digits@),
{
    let mut result: u32 = 0;
    let mut i: usize = 0;
    while i < digits.len()
        invariant
            i <= digits@.len(),
            all_digit_bytes(digits@.take(i as int)),
            result == dec_value_bytes(digits@.take(i as int)),
        decreases digits@.len() - i,
    {
        let b = digits[i];
        let mul = result.checked_mul(10);
        if b < 48 || 57 < b {
            proof {
                assert(!is_digit_byte(digits@[i as int]));
            }
            return None;
        }
        proof {
            lemma_dec_value_bytes_take_succ(digits@, i as int);
            if all_digit_bytes(digits@) {
                lemma_dec_value_bytes_prefix_le(digits@, i as int + 1);
            }
        }
        result = match mul {
            Some(m) => m,
            None => {
                return None;
            },
        };
        result = match result.checked_add((b - 48) as u32) {
            Some(s) => s,
            None => {
                return None;
            },
        };
        proof {
            assert(all_digit_bytes(digits@.take(i as int + 1))) by {
                assert(forall|j: int|
                    0 <= j < i ==> digits@.take(i as int)[j] == digits@.take(i as int + 1)[j]);
            }
        }
        i = i + 1;
    }
    proof {
        assert(digits@.take(i as int) =~= digits@);
    }
    Some(result)
}

/// Splits on input length: short inputs take the unchecked fast path,
/// longer ones the checked path. Both agree wherever both apply.
pub fn parse_digits(digits: &[u8]) -> (r: Option<u32>)
    ensures
        r == spec_parse_digits(digits@),
{
    if digits.len() <= FAST_PATH_LIMIT {
        parse_digits_fast(digits)
    } else {
        parse_digits_checked(digits)
    }
}

impl Asn {
    /// Parses a decimal string into an identifier.
    ///
    /// Succeeds exactly on non-empty strings of decimal digits whose
    /// value fits the 32-bit domain; leading zeros are accepted. Any
    /// other input, including signs, whitespace and overflowing
    /// values, is rejected with a payload-free failure.
    pub fn from_str(src: &str) -> (r: Result<Asn, ParseAsnError>)
        ensures
            r == (if spec_parses(src@) {
                Ok::<Asn, ParseAsnError>(Asn(dec_value(src@) as u32))
            } else {
                Err::<Asn, ParseAsnError>(ParseAsnError())
            }),
    {
        if src.is_empty() {
            return Err(ParseAsnError());
        }
        let bytes = src.as_bytes();
        proof {
            lemma_digit_text(src@);
        }
        match parse_digits(bytes) {
            Some(v) => Ok(Asn(v)),
            None => Err(ParseAsnError()),
        }
    }
}

impl core::str::FromStr for Asn {
    type Err = ParseAsnError;

    fn from_str(src: &str) -> Result<Asn, ParseAsnError> {
        Asn::from_str(src)
    }
}

} // verus!
