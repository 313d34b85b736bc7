//! The library's laws: properties that relate several functions,
//! stated over the same spec functions that the executable contracts
//! use and proved for every input.

use crate::digits::all_digit_bytes;
use crate::digits::dec_digits;
use crate::digits::dec_value;
use crate::digits::dec_value_bytes;
use crate::digits::lemma_dec_digits_spell;
use crate::digits::lemma_dec_value_bytes_bound;
use crate::digits::lemma_pow10_concrete;
use crate::digits::lemma_pow10_monotone;
use crate::ident::Asn;
use crate::parse::spec_parses;
use crate::parse::FAST_PATH_LIMIT;
use vstd::prelude::*;
use vstd::std_specs::convert::FromSpec;

verus! {

/// Round-trip: the canonical rendering of any identifier parses back
/// to the identifier itself. Composed with the contracts of
/// `Asn::to_string` and `Asn::from_str`, this gives
/// `Asn::from_str(&v.to_string()) == Ok(v)` for every identifier `v`.
pub proof fn lemma_render_parse_round_trip(v: u32)
    ensures
        spec_parses(dec_digits(v as nat)),
        dec_value(dec_digits(v as nat)) == v,
{
    lemma_dec_digits_spell(v as nat);
}

/// Construction is total and extraction inverts it: wrapping any raw
/// 32-bit value and converting the identifier back returns the value.
pub proof fn lemma_new_extract_round_trip(v: u32)
    ensures
        Asn(v)@ == v,
        <u32 as FromSpec<Asn>>::from_spec(Asn(v)) == v,
{
}

/// Widening: the identifier built from a 16-bit value equals the one
/// built from the zero-extended 32-bit value.
pub proof fn lemma_widening_from_u16(w: u16)
    ensures
        <Asn as FromSpec<u16>>::from_spec(w) == <Asn as FromSpec<u32>>::from_spec(w as u32),
        <Asn as FromSpec<u16>>::from_spec(w)@ == w,
{
}

/// Fast-path soundness, the heart of the fast/slow split: a digit
/// string short enough for the fast path always fits the 32-bit
/// domain, so skipping the per-step overflow checks loses nothing.
/// Both paths promise the result `spec_parse_digits` outright, so on
/// these inputs they agree everywhere.
pub proof fn lemma_fast_path_fits(s: Seq<u8>)
    requires
        all_digit_bytes(s),
        s.len() <= FAST_PATH_LIMIT,
    ensures
        0 <= dec_value_bytes(s) <= u32::MAX,
{
    lemma_dec_value_bytes_bound(s);
    lemma_pow10_monotone(s.len(), 8);
    lemma_pow10_concrete();
}

} // verus!
