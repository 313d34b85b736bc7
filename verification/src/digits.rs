//! The mathematical model of decimal digit text: which characters and
//! bytes are digits, the numeric value of a digit sequence, and the
//! canonical digit sequence of a number.

use vstd::prelude::*;
use vstd::utf8::char_is_scalar;
use vstd::utf8::encode_scalar;
use vstd::utf8::encode_utf8;
use vstd::utf8::has_width_1_encoding;
use vstd::utf8::has_width_2_encoding;
use vstd::utf8::has_width_3_encoding;
use vstd::utf8::leading_byte_width_1;
use vstd::utf8::leading_byte_width_2;
use vstd::utf8::leading_byte_width_3;
use vstd::utf8::leading_byte_width_4;

verus! {

/// True when the character is a decimal digit; 48 and 57 are the code
/// points of '0' and '9'.
pub open spec fn is_digit_char(c: char) -> bool {
    48 <= c as u32 <= 57
}

/// The numeric value of a digit character.
pub open spec fn digit_char_val(c: char) -> int {
    c as u32 - 48
}

/// True when every character of the sequence is a decimal digit.
pub open spec fn all_digit_chars(s: Seq<char>) -> bool {
    forall|i: int| 0 <= i < s.len() ==> is_digit_char(#[trigger] s[i])
}

/// The numeric value of a digit character sequence read left to right.
pub open spec fn dec_value(s: Seq<char>) -> int
    decreases s.len(),
{
    if s.len() == 0 {
        0
    } else {
        dec_value(s.drop_last()) * 10 + digit_char_val(s.last())
    }
}

/// True when the byte is the single-byte encoding of a decimal digit.
pub open spec fn is_digit_byte(b: u8) -> bool {
    48 <= b && b <= 57
}

/// The numeric value of a digit byte.
pub open spec fn digit_byte_val(b: u8) -> int {
    b as int - 48
}

/// True when every byte of the sequence encodes a decimal digit.
pub open spec fn all_digit_bytes(s: Seq<u8>) -> bool {
    forall|i: int| 0 <= i < s.len() ==> is_digit_byte(#[trigger] s[i])
}

/// The numeric value of a digit byte sequence read left to right.
pub open spec fn dec_value_bytes(s: Seq<u8>) -> int
    decreases s.len(),
{
    if s.len() == 0 {
        0
    } else {
        dec_value_bytes(s.drop_last()) * 10 + digit_byte_val(s.last())
    }
}

/// The digit character of a value below ten.
pub open spec fn digit_char(d: int) -> char {
    if d == 0 {
        '0'
    } else if d == 1 {
        '1'
    } else if d == 2 {
        '2'
    } else if d == 3 {
        '3'
    } else if d == 4 {
        '4'
    } else if d == 5 {
        '5'
    } else if d == 6 {
        '6'
    } else if d == 7 {
        '7'
    } else if d == 8 {
        '8'
    } else {
        '9'
    }
}

/// The canonical decimal digit sequence of a number: base 10, most
/// significant digit first, no leading zeros (zero itself is "0").
pub open spec fn dec_digits(v: nat) -> Seq<char>
    decreases v,
{
    if v < 10 {
        seq![digit_char(v as int)]
    } else {
        dec_digits(v / 10).push(digit_char((v % 10) as int))
    }
}

/// Ten raised to the given power.
pub open spec fn pow10(n: nat) -> int
    decreases n,
{
    if n == 0 {
        1
    } else {
        10 * pow10((n - 1) as nat)
    }
}

/// The powers of ten up to the width of the 32-bit domain.
pub proof fn lemma_pow10_concrete()
    ensures
        pow10(7) == 10000000,
        pow10(8) == 100000000,
{
    assert(pow10(0) == 1);
    assert(pow10(1) == 10);
    assert(pow10(2) == 100);
    assert(pow10(3) == 1000);
    assert(pow10(4) == 10000);
    assert(pow10(5) == 100000);
    assert(pow10(6) == 1000000);
    assert(pow10(7) == 10000000);
    assert(pow10(8) == 100000000);
}

/// Powers of ten are positive and grow with the exponent.
pub proof fn lemma_pow10_monotone(m: nat, n: nat)
    requires
        m <= n,
    ensures
        1 <= pow10(m) <= pow10(n),
    decreases n,
{
    if n > 0 {
        if m == n {
            lemma_pow10_monotone((m - 1) as nat, (n - 1) as nat);
        } else {
            lemma_pow10_monotone(m, (n - 1) as nat);
        }
    }
}

/// The value of a digit sequence is at least zero and below ten to its length.
pub proof fn lemma_dec_value_bytes_bound(s: Seq<u8>)
    requires
        all_digit_bytes(s),
    ensures
        0 <= dec_value_bytes(s) < pow10(s.len()),
    decreases s.len(),
{
    if s.len() > 0 {
        assert(all_digit_bytes(s.drop_last())) by {
            assert(forall|i: int| 0 <= i < s.len() - 1 ==> s.drop_last()[i] == s[i]);
        }
        lemma_dec_value_bytes_bound(s.drop_last());
    }
}

/// Reading one more digit multiplies the prefix value by ten and adds it.
pub proof fn lemma_dec_value_bytes_take_succ(s: Seq<u8>, i: int)
    requires
        0 <= i < s.len(),
    ensures
        dec_value_bytes(s.take(i + 1)) == dec_value_bytes(s.take(i)) * 10 + digit_byte_val(s[i]),
{
    assert(s.take(i + 1).drop_last() =~= s.take(i));
    assert(s.take(i + 1).last() == s[i]);
}

/// The value of a prefix never exceeds the value of the whole sequence.
pub proof fn lemma_dec_value_bytes_prefix_le(s: Seq<u8>, i: int)
    requires
        all_digit_bytes(s),
        0 <= i <= s.len(),
    ensures
        dec_value_bytes(s.take(i)) <= dec_value_bytes(s),
    decreases s.len() - i,
{
    if i < s.len() {
        assert(all_digit_bytes(s.take(i))) by {
            assert(forall|j: int| 0 <= j < i ==> s.take(i)[j] == s[j]);
        }
        lemma_dec_value_bytes_take_succ(s, i);
        lemma_dec_value_bytes_bound(s.take(i));
        lemma_dec_value_bytes_prefix_le(s, i + 1);
    } else {
        assert(s.take(i) =~= s);
    }
}

/// The canonical digit sequence of a value spells that value: it is
/// non-empty, made of digits only, reads back to the value, and has no
/// leading zero unless the value is zero itself.
pub proof fn lemma_dec_digits_spell(v: nat)
    ensures
        dec_digits(v).len() >= 1,
        all_digit_chars(dec_digits(v)),
        dec_value(dec_digits(v)) == v,
        v >= 1 ==> dec_digits(v)[0] != '0',
    decreases v,
{
    if v < 10 {
        assert(dec_value(Seq::<char>::empty()) == 0);
        assert(seq![digit_char(v as int)].drop_last() =~= Seq::<char>::empty());
        assert(digit_char_val(digit_char(v as int)) == v);
        assert(dec_value(seq![digit_char(v as int)]) == digit_char_val(digit_char(v as int)));
    } else {
        lemma_dec_digits_spell(v / 10);
        let s = dec_digits(v / 10);
        let c = digit_char((v % 10) as int);
        assert(s.push(c).drop_last() =~= s);
        assert(s.push(c).last() == c);
        assert(digit_char_val(c) == v % 10);
        assert(s.push(c)[0] == s[0]);
        assert(dec_value(s.push(c)) == (v / 10) * 10 + v % 10);
        assert((v / 10) * 10 + v % 10 == v) by {
            vstd::arithmetic::div_mod::lemma_fundamental_div_mod(v as int, 10);
        }
    }
}

/// Digit characters and their single-byte encodings carry the same value.
proof fn lemma_dec_value_pointwise(bs: Seq<u8>, cs: Seq<char>)
    requires
        bs.len() == cs.len(),
        forall|i: int|
            0 <= i < cs.len() ==> is_digit_char(#[trigger] cs[i]) && bs[i] as int == cs[i] as u32,
    ensures
        dec_value_bytes(bs) == dec_value(cs),
    decreases cs.len(),
{
    if cs.len() > 0 {
        assert(forall|i: int|
            0 <= i < cs.len() - 1 ==> cs.drop_last()[i] == cs[i] && bs.drop_last()[i] == bs[i]);
        lemma_dec_value_pointwise(bs.drop_last(), cs.drop_last());
        assert(digit_byte_val(bs.last()) == digit_char_val(cs.last()));
    }
}

/// A sequence of digit characters encodes one byte per character, each
/// byte the character's code point.
proof fn lemma_digit_chars_encode_pointwise(cs: Seq<char>)
    requires
        all_digit_chars(cs),
    ensures
        encode_utf8(cs).len() == cs.len(),
        forall|i: int| 0 <= i < cs.len() ==> #[trigger] encode_utf8(cs)[i] as int == cs[i] as u32,
    decreases cs.len(),
{
    if cs.len() > 0 {
        let c0 = cs[0] as u32;
        assert(is_digit_char(cs[0]));
        assert(has_width_1_encoding(c0));
        assert(encode_scalar(c0) =~= seq![leading_byte_width_1(c0)]);
        assert(c0 <= 0x7F ==> ((c0 & 0x7F) as u8) as u32 == c0) by (bit_vector);
        assert(forall|i: int| 0 <= i < cs.len() - 1 ==> cs.drop_first()[i] == cs[i + 1]);
        lemma_digit_chars_encode_pointwise(cs.drop_first());
        assert(encode_utf8(cs) == encode_scalar(c0) + encode_utf8(cs.drop_first()));
        assert(forall|i: int|
            0 <= i < cs.len() - 1 ==> encode_utf8(cs)[i + 1] == encode_utf8(cs.drop_first())[i]);
    }
}

/// A sequence of digit characters encodes, byte for byte, to the digit
/// bytes of the same value.
pub proof fn lemma_digit_chars_encode(cs: Seq<char>)
    requires
        all_digit_chars(cs),
    ensures
        encode_utf8(cs).len() == cs.len(),
        all_digit_bytes(encode_utf8(cs)),
        dec_value_bytes(encode_utf8(cs)) == dec_value(cs),
{
    lemma_digit_chars_encode_pointwise(cs);
    assert(forall|i: int| 0 <= i < cs.len() ==> is_digit_byte(#[trigger] encode_utf8(cs)[i]));
    lemma_dec_value_pointwise(encode_utf8(cs), cs);
}

/// When every byte of a string's UTF-8 encoding is a digit byte, every
/// character of the string is a digit character.
pub proof fn lemma_digit_bytes_decode(cs: Seq<char>)
    requires
        all_digit_bytes(encode_utf8(cs)),
    ensures
        all_digit_chars(cs),
    decreases cs.len(),
{
    if cs.len() > 0 {
        let c0 = cs[0] as u32;
        char_is_scalar(cs[0]);
        let bs = encode_utf8(cs);
        assert(bs == encode_scalar(c0) + encode_utf8(cs.drop_first()));
        assert(bs[0] == encode_scalar(c0)[0]);
        assert(is_digit_byte(bs[0]));
        if has_width_1_encoding(c0) {
            assert(bs[0] == leading_byte_width_1(c0));
            assert(c0 <= 0x7F ==> (c0 & 0x7F) as u8 == c0) by (bit_vector);
            assert(48 <= c0 <= 57);
            assert(is_digit_char(cs[0]));
            assert(encode_scalar(c0).len() == 1);
            assert(encode_utf8(cs.drop_first()) =~= bs.subrange(1, bs.len() as int));
            assert(all_digit_bytes(encode_utf8(cs.drop_first()))) by {
                assert(forall|i: int|
                    0 <= i < bs.len() - 1 ==> bs.subrange(1, bs.len() as int)[i] == bs[i + 1]);
            }
            lemma_digit_bytes_decode(cs.drop_first());
            assert forall|i: int| 0 <= i < cs.len() implies is_digit_char(#[trigger] cs[i]) by {
                if i > 0 {
                    assert(cs.drop_first()[i - 1] == cs[i]);
                }
            }
        } else {
            if has_width_2_encoding(c0) {
                assert(bs[0] == leading_byte_width_2(c0));
                assert((0xC0 | ((c0 >> 6) & 0x1F) as u8) >= 0xC0) by (bit_vector);
            } else if has_width_3_encoding(c0) {
                assert(bs[0] == leading_byte_width_3(c0));
                assert((0xE0 | ((c0 >> 12) & 0x0F) as u8) >= 0xE0) by (bit_vector);
            } else {
                assert(bs[0] == leading_byte_width_4(c0));
                assert((0xF0 | ((c0 >> 18) & 0x7) as u8) >= 0xF0) by (bit_vector);
            }
            assert(false);
        }
    }
}

/// A string is made of digit characters exactly when its UTF-8 encoding
/// is made of digit bytes, and then both spell the same number.
pub proof fn lemma_digit_text(cs: Seq<char>)
    ensures
        all_digit_bytes(encode_utf8(cs)) <==> all_digit_chars(cs),
        all_digit_chars(cs) ==> encode_utf8(cs).len() == cs.len() && dec_value_bytes(
            encode_utf8(cs),
        ) == dec_value(cs),
{
    if all_digit_chars(cs) {
        lemma_digit_chars_encode(cs);
    } else if all_digit_bytes(encode_utf8(cs)) {
        lemma_digit_bytes_decode(cs);
    }
}

} // verus!
