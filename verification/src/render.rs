//! Canonical text rendering: the plain base-10 digit sequence of the
//! wrapped value, most significant digit first, with no leading zeros,
//! no separators and no sign.

use crate::digits::dec_digits;
use crate::digits::digit_char;
use crate::ident::Asn;
use vstd::prelude::*;
use vstd::string::StringExecFns;

verus! {

/// The one-character string of a single digit value.
fn digit_str(d: u32) -> (s: &'static str)
    requires
        d < 10,
    ensures
        s@ =~= seq![digit_char(d as int)],
{
    proof {
        reveal_strlit("0");
        reveal_strlit("1");
        reveal_strlit("2");
        reveal_strlit("3");
        reveal_strlit("4");
        reveal_strlit("5");
        reveal_strlit("6");
        reveal_strlit("7");
        reveal_strlit("8");
        reveal_strlit("9");
    }
    if d == 0 {
        "0"
    } else if d == 1 {
        "1"
    } else if d == 2 {
        "2"
    } else if d == 3 {
        "3"
    } else if d == 4 {
        "4"
    } else if d == 5 {
        "5"
    } else if d == 6 {
        "6"
    } else if d == 7 {
        "7"
    } else if d == 8 {
        "8"
    } else {
        "9"
    }
}

/// Builds the canonical digit string of a value, dividing by ten until
/// a single digit is left and appending digits on the way back.
fn decimal_string(v: u32) -> (s: String)
    ensures
        s@ == dec_digits(v as nat),
    decreases v,
{
    if v < 10 {
        let s = String::from_str(digit_str(v));
        proof {
            assert(s@ =~= dec_digits(v as nat));
        }
        s
    } else {
        let mut s = decimal_string(v / 10);
        s.append(digit_str(v % 10));
        proof {
            assert(s@ =~= dec_digits(v as nat));
        }
        s
    }
}

impl Asn {
    /// Renders the identifier in its canonical decimal form.
    pub fn to_string(&self) -> (s: String)
        ensures
            s@ == dec_digits(self@ as nat),
    {
        decimal_string(self.0)
    }
}

} // verus!
