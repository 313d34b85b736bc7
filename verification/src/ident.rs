//! The identifier type itself: a transparent wrapper around a 32-bit
//! unsigned integer, with named accessors for the reserved values and
//! ranges and total conversions from the narrower legacy width.

use vstd::prelude::*;

verus! {

/// An Autonomous System Number: a plain 32-bit unsigned integer.
///
/// Every 32-bit value is a valid identifier; the reserved values and
/// ranges below are advisory and are not enforced at construction.
#[derive(Copy, Clone, PartialEq, Eq, Structural, PartialOrd, Ord, Hash, Debug)]
pub struct Asn(pub u32);

impl View for Asn {
    type V = u32;

    open spec fn view(&self) -> u32 {
        self.0
    }
}

/// A closed interval of identifiers, inclusive on both ends.
#[derive(Copy, Clone, PartialEq, Eq, Structural, Debug)]
pub struct AsnRange {
    pub start: Asn,
    pub end: Asn,
}

impl AsnRange {
    /// True when the identifier lies inside the interval.
    pub open spec fn spec_contains(self, asn: Asn) -> bool {
        self.start@ <= asn@ <= self.end@
    }

    /// Inclusion test against both bounds.
    pub fn contains(&self, asn: &Asn) -> (r: bool)
        ensures
            r == self.spec_contains(*asn),
    {
        self.start.0 <= asn.0 && asn.0 <= self.end.0
    }
}

impl Asn {
    /// The reserved zero identifier.
    pub fn zero() -> (r: Asn)
        ensures
            r@ == 0,
    {
        Asn(0)
    }

    /// The reserved placeholder for values not representable in 16 bits.
    pub fn trans() -> (r: Asn)
        ensures
            r@ == 23456,
    {
        Asn(23456)
    }

    /// The reserved last identifier of the legacy 16-bit domain.
    pub fn last() -> (r: Asn)
        ensures
            r@ == 65535,
    {
        Asn(65535)
    }

    /// The reserved last identifier of the 32-bit domain.
    pub fn last4() -> (r: Asn)
        ensures
            r@ == 4294967295,
    {
        Asn(4294967295)
    }

    /// Wraps a raw 32-bit value; total, no validation.
    pub fn new(asn: u32) -> (r: Asn)
        ensures
            r@ == asn,
    {
        Asn(asn)
    }

    /// The legacy documentation range.
    pub fn reserved_documentation() -> (r: AsnRange)
        ensures
            r.start@ == 64496 && r.end@ == 64511,
    {
        AsnRange { start: Asn(64496), end: Asn(64511) }
    }

    /// The extended documentation range.
    pub fn reserved_documentation4() -> (r: AsnRange)
        ensures
            r.start@ == 65536 && r.end@ == 65551,
    {
        AsnRange { start: Asn(65536), end: Asn(65551) }
    }

    /// The legacy private-use range.
    pub fn reserved_private() -> (r: AsnRange)
        ensures
            r.start@ == 64512 && r.end@ == 65534,
    {
        AsnRange { start: Asn(64512), end: Asn(65534) }
    }

    /// The extended private-use range.
    pub fn reserved_private4() -> (r: AsnRange)
        ensures
            r.start@ == 4200000000 && r.end@ == 4294967294,
    {
        AsnRange { start: Asn(4200000000), end: Asn(4294967294) }
    }

    /// The range reserved for future assignment.
    pub fn reserved_iana4() -> (r: AsnRange)
        ensures
            r.start@ == 65552 && r.end@ == 131071,
    {
        AsnRange { start: Asn(65552), end: Asn(131071) }
    }
}

impl From<Asn> for u32 {
    /// Unwraps the identifier to its raw 32-bit value.
    fn from(asn: Asn) -> (r: u32)
        ensures
            r == asn@,
    {
        asn.0
    }
}

impl vstd::std_specs::convert::FromSpecImpl<Asn> for u32 {
    open spec fn obeys_from_spec() -> bool {
        true
    }

    open spec fn from_spec(asn: Asn) -> u32 {
        asn@
    }
}

impl From<u32> for Asn {
    /// Wraps a raw 32-bit value, exactly as `Asn::new` does.
    fn from(asn: u32) -> (r: Asn)
        ensures
            r@ == asn,
    {
        Asn(asn)
    }
}

impl vstd::std_specs::convert::FromSpecImpl<u32> for Asn {
    open spec fn obeys_from_spec() -> bool {
        true
    }

    open spec fn from_spec(asn: u32) -> Asn {
        Asn(asn)
    }
}

impl From<u16> for Asn {
    /// Widens a legacy 16-bit value by zero-extension.
    fn from(asn: u16) -> (r: Asn)
        ensures
            r@ == asn,
    {
        Asn(asn as u32)
    }
}

impl vstd::std_specs::convert::FromSpecImpl<u16> for Asn {
    open spec fn obeys_from_spec() -> bool {
        true
    }

    open spec fn from_spec(asn: u16) -> Asn {
        Asn(asn as u32)
    }
}

} // verus!
