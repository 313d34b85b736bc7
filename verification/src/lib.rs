//! Autonomous System Numbers: a zero-cost 32-bit identifier type with
//! named reserved values and ranges, canonical decimal rendering, and
//! an overflow-safe decimal parser split into a fast path for short
//! inputs and a checked path for the rest.

pub mod digits;
pub mod ident;
pub mod laws;
pub mod parse;
pub mod render;

pub use ident::Asn;
pub use ident::AsnRange;
pub use parse::ParseAsnError;
