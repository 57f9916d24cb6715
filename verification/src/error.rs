use vstd::prelude::*;

verus! {

/// Every failure of the codec is reported as a value of this type;
/// nothing in this crate panics on adversarial input.
#[derive(Debug, Clone, Copy, PartialEq, Eq)]
pub enum Error {
    /// Malformed or unverifiable input: a bad header, an attribute that
    /// runs past the buffer, a wrong fixed-size value, or a failed
    /// fingerprint or integrity check.
    InvalidData(&'static str),
    /// A length that does not fit the 16-bit field that must carry it.
    Overflow,
}

} // verus!
