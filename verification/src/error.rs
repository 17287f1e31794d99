//! What can be wrong with the text of an attribute.

use vstd::prelude::*;

verus! {

/// Why the text of an attribute could not be decoded.
#[derive(Clone, Copy, Debug, PartialEq, Eq, Structural)]
pub enum Error {
    /// The text is not written as the attribute should be: it is too short,
    /// lacks its prefix or holds a byte that is no digit.
    Invalid,
    /// The text is written as it should be, but the value that it denotes is
    /// out of the range of the attribute.
    Other,
}

} // verus!
