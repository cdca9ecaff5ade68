//! The failures that the library reports to its callers.

use vstd::prelude::*;

verus! {

/// An input that the library refuses.
#[derive(Clone, Copy, Debug, PartialEq, Eq, Structural)]
pub enum Error {
    /// A lookup query holds an element that the table does not.
    ElementNotIndexed,
    /// The length asked of a padded multiset is not a power of two.
    InvalidPadLength,
    /// The length asked of a padded multiset is below its present length.
    PadTooShort,
    /// A byte string is not a sequence of encoded field elements.
    MalformedBytes,
    /// An aggregate opening holds no polynomial.
    EmptyAggregation,
}

} // verus!
