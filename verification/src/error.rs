//! The ways in which an operation of the catalog is refused.

use vstd::prelude::*;

verus! {

#[derive(Clone, Copy, Debug, PartialEq, Eq, Structural)]
/// Why an operation is refused.
pub enum Error {
    /// A text, a directory name or a pair of bounds is malformed.
    Validation,
    /// An area, a category, an item or a resolver is missing.
    NotFound,
    /// The slot is already occupied.
    Conflict,
    /// The category has no free item slot left.
    Exhausted,
    /// The resolver does not offer the operation.
    Unsupported,
}

} // verus!
