//! What the grid refuses.

use vstd::prelude::*;

verus! {

/// Why an operation on a grid was refused.
#[derive(Clone, Copy, Debug, PartialEq, Eq, Structural)]
pub enum GridError {
    /// A side of the grid would be shorter than 2 or longer than 1024 cells.
    InvalidDimension,
    /// A coordinate names a row or a column that the grid does not have.
    IndexOutOfBounds,
}

} // verus!
