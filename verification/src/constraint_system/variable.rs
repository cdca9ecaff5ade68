//! Handles to witness values and the places in which gates use them.

use vstd::prelude::*;

verus! {

/// A handle to a witness value. The handle stands for a slot of the
/// constraint system and carries no value itself.
#[derive(Clone, Copy, Debug, PartialEq, Eq, Structural, Hash)]
pub struct Variable(pub usize);

/// One use of a variable: the wire column and the position of its gate.
#[derive(Clone, Copy, Debug, PartialEq, Eq, Structural, Hash)]
pub enum WireData {
    /// The left wire at the given position.
    Left(usize),
    /// The right wire at the given position.
    Right(usize),
    /// The output wire at the given position.
    Output(usize),
    /// The fourth wire at the given position.
    Fourth(usize),
}

} // verus!
