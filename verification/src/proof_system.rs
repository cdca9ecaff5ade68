//! The parts of the proof system that gates contribute to.

pub mod linearisation_poly;
pub mod widget;

use crate::proof_system::widget::arithmetic::VerifierKey as ArithmeticVerifierKey;
use crate::proof_system::widget::lookup::VerifierKey as LookupVerifierKey;
use vstd::prelude::*;

verus! {

/// The verifier key of a circuit: the number of its gates and the
/// commitments of each kind of gate.
#[derive(Clone, Copy, Debug, PartialEq, Eq)]
pub struct VerifierKey {
    /// The number of gates.
    pub n: usize,
    /// The commitments of the arithmetic gates.
    pub arithmetic: ArithmeticVerifierKey,
    /// The commitment of the lookup gates.
    pub lookup: LookupVerifierKey,
}

} // verus!
