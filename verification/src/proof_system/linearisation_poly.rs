//! The evaluations that a proof carries.

use crate::field::Scalar;
use vstd::prelude::*;

verus! {

/// The values of the four wire polynomials at the evaluation point.
#[derive(Clone, Copy, Debug, PartialEq, Eq)]
pub struct WitnessValues {
    /// The left wire.
    pub a_eval: Scalar,
    /// The right wire.
    pub b_eval: Scalar,
    /// The output wire.
    pub c_eval: Scalar,
    /// The fourth wire.
    pub d_eval: Scalar,
}

/// The values that the lookup argument opens at the evaluation point.
#[derive(Clone, Copy, Debug, PartialEq, Eq)]
pub struct LookupEvaluations {
    /// The lookup selector.
    pub q_lookup_eval: Scalar,
    /// The product accumulator at the next point of the domain.
    pub z2_next_eval: Scalar,
    /// The first half of the sorted multiset.
    pub h1_eval: Scalar,
    /// The first half of the sorted multiset at the next point of the domain.
    pub h1_next_eval: Scalar,
    /// The second half of the sorted multiset.
    pub h2_eval: Scalar,
    /// The compressed query.
    pub f_eval: Scalar,
    /// The compressed table.
    pub table_eval: Scalar,
    /// The compressed table at the next point of the domain.
    pub table_next_eval: Scalar,
}

/// The evaluations of a proof.
#[derive(Clone, Copy, Debug, PartialEq, Eq)]
pub struct ProofEvaluations {
    /// The wire polynomials.
    pub wire_evals: WitnessValues,
    /// The arithmetic selector.
    pub q_arith_eval: Scalar,
    /// The lookup argument.
    pub lookup_evals: LookupEvaluations,
}

/// Further evaluations of a proof, each under its label, for the kinds of
/// gate that need more than the wires.
#[derive(Debug)]
pub struct CustomEvaluations {
    /// The labels and their values.
    pub vals: Vec<(Vec<u8>, Scalar)>,
}

/// The first value that stands under `label`, if any.
pub open spec fn labelled(vals: Seq<(Vec<u8>, Scalar)>, label: Seq<u8>) -> Option<Scalar>
    decreases vals.len(),
{
    if vals.len() == 0 {
        None
    } else if vals[0].0@ == label {
        Some(vals[0].1)
    } else {
        labelled(vals.skip(1), label)
    }
}

/// Whether two byte strings are the same.
fn same_bytes(a: &[u8], b: &[u8]) -> (r: bool)
    ensures
        r == (a@ == b@),
{
    if a.len() != b.len() {
        return false;
    }
    let mut i: usize = 0;
    while i < a.len()
        invariant
            a@.len() == b@.len(),
            i <= a@.len(),
            forall|k: int| 0 <= k < i ==> a@[k] == b@[k],
        decreases a@.len() - i,
    {
        if a[i] != b[i] {
            return false;
        }
        i += 1;
    }
    assert(a@ =~= b@);
    true
}

impl CustomEvaluations {
    /// The value under `label`, if there is one.
    pub fn get(&self, label: &[u8]) -> (r: Option<Scalar>)
        ensures
            r == labelled(self.vals@, label@),
    {
        let mut i: usize = 0;
        assert(self.vals@.skip(0) =~= self.vals@);
        while i < self.vals.len()
            invariant
                i <= self.vals@.len(),
                labelled(self.vals@, label@) == labelled(self.vals@.skip(i as int), label@),
            decreases self.vals@.len() - i,
        {
            if same_bytes(self.vals[i].0.as_slice(), label) {
                return Some(self.vals[i].1);
            }
            assert(self.vals@.skip(i as int).skip(1) =~= self.vals@.skip(i + 1));
            i += 1;
        }
        None
    }
}

} // verus!
