//! Openings of KZG10 commitments and their aggregation.
//!
//! Several polynomials opened at one point are folded into a single opening
//! with the powers of a challenge that the transcript gives out.

use crate::commitment::{g1_add, g1_identity, g1_scalar_mul, Commitment, G1Point};
use crate::error::Error;
use crate::field::{add_mod, modulus, mul_mod, Scalar};
use crate::transcript::{challenge_scalar_value, with_challenge, TranscriptWrapper};
use crate::util::pow_mod;
use vstd::prelude::*;
use vstd::string::StringSliceAdditionalSpecFns;

verus! {

/// The evidence that a polynomial takes a claimed value at a point.
#[derive(Clone, Copy, Debug, PartialEq, Eq)]
pub struct KZGProof {
    /// The commitment to the witness polynomial.
    pub commitment_to_witness: Commitment,
    /// The value that the polynomial is claimed to take.
    pub evaluated_point: Scalar,
    /// The commitment to the polynomial that the claim is about.
    pub commitment_to_polynomial: Commitment,
}

/// The evidence that several polynomials take claimed values at one point.
#[derive(Debug)]
pub struct KZGAggregateProof {
    commitment_to_witness: Commitment,
    evaluated_points: Vec<Scalar>,
    commitments_to_polynomials: Vec<Commitment>,
}

/// The sum of the first `n` claimed values, the `i`-th weighted with the
/// `i`-th power of the challenge.
pub open spec fn folded_evaluation(evals: Seq<Scalar>, challenge: nat, n: nat) -> nat
    decreases n,
{
    if n == 0 {
        0
    } else {
        add_mod(
            folded_evaluation(evals, challenge, (n - 1) as nat),
            mul_mod(pow_mod(challenge, (n - 1) as nat), evals[n - 1]@),
        )
    }
}

/// The sum of the first `n` commitments, the `i`-th scaled by the `i`-th
/// power of the challenge.
pub open spec fn folded_commitment(comms: Seq<Commitment>, challenge: nat, n: nat) -> G1Point
    decreases n,
{
    if n == 0 {
        g1_identity()
    } else {
        g1_add(
            folded_commitment(comms, challenge, (n - 1) as nat),
            g1_scalar_mul(comms[n - 1]@, pow_mod(challenge, (n - 1) as nat)),
        )
    }
}

/// The number of claimed values that find a commitment beside them.
pub open spec fn paired(evals: Seq<Scalar>, comms: Seq<Commitment>) -> nat {
    if evals.len() <= comms.len() {
        evals.len()
    } else {
        comms.len()
    }
}

impl KZGAggregateProof {
    /// The commitment to the aggregated witness polynomial.
    pub closed spec fn witness(&self) -> Commitment {
        self.commitment_to_witness
    }

    /// The claimed values, in the order in which they were added.
    pub closed spec fn evaluations(&self) -> Seq<Scalar> {
        self.evaluated_points@
    }

    /// The commitments, in the order in which they were added.
    pub closed spec fn commitments(&self) -> Seq<Commitment> {
        self.commitments_to_polynomials@
    }

    /// An aggregate opening with the given witness commitment and no parts.
    pub fn with_witness(witness: Commitment) -> (r: KZGAggregateProof)
        ensures
            r.witness() == witness,
            r.evaluations().len() == 0,
            r.commitments().len() == 0,
    {
        KZGAggregateProof {
            commitment_to_witness: witness,
            evaluated_points: Vec::new(),
            commitments_to_polynomials: Vec::new(),
        }
    }

    /// Adds a claimed value with the commitment to the polynomial that is
    /// claimed to take it.
    pub fn add_part(&mut self, part: (Scalar, Commitment))
        ensures
            final(self).witness() == old(self).witness(),
            final(self).evaluations() == old(self).evaluations().push(part.0),
            final(self).commitments() == old(self).commitments().push(part.1),
    {
        self.evaluated_points.push(part.0);
        self.commitments_to_polynomials.push(part.1);
    }

    /// Folds the openings into one. The transcript gives out the challenge
    /// whose powers weight the parts; it has to stand as the transcript of
    /// the party that aggregated the witness stood.
    ///
    /// An opening without parts is refused, and the transcript left as it
    /// was. An opening with a single part folds into that part.
    pub fn flatten(&self, transcript: &mut TranscriptWrapper) -> (r: Result<KZGProof, Error>)
        ensures
            self.commitments().len() == 0 ==> r == Err::<KZGProof, Error>(Error::EmptyAggregation)
                && final(transcript)@ == old(transcript)@,
            self.commitments().len() > 0 ==> final(transcript)@ == with_challenge(
                old(transcript)@,
                "aggregate_witness".spec_bytes(),
            ) && r is Ok && ({
                let challenge = challenge_scalar_value(
                    old(transcript)@,
                    "aggregate_witness".spec_bytes(),
                );
                let proof = r->Ok_0;
                &&& proof.commitment_to_witness == self.witness()
                &&& proof.evaluated_point@ == folded_evaluation(
                    self.evaluations(),
                    challenge,
                    paired(self.evaluations(), self.commitments()),
                )
                &&& proof.commitment_to_polynomial@ == folded_commitment(
                    self.commitments(),
                    challenge,
                    self.commitments().len(),
                )
            }),
            self.commitments().len() == 1 && self.evaluations().len() == 1 ==> r is Ok
                && r->Ok_0.evaluated_point@ == self.evaluations()[0]@
                && r->Ok_0.commitment_to_polynomial@ == self.commitments()[0]@,
    {
        let n = self.commitments_to_polynomials.len();
        if n == 0 {
            return Err(Error::EmptyAggregation);
        }
        let challenge = transcript.challenge_scalar("aggregate_witness");
        let mut power = Scalar::one();
        let mut evaluation = Scalar::zero();
        let mut commitment = Commitment::identity();
        let mut i: usize = 0;
        while i < n
            invariant
                n == self.commitments_to_polynomials@.len(),
                i <= n,
                power@ == pow_mod(challenge@, i as nat),
                evaluation@ == folded_evaluation(
                    self.evaluated_points@,
                    challenge@,
                    vstd::math::min(i as int, self.evaluated_points@.len() as int) as nat,
                ),
                commitment@ == folded_commitment(
                    self.commitments_to_polynomials@,
                    challenge@,
                    i as nat,
                ),
                i == 1 && self.evaluated_points@.len() >= 1 ==> evaluation@
                    == self.evaluated_points@[0]@,
                i == 1 ==> commitment@ == self.commitments_to_polynomials@[0]@,
            decreases n - i,
        {
            if i < self.evaluated_points.len() {
                let eval = self.evaluated_points[i];
                let weighted = power.mul(&eval);
                proof {
                    use_type_invariant(eval);
                    if i == 0 {
                        assert(mul_mod(1, eval@) == eval@) by {
                            assert(1 * eval@ == eval@);
                            vstd::arithmetic::div_mod::lemma_small_mod(eval@, modulus());
                        }
                        assert(add_mod(0, eval@) == eval@) by {
                            vstd::arithmetic::div_mod::lemma_small_mod(eval@, modulus());
                        }
                    }
                }
                evaluation = evaluation.add(&weighted);
            }
            let term = self.commitments_to_polynomials[i].scale(&power);
            commitment = commitment.add(&term);
            power = power.mul(&challenge);
            i += 1;
        }
        Ok(
            KZGProof {
                commitment_to_witness: self.commitment_to_witness,
                evaluated_point: evaluation,
                commitment_to_polynomial: commitment,
            },
        )
    }
}

} // verus!
