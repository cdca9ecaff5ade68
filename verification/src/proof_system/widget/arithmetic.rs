//! Arithmetic gates.
//!
//! An arithmetic gate adds
//! `q_arith * (q_m * a * b + q_l * a + q_r * b + q_o * c + q_4 * d + q_c)`
//! to the quotient; where `q_arith` is zero it adds nothing.

use crate::commitment::Commitment;
use crate::field::{lemma_add_mod_residues, lemma_mul_mod_residues, modulus, mul_mod, Scalar};
use crate::poly::{Evaluations, Polynomial};
use crate::proof_system::linearisation_poly::ProofEvaluations;
use vstd::prelude::*;

verus! {

/// The selector polynomials of the arithmetic gates, each in coefficient
/// form and by its values on the domain of the quotient.
#[derive(Debug, PartialEq, Eq)]
pub struct ProverKey {
    /// Multiplication selector.
    pub q_m: (Polynomial, Evaluations),
    /// Left wire selector.
    pub q_l: (Polynomial, Evaluations),
    /// Right wire selector.
    pub q_r: (Polynomial, Evaluations),
    /// Output wire selector.
    pub q_o: (Polynomial, Evaluations),
    /// Fourth wire selector.
    pub q_4: (Polynomial, Evaluations),
    /// Constant selector.
    pub q_c: (Polynomial, Evaluations),
    /// Arithmetic selector.
    pub q_arith: (Polynomial, Evaluations),
}

/// The relation of an arithmetic gate on given selectors and wires:
/// `q_arith * (q_m * a * b + q_l * a + q_r * b + q_o * c + q_4 * d + q_c)`.
pub open spec fn arithmetic_value(
    q_m: nat,
    q_l: nat,
    q_r: nat,
    q_o: nat,
    q_4: nat,
    q_c: nat,
    q_arith: nat,
    a: nat,
    b: nat,
    c: nat,
    d: nat,
) -> nat {
    ((a * b * q_m + a * q_l + b * q_r + c * q_o + d * q_4 + q_c) * q_arith) % modulus()
}

impl ProverKey {
    /// Whether every selector has a value at the `index`-th point.
    pub open spec fn covers(&self, index: int) -> bool {
        &&& 0 <= index < self.q_m.1@.len()
        &&& index < self.q_l.1@.len()
        &&& index < self.q_r.1@.len()
        &&& index < self.q_o.1@.len()
        &&& index < self.q_4.1@.len()
        &&& index < self.q_c.1@.len()
        &&& index < self.q_arith.1@.len()
    }

    /// What the arithmetic gates add to the quotient at the `index`-th point
    /// of the domain, for the given values of the wires at that point.
    pub fn compute_quotient_i(
        &self,
        index: usize,
        w_l_i: Scalar,
        w_r_i: Scalar,
        w_o_i: Scalar,
        w_4_i: Scalar,
    ) -> (r: Scalar)
        requires
            self.covers(index as int),
        ensures
            r@ == arithmetic_value(
                self.q_m.1@[index as int]@,
                self.q_l.1@[index as int]@,
                self.q_r.1@[index as int]@,
                self.q_o.1@[index as int]@,
                self.q_4.1@[index as int]@,
                self.q_c.1@[index as int]@,
                self.q_arith.1@[index as int]@,
                w_l_i@,
                w_r_i@,
                w_o_i@,
                w_4_i@,
            ),
            self.q_arith.1@[index as int]@ == 0 ==> r@ == 0,
    {
        let q_m = self.q_m.1.get(index);
        let q_l = self.q_l.1.get(index);
        let q_r = self.q_r.1.get(index);
        let q_o = self.q_o.1.get(index);
        let q_4 = self.q_4.1.get(index);
        let q_c = self.q_c.1.get(index);
        let q_arith = self.q_arith.1.get(index);
        let t0 = w_l_i.mul(&w_r_i);
        let t1 = t0.mul(&q_m);
        let t2 = w_l_i.mul(&q_l);
        let t3 = w_r_i.mul(&q_r);
        let t4 = w_o_i.mul(&q_o);
        let t5 = w_4_i.mul(&q_4);
        let s1 = t1.add(&t2);
        let s2 = s1.add(&t3);
        let s3 = s2.add(&t4);
        let s4 = s3.add(&t5);
        let s5 = s4.add(&q_c);
        let r = s5.mul(&q_arith);
        proof {
            let (a, b, c, d) = (w_l_i@, w_r_i@, w_o_i@, w_4_i@);
            lemma_mul_mod_residues(a * b, q_m@);
            lemma_add_mod_residues(a * b * q_m@, a * q_l@);
            lemma_add_mod_residues(a * b * q_m@ + a * q_l@, b * q_r@);
            lemma_add_mod_residues(a * b * q_m@ + a * q_l@ + b * q_r@, c * q_o@);
            lemma_add_mod_residues(a * b * q_m@ + a * q_l@ + b * q_r@ + c * q_o@, d * q_4@);
            lemma_add_mod_residues(
                a * b * q_m@ + a * q_l@ + b * q_r@ + c * q_o@ + d * q_4@,
                q_c@,
            );
            lemma_mul_mod_residues(
                a * b * q_m@ + a * q_l@ + b * q_r@ + c * q_o@ + d * q_4@ + q_c@,
                q_arith@,
            );
            if q_arith@ == 0 {
                assert(s5@ * 0 == 0);
            }
        }
        r
    }

    /// What the arithmetic gates add to the linearisation polynomial: the
    /// relation with the selector polynomials in place of the selectors and
    /// the values of the wires at the evaluation point, coefficient by
    /// coefficient.
    pub fn compute_linearisation(
        &self,
        a_eval: Scalar,
        b_eval: Scalar,
        c_eval: Scalar,
        d_eval: Scalar,
        q_arith_eval: Scalar,
    ) -> (r: Polynomial)
        ensures
            r.normalized(),
            forall|k: int|
                #[trigger] r.coeff(k) == ((self.q_m.0.coeff(k) * (a_eval@ * b_eval@)
                    + self.q_l.0.coeff(k) * a_eval@ + self.q_r.0.coeff(k) * b_eval@
                    + self.q_o.0.coeff(k) * c_eval@ + self.q_4.0.coeff(k) * d_eval@
                    + self.q_c.0.coeff(k)) * q_arith_eval@) % modulus(),
    {
        let ab = a_eval.mul(&b_eval);
        let p1 = self.q_m.0.scale(&ab);
        let p2 = self.q_l.0.scale(&a_eval);
        let p3 = self.q_r.0.scale(&b_eval);
        let p4 = self.q_o.0.scale(&c_eval);
        let p5 = self.q_4.0.scale(&d_eval);
        let s1 = p1.add(&p2);
        let s2 = s1.add(&p3);
        let s3 = s2.add(&p4);
        let s4 = s3.add(&p5);
        let s5 = s4.add(&self.q_c.0);
        let r = s5.scale(&q_arith_eval);
        proof {
            assert forall|k: int|
                #[trigger] r.coeff(k) == ((self.q_m.0.coeff(k) * (a_eval@ * b_eval@)
                    + self.q_l.0.coeff(k) * a_eval@ + self.q_r.0.coeff(k) * b_eval@
                    + self.q_o.0.coeff(k) * c_eval@ + self.q_4.0.coeff(k) * d_eval@
                    + self.q_c.0.coeff(k)) * q_arith_eval@) % modulus() by {
                let (a, b, c, d) = (a_eval@, b_eval@, c_eval@, d_eval@);
                let (m, l, rr, o, f, cc) = (
                    self.q_m.0.coeff(k),
                    self.q_l.0.coeff(k),
                    self.q_r.0.coeff(k),
                    self.q_o.0.coeff(k),
                    self.q_4.0.coeff(k),
                    self.q_c.0.coeff(k),
                );
                lemma_mul_mod_residues(m, a * b);
                assert(p1.coeff(k) == (m * (a * b)) % modulus());
                assert(p2.coeff(k) == (l * a) % modulus());
                lemma_add_mod_residues(m * (a * b), l * a);
                assert(s1.coeff(k) == (m * (a * b) + l * a) % modulus());
                lemma_add_mod_residues(m * (a * b) + l * a, rr * b);
                assert(s2.coeff(k) == (m * (a * b) + l * a + rr * b) % modulus());
                lemma_add_mod_residues(m * (a * b) + l * a + rr * b, o * c);
                assert(s3.coeff(k) == (m * (a * b) + l * a + rr * b + o * c) % modulus());
                lemma_add_mod_residues(m * (a * b) + l * a + rr * b + o * c, f * d);
                assert(s4.coeff(k) == (m * (a * b) + l * a + rr * b + o * c + f * d) % modulus());
                lemma_add_mod_residues(m * (a * b) + l * a + rr * b + o * c + f * d, cc);
                assert(s5.coeff(k) == (m * (a * b) + l * a + rr * b + o * c + f * d + cc)
                    % modulus());
                lemma_mul_mod_residues(
                    m * (a * b) + l * a + rr * b + o * c + f * d + cc,
                    q_arith_eval@,
                );
            }
        }
        r
    }
}

/// The commitments to the selector polynomials of the arithmetic gates.
#[derive(Clone, Copy, Debug, PartialEq, Eq)]
pub struct VerifierKey {
    /// Commitment to the multiplication selector.
    pub q_m: Commitment,
    /// Commitment to the left wire selector.
    pub q_l: Commitment,
    /// Commitment to the right wire selector.
    pub q_r: Commitment,
    /// Commitment to the output wire selector.
    pub q_o: Commitment,
    /// Commitment to the fourth wire selector.
    pub q_4: Commitment,
    /// Commitment to the constant selector.
    pub q_c: Commitment,
    /// Commitment to the arithmetic selector.
    pub q_arith: Commitment,
}

/// The scalars with which the arithmetic gates weight the commitments to
/// their selectors in the commitment to the linearisation polynomial, in the
/// order of the selectors `q_m`, `q_l`, `q_r`, `q_o`, `q_4`, `q_c`.
pub open spec fn arithmetic_scalars(a: nat, b: nat, c: nat, d: nat, q_arith: nat) -> Seq<nat> {
    seq![
        mul_mod(mul_mod(a, b), q_arith),
        mul_mod(a, q_arith),
        mul_mod(b, q_arith),
        mul_mod(c, q_arith),
        mul_mod(d, q_arith),
        q_arith,
    ]
}

impl VerifierKey {
    /// Adds what the arithmetic gates contribute to the commitment to the
    /// linearisation polynomial: six scalars and, beside them, the
    /// commitments that they weight.
    pub fn compute_linearisation_commitment(
        &self,
        scalars: &mut Vec<Scalar>,
        points: &mut Vec<Commitment>,
        evaluations: &ProofEvaluations,
    )
        ensures
            final(points)@ == old(points)@ + seq![
                self.q_m,
                self.q_l,
                self.q_r,
                self.q_o,
                self.q_4,
                self.q_c,
            ],
            final(scalars)@.len() == old(scalars)@.len() + 6,
            final(scalars)@.take(old(scalars)@.len() as int) == old(scalars)@,
            crate::poly::values(final(scalars)@.skip(old(scalars)@.len() as int))
                == arithmetic_scalars(
                evaluations.wire_evals.a_eval@,
                evaluations.wire_evals.b_eval@,
                evaluations.wire_evals.c_eval@,
                evaluations.wire_evals.d_eval@,
                evaluations.q_arith_eval@,
            ),
    {
        let q_arith_eval = evaluations.q_arith_eval;
        let wires = evaluations.wire_evals;
        scalars.push(wires.a_eval.mul(&wires.b_eval).mul(&q_arith_eval));
        points.push(self.q_m);
        scalars.push(wires.a_eval.mul(&q_arith_eval));
        points.push(self.q_l);
        scalars.push(wires.b_eval.mul(&q_arith_eval));
        points.push(self.q_r);
        scalars.push(wires.c_eval.mul(&q_arith_eval));
        points.push(self.q_o);
        scalars.push(wires.d_eval.mul(&q_arith_eval));
        points.push(self.q_4);
        scalars.push(q_arith_eval);
        points.push(self.q_c);
        proof {
            assert(points@ =~= old(points)@ + seq![
                self.q_m,
                self.q_l,
                self.q_r,
                self.q_o,
                self.q_4,
                self.q_c,
            ]);
            assert(scalars@.take(old(scalars)@.len() as int) =~= old(scalars)@);
            assert(crate::poly::values(scalars@.skip(old(scalars)@.len() as int))
                =~= arithmetic_scalars(
                wires.a_eval@,
                wires.b_eval@,
                wires.c_eval@,
                wires.d_eval@,
                q_arith_eval@,
            ));
        }
    }
}

} // verus!
