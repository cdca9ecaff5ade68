//! Range gates.
//!
//! A range gate holds four quads: each of four differences of neighbouring
//! wires has to be one of the digits 0, 1, 2 and 3. The polynomial
//! `delta(x) = x (x - 1) (x - 2) (x - 3)` vanishes on these digits and, the
//! modulus being prime, nowhere else.

use crate::field::{add_mod, modulus, mul_mod, sub_mod, Scalar};
use crate::proof_system::linearisation_poly::{labelled, CustomEvaluations, WitnessValues};
use crate::util::{is_prime, lemma_prime_divides_factor};
use vstd::arithmetic::div_mod::{lemma_mul_mod_noop_general, lemma_small_mod};
use vstd::prelude::*;

verus! {

/// `x (x - 1) (x - 2) (x - 3)` in the scalar field.
pub open spec fn delta_value(x: nat) -> nat {
    ((x * (x - 1) * (x - 2) * (x - 3)) % (modulus() as int)) as nat
}

/// The difference `x - 4 y` in the scalar field.
pub open spec fn quad(x: nat, y: nat) -> nat {
    sub_mod(x, mul_mod(4, y))
}

/// What a range gate adds to the quotient: the four quads of neighbouring
/// wires under `delta`, the `i`-th weighted with the `i`-th power of the
/// square of the separation challenge, and the whole weighted with the
/// challenge.
pub open spec fn range_constraint(
    separation_challenge: nat,
    a: nat,
    b: nat,
    c: nat,
    d: nat,
    d_next: nat,
) -> nat {
    let kappa = mul_mod(separation_challenge, separation_challenge);
    let kappa_sq = mul_mod(kappa, kappa);
    let kappa_cu = mul_mod(kappa_sq, kappa);
    let b_1 = delta_value(quad(c, d));
    let b_2 = mul_mod(delta_value(quad(b, c)), kappa);
    let b_3 = mul_mod(delta_value(quad(a, b)), kappa_sq);
    let b_4 = mul_mod(delta_value(quad(d_next, a)), kappa_cu);
    mul_mod(add_mod(add_mod(add_mod(b_1, b_2), b_3), b_4), separation_challenge)
}

/// The label under which a proof carries the fourth wire at the next point
/// of the domain.
pub open spec fn d_next_label() -> Seq<u8> {
    seq![100u8, 95u8, 110u8, 101u8, 120u8, 116u8, 95u8, 101u8, 118u8, 97u8, 108u8]
}

/// `delta` vanishes on the digits: for `x` among 0, 1, 2 and 3 the value
/// `x (x - 1) (x - 2) (x - 3)` is zero.
pub proof fn lemma_delta_vanishes_on_digits(x: nat)
    requires
        x <= 3,
    ensures
        delta_value(x) == 0,
{
    assert(x * (x - 1) * (x - 2) * (x - 3) == 0) by (nonlinear_arith)
        requires
            0 <= x <= 3,
    ;
}

/// The zero set of `delta`: in a field of prime order, and so in the scalar
/// field if its modulus is prime, `x (x - 1) (x - 2) (x - 3)` is zero for
/// the digits 0, 1, 2 and 3 and for no other element.
pub proof fn lemma_delta_zero_set(x: nat)
    requires
        is_prime(modulus()),
        x < modulus(),
    ensures
        delta_value(x) == 0 <==> x <= 3,
{
    if x <= 3 {
        lemma_delta_vanishes_on_digits(x);
    } else {
        if delta_value(x) == 0 {
            let p = modulus();
            let f0: nat = x;
            let f1: nat = (x - 1) as nat;
            let f2: nat = (x - 2) as nat;
            let f3: nat = (x - 3) as nat;
            assert(x * (x - 1) * (x - 2) * (x - 3) == f3 * (f0 * f1 * f2)) by (nonlinear_arith)
                requires
                    f0 == x,
                    f1 == x - 1,
                    f2 == x - 2,
                    f3 == x - 3,
            ;
            lemma_prime_divides_factor(p, f3, f0 * f1 * f2);
            assert(f0 * f1 * f2 == f2 * (f0 * f1)) by (nonlinear_arith);
            lemma_prime_divides_factor(p, f2, f0 * f1);
            assert(f0 * f1 == f1 * f0) by (nonlinear_arith);
            lemma_prime_divides_factor(p, f1, f0);
            lemma_small_mod(f0, p);
        }
    }
}

/// Computes `f (f - 1) (f - 2) (f - 3)`.
pub fn delta(f: Scalar) -> (r: Scalar)
    ensures
        r@ == delta_value(f@),
{
    let f_1 = f.sub(&Scalar::one());
    let f_2 = f.sub(&Scalar::from_u64(2));
    let f_3 = f.sub(&Scalar::from_u64(3));
    let t1 = f.mul(&f_1);
    let t2 = t1.mul(&f_2);
    let r = t2.mul(&f_3);
    proof {
        let p = modulus() as int;
        let x = f@ as int;
        lemma_mul_mod_noop_general(x, x - 1, p);
        assert(t1@ == (x * (x - 1)) % p);
        lemma_mul_mod_noop_general(x * (x - 1), x - 2, p);
        assert(t2@ == (x * (x - 1) * (x - 2)) % p);
        lemma_mul_mod_noop_general(x * (x - 1) * (x - 2), x - 3, p);
    }
    r
}

/// The value that a range gate needs beside the wires.
#[derive(Clone, Copy, Debug, PartialEq, Eq)]
pub struct RangeVals {
    /// The fourth wire at the next point of the domain.
    pub d_next_eval: Scalar,
}

impl RangeVals {
    /// Picks the value of the fourth wire at the next point of the domain
    /// from the evaluations of a proof, if the proof carries it.
    pub fn from_evaluations(custom_evals: &CustomEvaluations) -> (r: Option<RangeVals>)
        ensures
            r is Some <==> labelled(custom_evals.vals@, d_next_label()) is Some,
            r matches Some(vals) ==> Some(vals.d_next_eval) == labelled(
                custom_evals.vals@,
                d_next_label(),
            ),
    {
        let label: Vec<u8> = vec![
            100u8,
            95u8,
            110u8,
            101u8,
            120u8,
            116u8,
            95u8,
            101u8,
            118u8,
            97u8,
            108u8,
        ];
        assert(label@ =~= d_next_label());
        match custom_evals.get(label.as_slice()) {
            Some(d_next_eval) => Some(RangeVals { d_next_eval }),
            None => None,
        }
    }
}

/// The range gate.
#[derive(Clone, Copy, Debug, Default, PartialEq, Eq, Hash)]
pub struct Range;

impl Range {
    /// What a range gate adds to the quotient at one point.
    pub fn constraints(
        separation_challenge: Scalar,
        wit_vals: WitnessValues,
        custom_vals: RangeVals,
    ) -> (r: Scalar)
        ensures
            r@ == range_constraint(
                separation_challenge@,
                wit_vals.a_eval@,
                wit_vals.b_eval@,
                wit_vals.c_eval@,
                wit_vals.d_eval@,
                custom_vals.d_next_eval@,
            ),
    {
        let four = Scalar::from_u64(4);
        let kappa = separation_challenge.square();
        let kappa_sq = kappa.square();
        let kappa_cu = kappa_sq.mul(&kappa);
        let b_1 = delta(wit_vals.c_eval.sub(&four.mul(&wit_vals.d_eval)));
        let b_2 = delta(wit_vals.b_eval.sub(&four.mul(&wit_vals.c_eval))).mul(&kappa);
        let b_3 = delta(wit_vals.a_eval.sub(&four.mul(&wit_vals.b_eval))).mul(&kappa_sq);
        let b_4 = delta(custom_vals.d_next_eval.sub(&four.mul(&wit_vals.a_eval))).mul(&kappa_cu);
        b_1.add(&b_2).add(&b_3).add(&b_4).mul(&separation_challenge)
    }
}

} // verus!
