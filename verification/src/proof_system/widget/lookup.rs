//! Lookup gates.
//!
//! The lookup argument holds four relations, each weighted with a power of
//! the lookup separation challenge: the compressed wires agree with the
//! query where the lookup selector is set; the product accumulator steps by
//! the quotient of query and table against the two sorted halves; and the
//! accumulator starts at one.

use crate::commitment::Commitment;
use crate::field::{add_mod, mul_mod, neg_mod, sub_mod, Scalar};
use crate::lookup::multiset::MultiSet;
use crate::poly::{Evaluations, Polynomial};
use crate::proof_system::linearisation_poly::ProofEvaluations;
use crate::util::{lc, lc_value};
use vstd::prelude::*;

verus! {

/// The lookup selector and the four columns of the lookup table.
#[derive(Debug, PartialEq, Eq)]
pub struct ProverKey {
    /// Lookup selector.
    pub q_lookup: (Polynomial, Evaluations),
    /// Column 1 of the lookup table.
    pub table_1: MultiSet,
    /// Column 2 of the lookup table.
    pub table_2: MultiSet,
    /// Column 3 of the lookup table.
    pub table_3: MultiSet,
    /// Column 4 of the lookup table.
    pub table_4: MultiSet,
}

/// The values around one point of the domain that the lookup argument
/// reads, and the challenges.
#[derive(Clone, Copy, Debug)]
pub struct LookupPoint {
    /// The compressed query at the point.
    pub f: Scalar,
    /// The compressed table at the point.
    pub table: Scalar,
    /// The compressed table at the next point.
    pub table_next: Scalar,
    /// The first sorted half at the point.
    pub h1: Scalar,
    /// The first sorted half at the next point.
    pub h1_next: Scalar,
    /// The second sorted half at the point.
    pub h2: Scalar,
    /// The product accumulator at the point.
    pub z2: Scalar,
    /// The product accumulator at the next point.
    pub z2_next: Scalar,
    /// The first Lagrange polynomial at the point.
    pub l1: Scalar,
    /// The challenge `delta`.
    pub delta: Scalar,
    /// The challenge `epsilon`.
    pub epsilon: Scalar,
    /// The challenge `zeta`.
    pub zeta: Scalar,
    /// The lookup separation challenge.
    pub lookup_sep: Scalar,
}

/// The wires of a row compressed into one element:
/// `w_l + zeta * w_r + zeta^2 * w_o + zeta^3 * w_4`.
pub open spec fn compressed_row(
    w_l: Scalar,
    w_r: Scalar,
    w_o: Scalar,
    w_4: Scalar,
    zeta: nat,
) -> nat {
    lc_value(seq![w_l, w_r, w_o, w_4], zeta, 0)
}

/// `epsilon * (1 + delta)`.
pub open spec fn epsilon_one_plus_delta(delta: nat, epsilon: nat) -> nat {
    mul_mod(epsilon, add_mod(delta, 1))
}

/// The first relation: `q_lookup * (compressed - f) * lookup_sep`.
pub open spec fn query_term(q_lookup: nat, compressed: nat, f: nat, lookup_sep: nat) -> nat {
    mul_mod(mul_mod(q_lookup, sub_mod(compressed, f)), lookup_sep)
}

/// The second relation:
/// `z2 * (1 + delta) * (epsilon + f) * (epsilon (1 + delta) + t + delta * t_next) * lookup_sep^2`.
pub open spec fn table_term(
    z2: nat,
    f: nat,
    table: nat,
    table_next: nat,
    delta: nat,
    epsilon: nat,
    lookup_sep: nat,
) -> nat {
    let b_1 = add_mod(epsilon, f);
    let b_2 = add_mod(
        add_mod(epsilon_one_plus_delta(delta, epsilon), table),
        mul_mod(delta, table_next),
    );
    mul_mod(
        mul_mod(mul_mod(mul_mod(z2, add_mod(delta, 1)), b_1), b_2),
        mul_mod(lookup_sep, lookup_sep),
    )
}

/// The third relation:
/// `-z2_next * (epsilon (1 + delta) + h1 + delta * h2)
/// * (epsilon (1 + delta) + h2 + delta * h1_next) * lookup_sep^2`.
pub open spec fn sorted_term(
    z2_next: nat,
    h1: nat,
    h1_next: nat,
    h2: nat,
    delta: nat,
    epsilon: nat,
    lookup_sep: nat,
) -> nat {
    let c_1 = add_mod(add_mod(epsilon_one_plus_delta(delta, epsilon), h1), mul_mod(delta, h2));
    let c_2 = add_mod(
        add_mod(epsilon_one_plus_delta(delta, epsilon), h2),
        mul_mod(delta, h1_next),
    );
    mul_mod(mul_mod(mul_mod(neg_mod(z2_next), c_1), c_2), mul_mod(lookup_sep, lookup_sep))
}

/// The fourth relation: `(z2 - 1) * l1 * lookup_sep^3`.
pub open spec fn start_term(z2: nat, l1: nat, lookup_sep: nat) -> nat {
    mul_mod(
        mul_mod(sub_mod(z2, 1), l1),
        mul_mod(mul_mod(lookup_sep, lookup_sep), lookup_sep),
    )
}

/// What the lookup argument adds to the quotient at one point: the sum of
/// the four relations.
pub open spec fn lookup_quotient(q_lookup: nat, compressed: nat, at: LookupPoint) -> nat {
    add_mod(
        add_mod(
            add_mod(
                query_term(q_lookup, compressed, at.f@, at.lookup_sep@),
                table_term(
                    at.z2@,
                    at.f@,
                    at.table@,
                    at.table_next@,
                    at.delta@,
                    at.epsilon@,
                    at.lookup_sep@,
                ),
            ),
            sorted_term(
                at.z2_next@,
                at.h1@,
                at.h1_next@,
                at.h2@,
                at.delta@,
                at.epsilon@,
                at.lookup_sep@,
            ),
        ),
        start_term(at.z2@, at.l1@, at.lookup_sep@),
    )
}

/// The scalar that weights the lookup selector in the linearisation:
/// `(compressed - f) * lookup_sep`.
pub open spec fn selector_weight(compressed: nat, f: nat, lookup_sep: nat) -> nat {
    mul_mod(sub_mod(compressed, f), lookup_sep)
}

/// The scalar that weights the accumulator in the linearisation for the
/// second relation:
/// `(1 + delta) * (epsilon + f) * (epsilon (1 + delta) + t + delta * t_next) * lookup_sep^2`.
pub open spec fn accumulator_weight(
    f: nat,
    table: nat,
    table_next: nat,
    delta: nat,
    epsilon: nat,
    lookup_sep: nat,
) -> nat {
    let b_0 = add_mod(epsilon, f);
    let b_1 = add_mod(
        add_mod(epsilon_one_plus_delta(delta, epsilon), table),
        mul_mod(delta, table_next),
    );
    mul_mod(mul_mod(mul_mod(add_mod(delta, 1), b_0), b_1), mul_mod(lookup_sep, lookup_sep))
}

/// The scalar that weights the first sorted half in the linearisation:
/// `-z2_next * separation * (epsilon (1 + delta) + h2 + delta * h1)`, where
/// `separation` is the power of the separation challenge that the caller
/// uses for the third relation.
pub open spec fn sorted_weight(
    z2_next: nat,
    h1: nat,
    h2: nat,
    delta: nat,
    epsilon: nat,
    separation: nat,
) -> nat {
    let c_0 = mul_mod(neg_mod(z2_next), separation);
    let c_1 = add_mod(add_mod(epsilon_one_plus_delta(delta, epsilon), h2), mul_mod(delta, h1));
    mul_mod(c_0, c_1)
}

/// The scalar that weights the accumulator in the linearisation for the
/// fourth relation: `l1 * lookup_sep^3`.
pub open spec fn start_weight(l1: nat, lookup_sep: nat) -> nat {
    mul_mod(l1, mul_mod(lookup_sep, mul_mod(lookup_sep, lookup_sep)))
}

impl ProverKey {
    /// What the lookup argument adds to the quotient at the `index`-th point
    /// of the domain.
    pub fn compute_quotient_i(
        &self,
        index: usize,
        w_l_i: Scalar,
        w_r_i: Scalar,
        w_o_i: Scalar,
        w_4_i: Scalar,
        f_i: Scalar,
        table_i: Scalar,
        table_i_next: Scalar,
        h1_i: Scalar,
        h1_i_next: Scalar,
        h2_i: Scalar,
        z2_i: Scalar,
        z2_i_next: Scalar,
        l1_i: Scalar,
        delta: Scalar,
        epsilon: Scalar,
        zeta: Scalar,
        lookup_sep: Scalar,
    ) -> (r: Scalar)
        requires
            index < self.q_lookup.1@.len(),
        ensures
            r@ == lookup_quotient(
                self.q_lookup.1@[index as int]@,
                compressed_row(w_l_i, w_r_i, w_o_i, w_4_i, zeta@),
                (LookupPoint {
                    f: f_i,
                    table: table_i,
                    table_next: table_i_next,
                    h1: h1_i,
                    h1_next: h1_i_next,
                    h2: h2_i,
                    z2: z2_i,
                    z2_next: z2_i_next,
                    l1: l1_i,
                    delta,
                    epsilon,
                    zeta,
                    lookup_sep,
                }),
            ),
    {
        let at = LookupPoint {
            f: f_i,
            table: table_i,
            table_next: table_i_next,
            h1: h1_i,
            h1_next: h1_i_next,
            h2: h2_i,
            z2: z2_i,
            z2_next: z2_i_next,
            l1: l1_i,
            delta,
            epsilon,
            zeta,
            lookup_sep,
        };
        let q_lookup_i = self.q_lookup.1.get(index);
        let compressed_tuple = ProverKey::compress(w_l_i, w_r_i, w_o_i, w_4_i, at.zeta);
        let lookup_sep_sq = at.lookup_sep.square();
        let lookup_sep_cu = lookup_sep_sq.mul(&at.lookup_sep);
        let one_plus_delta = at.delta.add(&Scalar::one());
        let epsilon_one_plus_delta = at.epsilon.mul(&one_plus_delta);
        let a = q_lookup_i.mul(&compressed_tuple.sub(&at.f)).mul(&at.lookup_sep);
        let b_1 = at.epsilon.add(&at.f);
        let b_2 = epsilon_one_plus_delta.add(&at.table).add(&at.delta.mul(&at.table_next));
        let b = at.z2.mul(&one_plus_delta).mul(&b_1).mul(&b_2).mul(&lookup_sep_sq);
        let c_1 = epsilon_one_plus_delta.add(&at.h1).add(&at.delta.mul(&at.h2));
        let c_2 = epsilon_one_plus_delta.add(&at.h2).add(&at.delta.mul(&at.h1_next));
        let c = at.z2_next.neg().mul(&c_1).mul(&c_2).mul(&lookup_sep_sq);
        let d = at.z2.sub(&Scalar::one()).mul(&at.l1).mul(&lookup_sep_cu);
        a.add(&b).add(&c).add(&d)
    }

    /// What the lookup argument adds to the linearisation polynomial: the
    /// lookup selector, the accumulator and the first sorted half, each
    /// weighted with the scalar that its relation leaves at the evaluation
    /// point.
    pub fn compute_linearisation(
        &self,
        l1_eval: Scalar,
        a_eval: Scalar,
        b_eval: Scalar,
        c_eval: Scalar,
        d_eval: Scalar,
        f_eval: Scalar,
        table_eval: Scalar,
        table_next_eval: Scalar,
        h1_eval: Scalar,
        h2_eval: Scalar,
        z2_next_eval: Scalar,
        delta: Scalar,
        epsilon: Scalar,
        zeta: Scalar,
        z2_poly: &Polynomial,
        h1_poly: &Polynomial,
        lookup_separation_challenge: Scalar,
    ) -> (r: Polynomial)
        ensures
            r.normalized(),
            forall|k: int|
                #[trigger] r.coeff(k) == add_mod(
                    add_mod(
                        add_mod(
                            mul_mod(
                                self.q_lookup.0.coeff(k),
                                selector_weight(
                                    compressed_row(a_eval, b_eval, c_eval, d_eval, zeta@),
                                    f_eval@,
                                    lookup_separation_challenge@,
                                ),
                            ),
                            mul_mod(
                                z2_poly.coeff(k),
                                accumulator_weight(
                                    f_eval@,
                                    table_eval@,
                                    table_next_eval@,
                                    delta@,
                                    epsilon@,
                                    lookup_separation_challenge@,
                                ),
                            ),
                        ),
                        mul_mod(
                            h1_poly.coeff(k),
                            sorted_weight(
                                z2_next_eval@,
                                h1_eval@,
                                h2_eval@,
                                delta@,
                                epsilon@,
                                mul_mod(
                                    lookup_separation_challenge@,
                                    lookup_separation_challenge@,
                                ),
                            ),
                        ),
                    ),
                    mul_mod(
                        z2_poly.coeff(k),
                        start_weight(l1_eval@, lookup_separation_challenge@),
                    ),
                ),
    {
        let a_0 = ProverKey::compress(a_eval, b_eval, c_eval, d_eval, zeta);
        let a = self.q_lookup.0.scale(&a_0.sub(&f_eval).mul(&lookup_separation_challenge));
        let lookup_sep_sq = lookup_separation_challenge.square();
        let lookup_sep_cu = lookup_separation_challenge.mul(&lookup_sep_sq);
        let one_plus_delta = delta.add(&Scalar::one());
        let epsilon_one_plus_delta = epsilon.mul(&one_plus_delta);
        let b_0 = epsilon.add(&f_eval);
        let b_1 = epsilon_one_plus_delta.add(&table_eval).add(&delta.mul(&table_next_eval));
        let b = z2_poly.scale(&one_plus_delta.mul(&b_0).mul(&b_1).mul(&lookup_sep_sq));
        let c_0 = z2_next_eval.neg().mul(&lookup_sep_sq);
        let c_1 = epsilon_one_plus_delta.add(&h2_eval).add(&delta.mul(&h1_eval));
        let c = h1_poly.scale(&c_0.mul(&c_1));
        let d = z2_poly.scale(&l1_eval.mul(&lookup_sep_cu));
        a.add(&b).add(&c).add(&d)
    }

    /// Compresses the wires of a row into one element with the powers of
    /// `zeta`.
    pub fn compress(w_l: Scalar, w_r: Scalar, w_o: Scalar, w_4: Scalar, zeta: Scalar) -> (r: Scalar)
        ensures
            r@ == compressed_row(w_l, w_r, w_o, w_4, zeta@),
    {
        let values: Vec<Scalar> = vec![w_l, w_r, w_o, w_4];
        assert(values@ =~= seq![w_l, w_r, w_o, w_4]);
        lc(values.as_slice(), &zeta)
    }
}

/// The commitment to the lookup selector.
#[derive(Clone, Copy, Debug, PartialEq, Eq)]
pub struct VerifierKey {
    /// Commitment to the lookup selector.
    pub q_lookup: Commitment,
}

/// The scalar with which the verifier weights the commitment to the lookup
/// selector: `(a - f + zeta * b + zeta^2 * c + zeta^3 * d) * lookup_sep`.
pub open spec fn verifier_selector_weight(
    a: nat,
    b: nat,
    c: nat,
    d: nat,
    f: nat,
    zeta: nat,
    lookup_sep: nat,
) -> nat {
    let zeta_sq = mul_mod(zeta, zeta);
    let zeta_cu = mul_mod(zeta_sq, zeta);
    let f_0 = add_mod(
        add_mod(add_mod(sub_mod(a, f), mul_mod(zeta, b)), mul_mod(zeta_sq, c)),
        mul_mod(zeta_cu, d),
    );
    mul_mod(f_0, lookup_sep)
}

/// The scalar with which the verifier weights the commitment to the
/// accumulator: the weights of the second and of the fourth relation
/// together.
pub open spec fn verifier_accumulator_weight(
    f: nat,
    table: nat,
    table_next: nat,
    l1: nat,
    delta: nat,
    epsilon: nat,
    lookup_sep: nat,
) -> nat {
    let one_plus_delta = add_mod(1, delta);
    let eopd = mul_mod(epsilon, one_plus_delta);
    let sep_sq = mul_mod(lookup_sep, lookup_sep);
    let sep_cu = mul_mod(sep_sq, lookup_sep);
    let z_0 = add_mod(epsilon, f);
    let z_1 = add_mod(add_mod(eopd, table), mul_mod(delta, table_next));
    let z_2 = mul_mod(l1, sep_cu);
    add_mod(mul_mod(mul_mod(mul_mod(one_plus_delta, z_0), z_1), sep_sq), z_2)
}

impl VerifierKey {
    /// Adds what the lookup argument contributes to the commitment to the
    /// linearisation polynomial: three scalars and, beside them, the
    /// commitments to the lookup selector, to the accumulator and to the
    /// first sorted half.
    pub fn compute_linearisation_commitment(
        &self,
        scalars: &mut Vec<Scalar>,
        points: &mut Vec<Commitment>,
        evaluations: &ProofEvaluations,
        challenges: (Scalar, Scalar, Scalar),
        lookup_sep: Scalar,
        l1_eval: Scalar,
        z2_comm: Commitment,
        h1_comm: Commitment,
    )
        ensures
            final(points)@ == old(points)@ + seq![self.q_lookup, z2_comm, h1_comm],
            final(scalars)@.len() == old(scalars)@.len() + 3,
            final(scalars)@.take(old(scalars)@.len() as int) == old(scalars)@,
            crate::poly::values(final(scalars)@.skip(old(scalars)@.len() as int)) == seq![
                verifier_selector_weight(
                    evaluations.wire_evals.a_eval@,
                    evaluations.wire_evals.b_eval@,
                    evaluations.wire_evals.c_eval@,
                    evaluations.wire_evals.d_eval@,
                    evaluations.lookup_evals.f_eval@,
                    challenges.2@,
                    lookup_sep@,
                ),
                verifier_accumulator_weight(
                    evaluations.lookup_evals.f_eval@,
                    evaluations.lookup_evals.table_eval@,
                    evaluations.lookup_evals.table_next_eval@,
                    l1_eval@,
                    challenges.0@,
                    challenges.1@,
                    lookup_sep@,
                ),
                sorted_weight(
                    evaluations.lookup_evals.z2_next_eval@,
                    evaluations.lookup_evals.h1_eval@,
                    evaluations.lookup_evals.h2_eval@,
                    challenges.0@,
                    challenges.1@,
                    mul_mod(lookup_sep@, lookup_sep@),
                ),
            ],
    {
        let (delta, epsilon, zeta) = challenges;
        let wires = evaluations.wire_evals;
        let lookups = evaluations.lookup_evals;
        let zeta_sq = zeta.mul(&zeta);
        let zeta_cu = zeta_sq.mul(&zeta);
        let f_0 = wires.a_eval.sub(&lookups.f_eval).add(&zeta.mul(&wires.b_eval)).add(
            &zeta_sq.mul(&wires.c_eval),
        ).add(&zeta_cu.mul(&wires.d_eval));
        let f = f_0.mul(&lookup_sep);
        scalars.push(f);
        points.push(self.q_lookup);
        let one_plus_delta = Scalar::one().add(&delta);
        let epsilon_one_plus_delta = epsilon.mul(&one_plus_delta);
        let lookup_sep_sq = lookup_sep.square();
        let lookup_sep_cu = lookup_sep_sq.mul(&lookup_sep);
        let z_0 = epsilon.add(&lookups.f_eval);
        let z_1 = epsilon_one_plus_delta.add(&lookups.table_eval).add(
            &delta.mul(&lookups.table_next_eval),
        );
        let z_2 = l1_eval.mul(&lookup_sep_cu);
        let z = one_plus_delta.mul(&z_0).mul(&z_1).mul(&lookup_sep_sq).add(&z_2);
        scalars.push(z);
        points.push(z2_comm);
        let w_0 = lookups.z2_next_eval.neg().mul(&lookup_sep_sq);
        let w_1 = epsilon_one_plus_delta.add(&lookups.h2_eval).add(&delta.mul(&lookups.h1_eval));
        let w = w_0.mul(&w_1);
        proof {
            assert(add_mod(1, delta@) == add_mod(delta@, 1));
        }
        scalars.push(w);
        points.push(h1_comm);
        proof {
            assert(points@ =~= old(points)@ + seq![self.q_lookup, z2_comm, h1_comm]);
            assert(scalars@.take(old(scalars)@.len() as int) =~= old(scalars)@);
            assert(crate::poly::values(scalars@.skip(old(scalars)@.len() as int)) =~= seq![
                f@,
                z@,
                w@,
            ]);
        }
    }
}

} // verus!
