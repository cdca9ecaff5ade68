use ark_bls12_381::Fr;
use ark_ff::{Field, PrimeField};
use plonk_core::commitment::Commitment;
use plonk_core::field::Scalar;
use plonk_core::lookup::multiset::MultiSet;
use plonk_core::poly::{EvaluationDomain, Evaluations, Polynomial};
use plonk_core::proof_system::linearisation_poly::{
    CustomEvaluations, LookupEvaluations, ProofEvaluations, WitnessValues,
};
use plonk_core::proof_system::widget::arithmetic;
use plonk_core::proof_system::widget::lookup;
use plonk_core::proof_system::widget::range::{delta, Range, RangeVals};
use plonk_core::util::{check_power_of_two, lc, powers_of};

fn s(v: u64) -> Scalar {
    Scalar::from_u64(v)
}

fn to_scalar(x: Fr) -> Scalar {
    let l = x.into_repr().0;
    Scalar::from_limbs(l[0], l[1], l[2], l[3]).unwrap()
}

fn to_fr(s: &Scalar) -> Fr {
    let (l0, l1, l2, l3) = s.limbs();
    Fr::from_repr(ark_ff::BigInteger256([l0, l1, l2, l3])).unwrap()
}

fn poly(coeffs: &[u64]) -> Polynomial {
    Polynomial::from_coefficients_vec(coeffs.iter().map(|c| s(*c)).collect())
}

fn column(coeffs: &[u64], evals: &[u64]) -> (Polynomial, Evaluations) {
    (
        poly(coeffs),
        Evaluations {
            evals: evals.iter().map(|c| s(*c)).collect(),
            domain: EvaluationDomain::new(evals.len()).unwrap(),
        },
    )
}

#[test]
fn delta_vanishes_on_the_digits_only() {
    for x in 0..4u64 {
        assert_eq!(delta(s(x)), Scalar::zero());
    }
    assert_eq!(delta(s(4)), s(24));
    assert_eq!(delta(s(5)), s(120));
    assert_eq!(delta(s(10)), s(10 * 9 * 8 * 7));
    let minus_one = Scalar::one().neg();
    // (-1)(-2)(-3)(-4)
    assert_eq!(delta(minus_one), s(24));
    for x in [4u64, 7, 1 << 40, u64::MAX] {
        assert_ne!(delta(s(x)), Scalar::zero());
    }
}

#[test]
fn range_constraint_vanishes_on_a_chain_of_quads() {
    // d = 1, c = 4 d + 2, b = 4 c + 3, a = 4 b + 0, d_next = 4 a + 1
    let d = 1u64;
    let c = 4 * d + 2;
    let b = 4 * c + 3;
    let a = 4 * b;
    let d_next = 4 * a + 1;
    let wires = WitnessValues { a_eval: s(a), b_eval: s(b), c_eval: s(c), d_eval: s(d) };
    let vals = RangeVals { d_next_eval: s(d_next) };
    assert_eq!(Range::constraints(s(7), wires, vals), Scalar::zero());
    let broken = RangeVals { d_next_eval: s(d_next + 4) };
    assert_ne!(Range::constraints(s(7), wires, broken), Scalar::zero());
}

#[test]
fn range_constraint_weights_the_quads() {
    let wires = WitnessValues { a_eval: s(0), b_eval: s(0), c_eval: s(4), d_eval: s(0) };
    let vals = RangeVals { d_next_eval: s(5) };
    // b_1 = delta(4) = 24, b_2 = delta(-16) * 4, b_3 = 0, b_4 = delta(5) * 64, sep = 2
    let sep = Fr::from(2u64);
    let d = |x: Fr| x * (x - Fr::from(1u64)) * (x - Fr::from(2u64)) * (x - Fr::from(3u64));
    let kappa = sep * sep;
    let expected = (d(Fr::from(4u64))
        + d(-Fr::from(16u64)) * kappa
        + d(Fr::from(0u64)) * kappa * kappa
        + d(Fr::from(5u64)) * kappa * kappa * kappa)
        * sep;
    assert_eq!(Range::constraints(s(2), wires, vals), to_scalar(expected));
}

#[test]
fn range_values_come_from_the_labelled_evaluations() {
    let evals = CustomEvaluations {
        vals: vec![(b"other".to_vec(), s(1)), (b"d_next_eval".to_vec(), s(9))],
    };
    assert_eq!(RangeVals::from_evaluations(&evals), Some(RangeVals { d_next_eval: s(9) }));
    assert_eq!(evals.get(b"other"), Some(s(1)));
    assert_eq!(evals.get(b"d_next"), None);
    let none = CustomEvaluations { vals: vec![(b"other".to_vec(), s(1))] };
    assert_eq!(RangeVals::from_evaluations(&none), None);
}

fn arithmetic_key() -> arithmetic::ProverKey {
    arithmetic::ProverKey {
        q_m: column(&[1, 2], &[2, 0]),
        q_l: column(&[3], &[3, 0]),
        q_r: column(&[0, 0, 4], &[5, 0]),
        q_o: column(&[5], &[7, 0]),
        q_4: column(&[6], &[11, 0]),
        q_c: column(&[7, 8], &[13, 1]),
        q_arith: column(&[1], &[3, 0]),
    }
}

#[test]
fn arithmetic_quotient_is_the_gate_relation() {
    let key = arithmetic_key();
    // 3 * (10*20*2 + 10*3 + 20*5 + 30*7 + 40*11 + 13)
    let expected = 3 * (10 * 20 * 2 + 10 * 3 + 20 * 5 + 30 * 7 + 40 * 11 + 13);
    assert_eq!(key.compute_quotient_i(0, s(10), s(20), s(30), s(40)), s(expected));
    // the selector is off at the second point
    assert_eq!(key.compute_quotient_i(1, s(10), s(20), s(30), s(40)), Scalar::zero());
}

#[test]
fn arithmetic_linearisation_combines_the_selector_polynomials() {
    let key = arithmetic_key();
    let r = key.compute_linearisation(s(2), s(3), s(5), s(7), s(10));
    // ((1 + 2x) * 6 + 3 * 2 + 4x^2 * 3 + 5 * 5 + 6 * 7 + (7 + 8x)) * 10
    assert_eq!(r, poly(&[(6 + 6 + 25 + 42 + 7) * 10, (12 + 8) * 10, 12 * 10]));
    let off = key.compute_linearisation(s(2), s(3), s(5), s(7), s(0));
    assert_eq!(off, Polynomial::zero());
}

#[test]
fn polynomials_drop_trailing_zeros() {
    assert_eq!(poly(&[1, 0, 0]).coeffs().len(), 1);
    assert_eq!(poly(&[0, 0]), Polynomial::zero());
    let p = poly(&[1, 2, 3]);
    let q = Polynomial::from_coefficients_vec(vec![s(4), s(5), s(3).neg()]);
    assert_eq!(p.add(&q), poly(&[5, 7]));
    assert_eq!(p.scale(&s(3)), poly(&[3, 6, 9]));
    assert_eq!(p.scale(&Scalar::zero()), Polynomial::zero());
    assert_eq!(p.clone(), p);
    assert_eq!(p.add(&Polynomial::zero()), p);
}

#[test]
fn domains_have_the_next_power_of_two() {
    assert_eq!(EvaluationDomain::new(0).unwrap().size(), 1);
    assert_eq!(EvaluationDomain::new(1).unwrap().size(), 1);
    assert_eq!(EvaluationDomain::new(5).unwrap().size(), 8);
    assert_eq!(EvaluationDomain::new(8).unwrap().size(), 8);
    assert_eq!(EvaluationDomain::new(1 << 32).unwrap().size(), 1 << 32);
    assert!(EvaluationDomain::new((1 << 32) + 1).is_none());
}

#[test]
fn ifft_of_a_constant_is_the_constant() {
    let domain = EvaluationDomain::new(4).unwrap();
    let coeffs = domain.ifft(&vec![s(9), s(9), s(9), s(9)]);
    assert_eq!(coeffs, vec![s(9), s(0), s(0), s(0)]);
    let short = domain.ifft(&vec![s(4)]);
    assert_eq!(short.len(), 4);
    assert_eq!(short, vec![s(1), s(1), s(1), s(1)]);
}

fn proof_evaluations() -> ProofEvaluations {
    ProofEvaluations {
        wire_evals: WitnessValues { a_eval: s(2), b_eval: s(3), c_eval: s(5), d_eval: s(7) },
        q_arith_eval: s(11),
        lookup_evals: LookupEvaluations {
            q_lookup_eval: s(1),
            z2_next_eval: s(13),
            h1_eval: s(17),
            h1_next_eval: s(19),
            h2_eval: s(23),
            f_eval: s(29),
            table_eval: s(31),
            table_next_eval: s(37),
        },
    }
}

#[test]
fn arithmetic_verifier_key_pushes_six_terms() {
    let g = Commitment::identity();
    let key = arithmetic::VerifierKey { q_m: g, q_l: g, q_r: g, q_o: g, q_4: g, q_c: g, q_arith: g };
    let mut scalars = vec![s(1000)];
    let mut points = vec![];
    key.compute_linearisation_commitment(&mut scalars, &mut points, &proof_evaluations());
    assert_eq!(scalars, vec![s(1000), s(66), s(22), s(33), s(55), s(77), s(11)]);
    assert_eq!(points.len(), 6);
}

#[test]
fn lookup_compression_is_a_power_series_in_zeta() {
    let r = lookup::ProverKey::compress(s(1), s(2), s(3), s(4), s(10));
    assert_eq!(r, s(4321));
    assert_eq!(lc(&[s(1), s(2), s(3), s(4)], &s(10)), s(4321));
    assert_eq!(lc(&[], &s(10)), Scalar::zero());
    assert_eq!(lc(&[s(5)], &s(10)), s(5));
}

#[test]
fn powers_of_a_base() {
    assert_eq!(powers_of(&s(3), 4), vec![s(1), s(3), s(9), s(27), s(81)]);
    assert_eq!(powers_of(&s(3), 0), vec![s(1)]);
    assert!(check_power_of_two(1));
    assert!(check_power_of_two(1 << 40));
    assert!(!check_power_of_two(0));
    assert!(!check_power_of_two(12));
}

fn lookup_key() -> lookup::ProverKey {
    lookup::ProverKey {
        q_lookup: column(&[2, 1], &[3, 0]),
        table_1: MultiSet::new(),
        table_2: MultiSet::new(),
        table_3: MultiSet::new(),
        table_4: MultiSet::new(),
    }
}

#[test]
fn lookup_quotient_is_the_sum_of_its_four_relations() {
    let key = lookup_key();
    let f = |v: u64| Fr::from(v);
    let (w_l, w_r, w_o, w_4) = (f(1), f(2), f(3), f(4));
    let (f_i, t, t_next, h1, h1_next, h2) = (f(5), f(6), f(7), f(8), f(9), f(10));
    let (z2, z2_next, l1) = (f(11), f(12), f(13));
    let (delta, epsilon, zeta, sep) = (f(14), f(15), f(16), f(17));
    let compressed = w_l + zeta * w_r + zeta * zeta * w_o + zeta * zeta * zeta * w_4;
    let opd = delta + f(1);
    let eopd = epsilon * opd;
    let a = f(3) * (compressed - f_i) * sep;
    let b = z2 * opd * (epsilon + f_i) * (eopd + t + delta * t_next) * sep * sep;
    let c = -z2_next * (eopd + h1 + delta * h2) * (eopd + h2 + delta * h1_next) * sep * sep;
    let d = (z2 - f(1)) * l1 * sep * sep * sep;
    let r = key.compute_quotient_i(
        0,
        s(1),
        s(2),
        s(3),
        s(4),
        s(5),
        s(6),
        s(7),
        s(8),
        s(9),
        s(10),
        s(11),
        s(12),
        s(13),
        s(14),
        s(15),
        s(16),
        s(17),
    );
    assert_eq!(r, to_scalar(a + b + c + d));
}

#[test]
fn lookup_linearisation_weights_three_polynomials() {
    let key = lookup_key();
    let f = |v: u64| Fr::from(v);
    let z2_poly = poly(&[1, 1, 1]);
    let h1_poly = poly(&[0, 5]);
    let r = key.compute_linearisation(
        s(13),
        s(1),
        s(2),
        s(3),
        s(4),
        s(5),
        s(6),
        s(7),
        s(8),
        s(10),
        s(12),
        s(14),
        s(15),
        s(16),
        &z2_poly,
        &h1_poly,
        s(17),
    );
    let (delta, epsilon, zeta, sep) = (f(14), f(15), f(16), f(17));
    let compressed = f(1) + zeta * f(2) + zeta * zeta * f(3) + zeta * zeta * zeta * f(4);
    let opd = delta + f(1);
    let eopd = epsilon * opd;
    let wa = (compressed - f(5)) * sep;
    let wb = opd * (epsilon + f(5)) * (eopd + f(6) + delta * f(7)) * sep * sep;
    let wc = -f(12) * sep * sep * (eopd + f(10) + delta * f(8));
    let wd = f(13) * sep * sep * sep;
    let expected = vec![f(2) * wa + wb + wd, wa + wb + f(5) * wc + wd, wb + wd];
    let got: Vec<Fr> = r.coeffs().iter().map(to_fr).collect();
    assert_eq!(got, expected);
    assert_eq!(f(2).pow([2u64]), f(4));
}

#[test]
fn lookup_verifier_key_pushes_three_terms() {
    let g = Commitment::identity();
    let key = lookup::VerifierKey { q_lookup: g };
    let mut scalars = vec![];
    let mut points = vec![g];
    let e = proof_evaluations();
    key.compute_linearisation_commitment(
        &mut scalars,
        &mut points,
        &e,
        (s(14), s(15), s(16)),
        s(17),
        s(13),
        g,
        g,
    );
    let f = |v: u64| Fr::from(v);
    let (delta, epsilon, zeta, sep) = (f(14), f(15), f(16), f(17));
    let f_0 = f(2) - f(29) + zeta * f(3) + zeta * zeta * f(5) + zeta * zeta * zeta * f(7);
    let opd = f(1) + delta;
    let eopd = epsilon * opd;
    let z = opd * (epsilon + f(29)) * (eopd + f(31) + delta * f(37)) * sep * sep
        + f(13) * sep * sep * sep;
    let w = -f(13) * sep * sep * (eopd + f(23) + delta * f(17));
    assert_eq!(scalars, vec![to_scalar(f_0 * sep), to_scalar(z), to_scalar(w)]);
    assert_eq!(points.len(), 4);
}
