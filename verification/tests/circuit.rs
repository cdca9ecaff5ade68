use plonk_core::circuit::{build_pi, PublicInputValue, VerifierData};
use plonk_core::commitment::Commitment;
use plonk_core::field::Scalar;
use plonk_core::proof_system::widget::arithmetic;
use plonk_core::proof_system::widget::lookup;
use plonk_core::proof_system::VerifierKey;

fn s(v: u64) -> Scalar {
    Scalar::from_u64(v)
}

#[test]
fn build_pi_places_the_negated_values() {
    let inputs = vec![
        PublicInputValue::fe_into(s(25)),
        PublicInputValue::fe_into(s(100)),
        PublicInputValue::ge_into(s(7), s(8)),
    ];
    let positions = vec![0usize, 5, 2, 3];
    let pi = build_pi(&inputs, &positions, 8);
    let expected = vec![
        s(25).neg(),
        s(0),
        s(7).neg(),
        s(8).neg(),
        s(0),
        s(100).neg(),
        s(0),
        s(0),
    ];
    assert_eq!(pi, expected);
}

#[test]
fn build_pi_leaves_out_what_has_no_partner() {
    let inputs = vec![PublicInputValue::ge_into(s(1), s(2)), PublicInputValue::fe_into(s(3))];
    assert_eq!(build_pi(&inputs, &[1], 2), vec![s(0), s(1).neg()]);
    assert_eq!(build_pi(&inputs[..1], &[0, 1, 1, 0], 2), vec![s(1).neg(), s(2).neg()]);
    assert_eq!(build_pi(&[], &[0], 3), vec![s(0), s(0), s(0)]);
    assert_eq!(build_pi(&inputs, &[], 0), Vec::<Scalar>::new());
}

#[test]
fn build_pi_lets_a_later_value_win_a_position() {
    let inputs = vec![PublicInputValue::fe_into(s(1)), PublicInputValue::fe_into(s(2))];
    assert_eq!(build_pi(&inputs, &[0, 0], 1), vec![s(2).neg()]);
}

#[test]
fn verifier_data_keeps_key_and_positions() {
    let g = Commitment::identity();
    let key = VerifierKey {
        n: 12,
        arithmetic: arithmetic::VerifierKey { q_m: g, q_l: g, q_r: g, q_o: g, q_4: g, q_c: g, q_arith: g },
        lookup: lookup::VerifierKey { q_lookup: g },
    };
    let data = VerifierData::new(key, vec![0, 5]);
    assert_eq!(data.pi_pos(), &vec![0usize, 5]);
    assert_eq!(data.key(), key);
    assert_eq!(PublicInputValue::default().values.len(), 0);
}
