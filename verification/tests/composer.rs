use plonk_core::constraint_system::composer::{Gate, StandardComposer};
use plonk_core::constraint_system::helper::dummy_gadget;
use plonk_core::constraint_system::variable::{Variable, WireData};
use plonk_core::field::Scalar;
use plonk_core::poly::{EvaluationDomain, Evaluations, Polynomial};
use plonk_core::proof_system::widget::arithmetic::ProverKey;

fn s(v: u64) -> Scalar {
    Scalar::from_u64(v)
}

fn minus(v: u64) -> Scalar {
    Scalar::from_u64(v).neg()
}

fn columns_are_level(cs: &StandardComposer) -> bool {
    let n = cs.n;
    [
        &cs.q_m,
        &cs.q_l,
        &cs.q_r,
        &cs.q_o,
        &cs.q_4,
        &cs.q_c,
        &cs.q_arith,
        &cs.q_range,
        &cs.q_logic,
        &cs.q_lookup,
        &cs.q_fixed_group_add,
        &cs.q_variable_group_add,
    ]
    .iter()
    .all(|c| c.len() == n)
        && [&cs.w_l, &cs.w_r, &cs.w_o, &cs.w_4].iter().all(|c| c.len() == n)
}

fn selector(values: &[Scalar]) -> (Polynomial, Evaluations) {
    let domain = EvaluationDomain::new(values.len()).unwrap();
    (
        Polynomial::zero(),
        Evaluations { evals: values.to_vec(), domain },
    )
}

fn relation(cs: &StandardComposer, i: usize) -> Scalar {
    let key = ProverKey {
        q_m: selector(&cs.q_m),
        q_l: selector(&cs.q_l),
        q_r: selector(&cs.q_r),
        q_o: selector(&cs.q_o),
        q_4: selector(&cs.q_4),
        q_c: selector(&cs.q_c),
        q_arith: selector(&cs.q_arith),
    };
    let value = |v: Variable| cs.value(v);
    let pi = cs.public_inputs_sparse_store.get(&i).copied().unwrap_or(Scalar::zero());
    key.compute_quotient_i(i, value(cs.w_l[i]), value(cs.w_r[i]), value(cs.w_o[i]), value(cs.w_4[i]))
        .add(&pi)
}

#[test]
fn a_new_composer_knows_zero() {
    let cs = StandardComposer::new();
    assert_eq!(cs.circuit_size(), 0);
    assert_eq!(cs.zero_var(), Variable(0));
    assert_eq!(cs.value(cs.zero_var()), Scalar::zero());
    assert_eq!(cs.variables.len(), 1);
    assert!(cs.public_inputs_sparse_store.is_empty());
    assert!(columns_are_level(&cs));
}

#[test]
fn add_input_gives_fresh_handles() {
    let mut cs = StandardComposer::new();
    let a = cs.add_input(s(20));
    let b = cs.add_input(s(5));
    assert_eq!(a, Variable(1));
    assert_eq!(b, Variable(2));
    assert_eq!(cs.value(a), s(20));
    assert_eq!(cs.value(b), s(5));
    assert_eq!(cs.perm.variable_map.len(), 3);
    assert_eq!(cs.circuit_size(), 0);
}

#[test]
fn big_add_gate_appends_one_row() {
    let mut cs = StandardComposer::new();
    let a = cs.add_input(s(1));
    let b = cs.add_input(s(2));
    let c = cs.add_input(s(3));
    let d = cs.add_input(s(4));
    let out = cs.big_add_gate(a, b, c, Some(d), s(10), s(11), s(12), s(13), s(14), Some(s(15)));
    assert_eq!(out, c);
    assert_eq!(cs.n, 1);
    assert!(columns_are_level(&cs));
    assert_eq!((cs.w_l[0], cs.w_r[0], cs.w_o[0], cs.w_4[0]), (a, b, c, d));
    assert_eq!(cs.q_m[0], Scalar::zero());
    assert_eq!(cs.q_l[0], s(10));
    assert_eq!(cs.q_r[0], s(11));
    assert_eq!(cs.q_o[0], s(12));
    assert_eq!(cs.q_4[0], s(13));
    assert_eq!(cs.q_c[0], s(14));
    assert_eq!(cs.q_arith[0], Scalar::one());
    assert_eq!(cs.q_range[0], Scalar::zero());
    assert_eq!(cs.q_logic[0], Scalar::zero());
    assert_eq!(cs.q_lookup[0], Scalar::zero());
    assert_eq!(cs.q_fixed_group_add[0], Scalar::zero());
    assert_eq!(cs.q_variable_group_add[0], Scalar::zero());
    assert_eq!(cs.public_inputs_sparse_store.get(&0), Some(&s(15)));
    assert_eq!(cs.perm.variable_map[a.0], vec![WireData::Left(0)]);
    assert_eq!(cs.perm.variable_map[b.0], vec![WireData::Right(0)]);
    assert_eq!(cs.perm.variable_map[c.0], vec![WireData::Output(0)]);
    assert_eq!(cs.perm.variable_map[d.0], vec![WireData::Fourth(0)]);
}

#[test]
fn gates_without_a_fourth_wire_take_the_zero_variable() {
    let mut cs = StandardComposer::new();
    let a = cs.add_input(s(1));
    cs.add_gate(a, a, a, s(1), s(1), minus(2), s(0), None);
    cs.mul_gate(a, a, a, s(1), minus(1), s(0), None);
    cs.big_mul_gate(a, a, a, None, s(1), minus(1), s(0), s(9), None);
    assert_eq!(cs.n, 3);
    assert!(columns_are_level(&cs));
    for i in 0..3 {
        assert_eq!(cs.w_4[i], cs.zero_var());
        assert_eq!(relation(&cs, i), Scalar::zero());
    }
    assert_eq!(cs.q_4[0], Scalar::zero());
    assert_eq!(cs.q_4[1], Scalar::zero());
    assert_eq!(cs.q_4[2], s(9));
    assert_eq!(cs.q_m[0], Scalar::zero());
    assert_eq!(cs.q_l[1], Scalar::zero());
    assert_eq!(cs.q_r[1], Scalar::zero());
    assert_eq!(
        cs.perm.variable_map[a.0],
        vec![
            WireData::Left(0),
            WireData::Right(0),
            WireData::Output(0),
            WireData::Left(1),
            WireData::Right(1),
            WireData::Output(1),
            WireData::Left(2),
            WireData::Right(2),
            WireData::Output(2),
        ]
    );
    assert!(cs.public_inputs_sparse_store.is_empty());
}

#[test]
fn test_public_inputs() {
    let mut cs = StandardComposer::new();
    let var_one = cs.add_input(Scalar::one());
    let three = cs.big_add((s(1), var_one), (s(1), var_one), None, s(0), Some(s(1)));
    assert_eq!(cs.value(three), s(3));
    let four = cs.big_add((s(1), var_one), (s(1), var_one), None, s(0), Some(s(2)));
    assert_eq!(cs.value(four), s(4));
    assert_eq!(cs.public_inputs_sparse_store.get(&0), Some(&s(1)));
    assert_eq!(cs.public_inputs_sparse_store.get(&1), Some(&s(2)));
    assert_eq!(relation(&cs, 0), Scalar::zero());
    assert_eq!(relation(&cs, 1), Scalar::zero());
}

#[test]
fn test_correct_add_mul_gate() {
    let mut cs = StandardComposer::new();
    let four = cs.add_input(s(4));
    let five = cs.add_input(s(5));
    let six = cs.add_input(s(6));
    let seven = cs.add_input(s(7));
    let fourteen = cs.big_add((s(1), four), (s(1), five), Some((s(1), five)), s(0), None);
    let twenty = cs.big_add((s(1), six), (s(1), seven), Some((s(1), seven)), s(0), None);
    let output = cs.mul(s(1), fourteen, twenty, s(0), None);
    assert_eq!(cs.value(fourteen), s(14));
    assert_eq!(cs.value(twenty), s(20));
    assert_eq!(cs.value(output), s(280));
    for i in 0..cs.n {
        assert_eq!(relation(&cs, i), Scalar::zero());
        assert_eq!(cs.q_o[i], minus(1));
    }
}

#[test]
fn test_correct_add_gate() {
    let mut cs = StandardComposer::new();
    let zero = cs.zero_var();
    let one = cs.add_input(Scalar::one());
    let c = cs.add((s(1), one), (s(0), zero), s(2), None);
    assert_eq!(cs.value(c), s(3));
    assert_eq!(relation(&cs, 0), Scalar::zero());
}

#[test]
fn test_correct_big_add_mul_gate() {
    let mut cs = StandardComposer::new();
    let four = cs.add_input(s(4));
    let five = cs.add_input(s(5));
    let six = cs.add_input(s(6));
    let seven = cs.add_input(s(7));
    let nine = cs.add_input(s(9));
    let fourteen = cs.big_add((s(1), four), (s(1), five), Some((s(1), five)), s(0), None);
    let twenty = cs.big_add((s(1), six), (s(1), seven), Some((s(1), seven)), s(0), None);
    let output = cs.big_mul(s(1), fourteen, twenty, Some((s(8), nine)), s(0), None);
    assert_eq!(cs.value(output), s(352));
    for i in 0..cs.n {
        assert_eq!(relation(&cs, i), Scalar::zero());
    }
}

#[test]
fn test_incorrect_add_mul_gate() {
    let mut cs = StandardComposer::new();
    let five = cs.add_input(s(5));
    let six = cs.add_input(s(6));
    let seven = cs.add_input(s(7));
    let five_plus_five = cs.big_add((s(1), five), (s(1), five), None, s(0), None);
    let six_plus_seven = cs.big_add((s(1), six), (s(1), seven), None, s(0), None);
    let output = cs.mul(s(1), five_plus_five, six_plus_seven, s(0), None);
    assert_ne!(cs.value(output), s(117));
    assert_eq!(cs.value(output), s(130));
    // Constraining the output to 117 gives a gate that the witness fails.
    let zero = cs.zero_var();
    cs.add_gate(output, zero, zero, s(1), s(0), s(0), minus(117), None);
    assert_ne!(relation(&cs, cs.n - 1), Scalar::zero());
}

#[test]
fn sum_and_product_of_two_inputs_against_public_inputs() {
    let build = |a: u64, b: u64| {
        let mut cs = StandardComposer::new();
        let va = cs.add_input(s(a));
        let vb = cs.add_input(s(b));
        let zero = cs.zero_var();
        cs.add_gate(va, vb, zero, s(1), s(1), s(0), s(0), Some(minus(25)));
        cs.mul_gate(va, vb, zero, s(1), s(0), s(0), Some(minus(100)));
        cs
    };
    let honest = build(20, 5);
    assert_eq!(honest.n, 2);
    assert_eq!(relation(&honest, 0), Scalar::zero());
    assert_eq!(relation(&honest, 1), Scalar::zero());
    assert_eq!(honest.public_inputs_sparse_store.get(&0), Some(&minus(25)));
    assert_eq!(honest.public_inputs_sparse_store.get(&1), Some(&minus(100)));
    let forged = build(21, 5);
    assert_ne!(relation(&forged, 0), Scalar::zero());
    assert_ne!(relation(&forged, 1), Scalar::zero());
}

#[test]
fn append_gate_writes_the_row_as_given() {
    let mut cs = StandardComposer::new();
    let a = cs.add_input(s(3));
    let gate = Gate {
        a,
        b: a,
        c: a,
        d: a,
        q_m: s(1),
        q_l: s(2),
        q_r: s(3),
        q_o: s(4),
        q_4: s(5),
        q_c: s(6),
        pi: None,
    };
    cs.append_gate(gate);
    assert_eq!(cs.n, 1);
    assert_eq!(cs.q_m[0], s(1));
    assert_eq!(cs.q_4[0], s(5));
    // 1*3*3 + 2*3 + 3*3 + 4*3 + 5*3 + 6
    assert_eq!(relation(&cs, 0), s(57));
}

#[test]
fn dummy_gadget_adds_as_many_gates_as_asked() {
    let mut cs = StandardComposer::new();
    dummy_gadget(5, &mut cs);
    assert_eq!(cs.n, 5);
    assert_eq!(cs.variables.len(), 1 + 1 + 5);
    assert!(columns_are_level(&cs));
    for i in 0..5 {
        assert_eq!(cs.w_l[i], Variable(1));
        assert_eq!(cs.w_r[i], Variable(1));
        assert_eq!(cs.value(cs.w_o[i]), s(2));
        assert_eq!(relation(&cs, i), Scalar::zero());
    }
    dummy_gadget(0, &mut cs);
    assert_eq!(cs.n, 5);
    assert_eq!(cs.variables.len(), 8);
}

#[test]
fn pi_positions_lists_the_gates_with_a_public_input_in_order() {
    let mut cs = StandardComposer::new();
    assert_eq!(cs.pi_positions(), Vec::<usize>::new());
    let one = cs.add_input(Scalar::one());
    cs.big_add((s(1), one), (s(1), one), None, s(0), None);
    cs.big_add((s(1), one), (s(1), one), None, s(0), Some(s(7)));
    cs.big_add((s(1), one), (s(1), one), None, s(0), None);
    cs.big_add((s(1), one), (s(1), one), None, s(0), Some(s(0)));
    cs.big_add((s(1), one), (s(1), one), None, s(0), Some(s(9)));
    assert_eq!(cs.pi_positions(), vec![1, 3, 4]);
}
