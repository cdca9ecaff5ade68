use ark_bls12_381::Fr;
use ark_ff::PrimeField;
use ark_poly::{EvaluationDomain as ArkDomain, GeneralEvaluationDomain};
use plonk_core::error::Error;
use plonk_core::field::Scalar;
use plonk_core::lookup::multiset::MultiSet;
use plonk_core::poly::EvaluationDomain;

fn ms(values: &[u64]) -> MultiSet {
    MultiSet(values.iter().map(|v| Scalar::from_u64(*v)).collect())
}

fn to_fr(s: &Scalar) -> Fr {
    let (l0, l1, l2, l3) = s.limbs();
    Fr::from_repr(ark_ff::BigInteger256([l0, l1, l2, l3])).unwrap()
}

#[test]
fn test_halve() {
    let mut s = MultiSet::new();
    for v in 0..7u64 {
        s.push(Scalar::from_u64(v));
    }
    let (h_1, h_2) = s.halve();
    assert_eq!(h_1.len(), 4);
    assert_eq!(h_2.len(), 4);
    assert_eq!(ms(&[0, 1, 2, 3]), h_1);
    assert_eq!(ms(&[3, 4, 5, 6]), h_2);
    assert_eq!(h_1.0.last().unwrap(), &h_2.0[0]);
}

#[test]
fn halve_shares_the_middle_for_every_odd_length() {
    for len in [3usize, 5, 9, 31] {
        let s = MultiSet((0..len as u64).map(Scalar::from_u64).collect());
        let (h_1, h_2) = s.halve();
        assert_eq!(h_1.last(), Some(&h_2.0[0]));
        assert_eq!(h_1.len() + h_2.len(), len + 1);
    }
}

#[test]
fn halve_of_a_single_element() {
    let (h_1, h_2) = ms(&[9]).halve();
    assert_eq!(h_1, ms(&[9]));
    assert_eq!(h_2, ms(&[9]));
}

#[test]
fn test_to_polynomial() {
    let s = ms(&[1, 2, 3, 4, 5, 6, 7]);
    let domain = EvaluationDomain::new(s.len() + 1).unwrap();
    assert_eq!(domain.size(), 8);
    let s_poly = s.to_polynomial(&domain);
    assert_eq!(s_poly.coeffs().len() - 1, 7);
}

#[test]
fn to_polynomial_interpolates_the_elements() {
    let s = ms(&[1, 2, 3, 4, 5, 6, 7]);
    let domain = EvaluationDomain::new(8).unwrap();
    let poly = s.to_polynomial(&domain);
    let ark_domain = GeneralEvaluationDomain::<Fr>::new(8).unwrap();
    let coeffs: Vec<Fr> = poly.coeffs().iter().map(to_fr).collect();
    let evals = ark_domain.fft(&coeffs);
    for (i, e) in evals.iter().enumerate() {
        let expected = if i < 7 { Fr::from((i + 1) as u64) } else { Fr::from(0u64) };
        assert_eq!(*e, expected);
    }
}

#[test]
fn test_is_subset() {
    let t = ms(&[1, 2, 3, 4, 5, 6, 7]);
    let f = ms(&[1, 2]);
    let n = ms(&[8]);
    assert!(t.contains_all(&f));
    assert!(!t.contains_all(&n));
}

#[test]
fn contains_all_ignores_multiplicity() {
    let t = ms(&[1, 2]);
    assert!(t.contains_all(&ms(&[2, 2, 2, 1])));
    assert!(t.contains_all(&MultiSet::new()));
    assert!(!MultiSet::new().contains_all(&ms(&[1])));
}

#[test]
fn test_full_compression_into_s() {
    let mut t = ms(&[0, 1, 2, 3, 4, 5, 6, 7]);
    let f = ms(&[3, 6, 0, 5, 4, 3, 2, 0, 0, 1, 2]);
    assert!(t.contains_all(&f));
    assert!(t.contains(&Scalar::from_u64(2)));
    t.sorted_concat(f);
    let concatenated_set = ms(&[0, 0, 0, 0, 1, 1, 2, 2, 2, 3, 3, 3, 4, 4, 5, 5, 6, 6, 7]);
    assert_eq!(t, concatenated_set);
}

#[test]
fn sorted_concat_orders_by_representative() {
    let minus_one = Scalar::one().neg();
    let mut t = MultiSet(vec![minus_one, Scalar::from_u64(3)]);
    t.sorted_concat(MultiSet(vec![Scalar::from_u64(5), Scalar::zero()]));
    assert_eq!(
        t,
        MultiSet(vec![Scalar::zero(), Scalar::from_u64(3), Scalar::from_u64(5), minus_one])
    );
    let mut sorted = t.0.iter().map(to_fr).collect::<Vec<_>>();
    let as_given = sorted.clone();
    sorted.sort();
    assert_eq!(sorted, as_given);
}

#[test]
fn sorted_concat_does_not_depend_on_the_order_of_the_inputs() {
    let mut a = ms(&[4, 1, 3]);
    a.sorted_concat(ms(&[2, 1]));
    let mut b = ms(&[1, 2]);
    b.sorted_concat(ms(&[3, 1, 4]));
    assert_eq!(a, b);
    assert_eq!(a, ms(&[1, 1, 2, 3, 4]));
}

#[test]
fn multiset_compression_input() {
    let alpha = Scalar::from_u64(2);
    let columns = vec![ms(&[1]), ms(&[2]), ms(&[3]), ms(&[3])];
    let compressed = MultiSet::compress(&columns, alpha);
    assert_eq!(compressed, ms(&[1 + 2 * 2 + 3 * 4 + 3 * 8]));
}

#[test]
fn compress_is_a_linear_combination_position_by_position() {
    let columns = vec![ms(&[1, 10]), ms(&[2, 20]), ms(&[3, 30])];
    let compressed = MultiSet::compress(&columns, Scalar::from_u64(10));
    assert_eq!(compressed, ms(&[321, 3210]));
    assert_eq!(MultiSet::compress(&columns[..1], Scalar::from_u64(10)), ms(&[1, 10]));
}

#[test]
fn pad_repeats_the_first_element() {
    let mut s = ms(&[7, 8, 9]);
    assert_eq!(s.pad(8), Ok(()));
    assert_eq!(s, ms(&[7, 8, 9, 7, 7, 7, 7, 7]));
    let mut full = ms(&[1, 2]);
    assert_eq!(full.pad(2), Ok(()));
    assert_eq!(full, ms(&[1, 2]));
}

#[test]
fn pad_of_an_empty_multiset_takes_zero_first() {
    let mut s = MultiSet::new();
    assert_eq!(s.pad(4), Ok(()));
    assert_eq!(s, ms(&[0, 0, 0, 0]));
}

#[test]
fn pad_refuses_what_is_no_power_of_two() {
    for n in [0u32, 3, 6, 12, 1000] {
        let mut s = ms(&[7, 8]);
        assert_eq!(s.pad(n), Err(Error::InvalidPadLength));
        assert_eq!(s, ms(&[7, 8]));
    }
}

#[test]
fn pad_refuses_a_length_below_its_own() {
    let mut s = ms(&[7, 8, 9]);
    assert_eq!(s.pad(2), Err(Error::PadTooShort));
    assert_eq!(s, ms(&[7, 8, 9]));
}

#[test]
fn sorted_halve_deals_out_the_copies() {
    let t = ms(&[1, 2, 3, 4]);
    let f = ms(&[2, 3, 4, 1]);
    let (h1, h2) = t.sorted_halve(&f).unwrap();
    assert_eq!(h1, ms(&[1, 2, 3, 4]));
    assert_eq!(h2, ms(&[1, 2, 3, 4]));
}

#[test]
fn sorted_halve_orders_an_unordered_table() {
    let t = ms(&[1, 2, 4, 3]);
    let f = ms(&[2, 3, 4, 1]);
    let (h1, h2) = t.sorted_halve(&f).unwrap();
    assert_eq!(h1, ms(&[1, 2, 3, 4]));
    assert_eq!(h2, ms(&[1, 2, 3, 4]));
}

#[test]
fn sorted_halve_splits_the_sorted_concatenation_by_position() {
    let t = ms(&[9, 2, 7, 2, 5]);
    let f = ms(&[7, 7, 5, 9, 9, 9]);
    let (h1, h2) = t.sorted_halve(&f).unwrap();
    // In ascending order: 2 2 5 5 7 7 7 9 9 9 9.
    assert_eq!(h1, ms(&[2, 5, 7, 7, 9, 9]));
    assert_eq!(h2, ms(&[2, 5, 7, 9, 9]));
    let mut all = t.clone();
    all.sorted_concat(f);
    let (evens, odds) = all.halve_alternating();
    assert_eq!(h1, evens);
    assert_eq!(h2, odds);
}

#[test]
fn sorted_halve_alternates_the_odd_copies() {
    let t = ms(&[1, 2, 3]);
    let f = ms(&[1, 1, 3, 3]);
    // 1 occurs three times, 2 once, 3 three times.
    let (h1, h2) = t.sorted_halve(&f).unwrap();
    assert_eq!(h1, ms(&[1, 1, 3, 3]));
    assert_eq!(h2, ms(&[1, 2, 3]));
    assert_eq!(h1.len() + h2.len(), t.len() + f.len());
}

#[test]
fn sorted_halve_counts_a_repeated_table_entry_once() {
    let t = ms(&[5, 5, 6]);
    let f = ms(&[6]);
    let (h1, h2) = t.sorted_halve(&f).unwrap();
    assert_eq!(h1, ms(&[5, 6]));
    assert_eq!(h2, ms(&[5, 6]));
}

#[test]
fn sorted_halve_refuses_a_query_outside_the_table() {
    let t = ms(&[1, 2, 3]);
    assert_eq!(t.sorted_halve(&ms(&[1, 9])), Err(Error::ElementNotIndexed));
    assert_eq!(MultiSet::new().sorted_halve(&ms(&[1])), Err(Error::ElementNotIndexed));
    assert_eq!(
        MultiSet::new().sorted_halve(&MultiSet::new()),
        Ok((MultiSet::new(), MultiSet::new()))
    );
}

#[test]
fn halve_alternating_splits_by_parity_of_position() {
    let (evens, odds) = ms(&[10, 11, 12, 13, 14]).halve_alternating();
    assert_eq!(evens, ms(&[10, 12, 14]));
    assert_eq!(odds, ms(&[11, 13]));
    let (e, o) = MultiSet::new().halve_alternating();
    assert!(e.is_empty() && o.is_empty());
}

#[test]
fn position_and_last() {
    let s = ms(&[4, 5, 4, 6]);
    assert_eq!(s.position(&Scalar::from_u64(4)), Some(0));
    assert_eq!(s.position(&Scalar::from_u64(6)), Some(3));
    assert_eq!(s.position(&Scalar::from_u64(7)), None);
    assert_eq!(s.last(), Some(&Scalar::from_u64(6)));
    assert_eq!(MultiSet::new().last(), None);
    assert_eq!(MultiSet::with_capacity(3).len(), 0);
}

#[test]
fn with_len_and_extend() {
    let mut s = MultiSet::with_len(3);
    assert_eq!(s, ms(&[0, 0, 0]));
    s.extend(vec![Scalar::from_u64(1), Scalar::from_u64(2)]);
    assert_eq!(s, ms(&[0, 0, 0, 1, 2]));
}

#[test]
fn elementwise_operations() {
    let a = ms(&[1, 2, 3]);
    let b = ms(&[10, 20]);
    assert_eq!(a.add(&b), ms(&[11, 22]));
    assert_eq!(a.mul(&b), ms(&[10, 40]));
    assert_eq!(a.scale(&Scalar::from_u64(5)), ms(&[5, 10, 15]));
}

#[test]
fn bytes_round_trip() {
    let s = MultiSet(vec![Scalar::from_u64(258), Scalar::one().neg()]);
    let bytes = s.to_var_bytes();
    assert_eq!(bytes.len(), 64);
    assert_eq!(&bytes[..3], &[2, 1, 0]);
    assert_eq!(MultiSet::from_slice(&bytes), Ok(s));
    assert_eq!(MultiSet::from_slice(&[]), Ok(MultiSet::new()));
}

#[test]
fn from_slice_refuses_malformed_bytes() {
    assert_eq!(MultiSet::from_slice(&[0u8; 33]), Err(Error::MalformedBytes));
    let mut bytes = vec![0u8; 64];
    for b in bytes[32..].iter_mut() {
        *b = 0xff;
    }
    assert_eq!(MultiSet::from_slice(&bytes), Err(Error::MalformedBytes));
}
