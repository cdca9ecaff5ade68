use ark_bls12_381::Fr;
use ark_ff::{Field, One, PrimeField, Zero};
use plonk_core::field::Scalar;

fn to_scalar(x: Fr) -> Scalar {
    let l = x.into_repr().0;
    Scalar::from_limbs(l[0], l[1], l[2], l[3]).unwrap()
}

fn to_fr(s: &Scalar) -> Fr {
    let (l0, l1, l2, l3) = s.limbs();
    Fr::from_repr(ark_ff::BigInteger256([l0, l1, l2, l3])).unwrap()
}

#[test]
fn scalar_addition_wraps_at_the_modulus() {
    let minus_one = Scalar::zero().sub(&Scalar::one());
    let sum = minus_one.add(&Scalar::from_u64(2));
    assert_eq!(sum, Scalar::one());
}

#[test]
fn constants_have_their_values() {
    assert_eq!(Scalar::zero().limbs(), (0, 0, 0, 0));
    assert_eq!(Scalar::one().limbs(), (1, 0, 0, 0));
    assert_eq!(Scalar::from_u64(77).limbs(), (77, 0, 0, 0));
    assert!(Scalar::zero().is_zero());
    assert!(!Scalar::one().is_zero());
}

#[test]
fn minus_one_is_the_modulus_less_one() {
    let minus_one = Scalar::one().neg();
    assert_eq!(
        minus_one.limbs(),
        (
            0xffffffff00000000,
            0x53bda402fffe5bfe,
            0x3339d80809a1d805,
            0x73eda753299d7d48
        )
    );
    assert_eq!(Scalar::zero().neg(), Scalar::zero());
}

#[test]
fn from_limbs_refuses_the_modulus_and_above() {
    let l = (
        0xffffffff00000001u64,
        0x53bda402fffe5bfeu64,
        0x3339d80809a1d805u64,
        0x73eda753299d7d48u64,
    );
    assert!(Scalar::from_limbs(l.0, l.1, l.2, l.3).is_none());
    assert!(Scalar::from_limbs(l.0 - 1, l.1, l.2, l.3).is_some());
    assert!(Scalar::from_limbs(0, 0, 0, u64::MAX).is_none());
    assert!(Scalar::from_limbs(u64::MAX, u64::MAX, u64::MAX, 0).is_some());
}

#[test]
fn arithmetic_agrees_with_the_field() {
    let a = Fr::from(123456789u64).pow([5u64]) + Fr::from(17u64);
    let b = -Fr::from(987654321u64).pow([7u64]);
    let (sa, sb) = (to_scalar(a), to_scalar(b));
    assert_eq!(sa.add(&sb), to_scalar(a + b));
    assert_eq!(sa.sub(&sb), to_scalar(a - b));
    assert_eq!(sb.sub(&sa), to_scalar(b - a));
    assert_eq!(sa.mul(&sb), to_scalar(a * b));
    assert_eq!(sa.neg(), to_scalar(-a));
    assert_eq!(sa.square(), to_scalar(a * a));
    assert_eq!(to_fr(&sa), a);
    assert_ne!(sa.mul(&sb), sa);
    assert_ne!(sa.add(&sb), sa);
    assert_ne!(sa.sub(&sb), sa);
    assert_ne!(sa.neg(), sa);
}

#[test]
fn small_products_are_exact() {
    assert_eq!(Scalar::from_u64(6).mul(&Scalar::from_u64(7)), Scalar::from_u64(42));
    assert_eq!(Scalar::from_u64(6).sub(&Scalar::from_u64(7)), Scalar::one().neg());
    assert_eq!(Scalar::from_u64(9).square(), Scalar::from_u64(81));
}

#[test]
fn order_follows_the_representatives() {
    let small = Scalar::from_u64(5);
    let big = Scalar::one().neg();
    assert!(small.lt(&big));
    assert!(!big.lt(&small));
    assert!(!small.lt(&small));
    let high = Scalar::from_limbs(0, 1, 0, 0).unwrap();
    assert!(Scalar::from_u64(u64::MAX).lt(&high));
    assert_eq!(to_fr(&small) < to_fr(&big), small.lt(&big));
}

#[test]
fn bytes_are_little_endian() {
    let s = Scalar::from_u64(0x0102);
    let bytes = s.to_bytes();
    assert_eq!(bytes.len(), 32);
    assert_eq!(bytes[0], 2);
    assert_eq!(bytes[1], 1);
    assert!(bytes[2..].iter().all(|b| *b == 0));
    assert_eq!(Scalar::from_bytes(&bytes), Some(s));
}

#[test]
fn from_bytes_refuses_what_is_no_element() {
    assert_eq!(Scalar::from_bytes(&[0u8; 31]), None);
    assert_eq!(Scalar::from_bytes(&[0u8; 33]), None);
    assert_eq!(Scalar::from_bytes(&[0xffu8; 32]), None);
    let minus_one = Scalar::one().neg();
    assert_eq!(Scalar::from_bytes(&minus_one.to_bytes()), Some(minus_one));
    assert!(Fr::zero().is_zero() && Fr::one().is_one());
}
