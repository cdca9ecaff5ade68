use ark_bls12_381::{Fq, Fr, G1Affine};
use ark_ec::{AffineCurve, ProjectiveCurve};
use ark_ff::{PrimeField, Zero};
use ark_serialize::CanonicalSerialize;
use plonk_core::commitment::kzg10::KZGAggregateProof;
use plonk_core::commitment::{BaseElement, Commitment};
use plonk_core::error::Error;
use plonk_core::field::Scalar;
use plonk_core::transcript::TranscriptWrapper;

fn to_scalar(x: Fr) -> Scalar {
    let l = x.into_repr().0;
    Scalar::from_limbs(l[0], l[1], l[2], l[3]).unwrap()
}

fn to_commitment(p: G1Affine) -> Commitment {
    if p.infinity {
        return Commitment::identity();
    }
    Commitment::from_coordinates(
        BaseElement::from_limbs(p.x.into_repr().0).unwrap(),
        BaseElement::from_limbs(p.y.into_repr().0).unwrap(),
    )
}

fn to_affine(c: &Commitment) -> G1Affine {
    G1Affine::new(
        Fq::from_repr(ark_ff::BigInteger384(c.x().limbs())).unwrap(),
        Fq::from_repr(ark_ff::BigInteger384(c.y().limbs())).unwrap(),
        c.is_identity(),
    )
}

fn multiple(k: u64) -> G1Affine {
    G1Affine::prime_subgroup_generator().mul(Fr::from(k).into_repr()).into_affine()
}

#[test]
fn base_elements_are_canonical() {
    let q = [
        0xb9feffffffffaaabu64,
        0x1eabfffeb153ffff,
        0x6730d2a0f6b0f624,
        0x64774b84f38512bf,
        0x4b1ba7b6434bacd7,
        0x1a0111ea397fe69a,
    ];
    assert!(BaseElement::from_limbs(q).is_none());
    let mut below = q;
    below[0] -= 1;
    assert_eq!(BaseElement::from_limbs(below).unwrap().limbs(), below);
    assert!(BaseElement::from_limbs([0, 0, 0, 0, 0, u64::MAX]).is_none());
}

#[test]
fn scaling_and_adding_follow_the_group_law() {
    let g = to_commitment(multiple(1));
    assert_eq!(g.scale(&Scalar::from_u64(5)), to_commitment(multiple(5)));
    assert_eq!(g.scale(&Scalar::one()), g);
    assert_eq!(g.scale(&Scalar::zero()), Commitment::identity());
    assert_ne!(g.scale(&Scalar::from_u64(2)), g);
    let sum = to_commitment(multiple(3)).add(&to_commitment(multiple(4)));
    assert_eq!(sum, to_commitment(multiple(7)));
    assert_eq!(Commitment::identity().add(&g), g);
    assert_eq!(g.add(&Commitment::identity()), g);
    assert_eq!(g.add(&g), to_commitment(multiple(2)));
    assert!(Commitment::identity().is_identity());
    assert_eq!(to_affine(&Commitment::identity()), G1Affine::zero());
}

#[test]
fn encoding_is_the_compressed_encoding() {
    for p in [multiple(1), multiple(2), multiple(12345), G1Affine::zero()] {
        let mut expected = Vec::new();
        p.serialize(&mut expected).unwrap();
        assert_eq!(to_commitment(p).to_bytes(), expected);
        assert_eq!(expected.len(), 48);
    }
    let infinity = Commitment::identity().to_bytes();
    assert_eq!(infinity[47], 0x40);
    assert!(infinity[..47].iter().all(|b| *b == 0));
}

#[test]
fn the_sign_flag_follows_the_second_coordinate() {
    let p = multiple(9);
    let minus_p = -p;
    let a = to_commitment(p).to_bytes();
    let b = to_commitment(minus_p).to_bytes();
    assert_eq!(a[..47], b[..47]);
    assert_eq!(a[47] ^ b[47], 0x80);
}

#[test]
fn flatten_refuses_an_empty_aggregate() {
    let proof = KZGAggregateProof::with_witness(to_commitment(multiple(2)));
    let mut transcript = TranscriptWrapper::new("agg");
    let mut untouched = TranscriptWrapper::new("agg");
    assert_eq!(proof.flatten(&mut transcript).err(), Some(Error::EmptyAggregation));
    assert_eq!(transcript.challenge_scalar("x"), untouched.challenge_scalar("x"));
}

#[test]
fn flatten_of_a_single_part_is_that_part() {
    let witness = to_commitment(multiple(11));
    let commitment = to_commitment(multiple(5));
    let evaluation = to_scalar(-Fr::from(77u64));
    let mut proof = KZGAggregateProof::with_witness(witness);
    proof.add_part((evaluation, commitment));
    let mut transcript = TranscriptWrapper::new("agg");
    let flat = proof.flatten(&mut transcript).unwrap();
    assert_eq!(flat.commitment_to_witness, witness);
    assert_eq!(flat.evaluated_point, evaluation);
    assert_eq!(flat.commitment_to_polynomial, commitment);
}

#[test]
fn flatten_weights_the_parts_with_the_powers_of_the_challenge() {
    let witness = to_commitment(multiple(11));
    let parts = [(Fr::from(3u64), multiple(5)), (Fr::from(4u64), multiple(6)), (-Fr::from(9u64), multiple(7))];
    let mut proof = KZGAggregateProof::with_witness(witness);
    for (e, c) in parts.iter() {
        proof.add_part((to_scalar(*e), to_commitment(*c)));
    }
    let mut transcript = TranscriptWrapper::new("agg");
    transcript.append_scalar("z", &Scalar::from_u64(1));
    let mut twin = TranscriptWrapper::new("agg");
    twin.append_scalar("z", &Scalar::from_u64(1));
    let challenge = twin.challenge_scalar("aggregate_witness");
    let (l0, l1, l2, l3) = challenge.limbs();
    let c = Fr::from_repr(ark_ff::BigInteger256([l0, l1, l2, l3])).unwrap();

    let flat = proof.flatten(&mut transcript).unwrap();

    let evaluation = parts[0].0 + c * parts[1].0 + c * c * parts[2].0;
    let commitment = (parts[0].1.into_projective()
        + parts[1].1.mul(c.into_repr())
        + parts[2].1.mul((c * c).into_repr()))
    .into_affine();
    assert_eq!(flat.evaluated_point, to_scalar(evaluation));
    assert_eq!(flat.commitment_to_polynomial, to_commitment(commitment));
    assert_eq!(flat.commitment_to_witness, witness);
    assert_eq!(transcript.challenge_scalar("next"), twin.challenge_scalar("next"));
}
