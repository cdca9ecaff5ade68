use ark_bls12_381::{Fr, G1Affine};
use ark_ec::AffineCurve;
use ark_ff::{Field, PrimeField};
use ark_serialize::CanonicalSerialize;
use plonk_core::commitment::{BaseElement, Commitment};
use plonk_core::field::Scalar;
use plonk_core::transcript::TranscriptWrapper;

fn to_scalar(x: Fr) -> Scalar {
    let l = x.into_repr().0;
    Scalar::from_limbs(l[0], l[1], l[2], l[3]).unwrap()
}

fn to_commitment(p: G1Affine) -> Commitment {
    if p.infinity {
        return Commitment::identity();
    }
    Commitment::from_coordinates(
        BaseElement::from_limbs(p.x.into_repr().0).unwrap(),
        BaseElement::from_limbs(p.y.into_repr().0).unwrap(),
    )
}

#[test]
fn transcripts_fed_alike_draw_the_same_challenges() {
    let generator = to_commitment(G1Affine::prime_subgroup_generator());
    let mut a = TranscriptWrapper::new("plonk");
    let mut b = TranscriptWrapper::new("plonk");
    for t in [&mut a, &mut b] {
        t.circuit_domain_sep(1 << 11);
        t.append_scalar("s", &Scalar::from_u64(42));
        t.append_commitment("c", &generator);
    }
    let first = a.challenge_scalar("alpha");
    assert_eq!(first, b.challenge_scalar("alpha"));
    let second = a.challenge_scalar("beta");
    assert_eq!(second, b.challenge_scalar("beta"));
    assert_ne!(first, second);
    assert_ne!(first, Scalar::zero());
}

#[test]
fn challenges_depend_on_what_was_appended() {
    let mut a = TranscriptWrapper::new("plonk");
    let mut b = TranscriptWrapper::new("plonk");
    a.append_scalar("s", &Scalar::from_u64(1));
    b.append_scalar("s", &Scalar::from_u64(2));
    assert_ne!(a.challenge_scalar("alpha"), b.challenge_scalar("alpha"));
    let mut c = TranscriptWrapper::new("plonk");
    let mut d = TranscriptWrapper::new("other");
    assert_ne!(c.challenge_scalar("alpha"), d.challenge_scalar("alpha"));
    let mut e = TranscriptWrapper::new("plonk");
    let mut f = TranscriptWrapper::new("plonk");
    e.circuit_domain_sep(4);
    f.circuit_domain_sep(8);
    assert_ne!(e.challenge_scalar("alpha"), f.challenge_scalar("alpha"));
}

#[test]
fn the_transcript_is_the_merlin_transcript() {
    let generator = G1Affine::prime_subgroup_generator();
    let scalar = Fr::from(3u64).pow([100u64]);

    let mut ours = TranscriptWrapper::new("plonk");
    ours.circuit_domain_sep(77);
    ours.append_scalar("s", &to_scalar(scalar));
    ours.append_commitment("c", &to_commitment(generator));
    let challenge = ours.challenge_scalar("alpha");

    let mut merlin = merlin::Transcript::new(b"plonk");
    merlin.append_message(b"dom-sep", b"circuit_size");
    merlin.append_u64(b"n", 77);
    let mut bytes = Vec::new();
    scalar.serialize(&mut bytes).unwrap();
    merlin.append_message(b"s", &bytes);
    let mut bytes = Vec::new();
    generator.serialize(&mut bytes).unwrap();
    merlin.append_message(b"c", &bytes);
    let mut buf = [0u8; 30];
    merlin.challenge_bytes(b"alpha", &mut buf);
    let expected = Fr::from_random_bytes(&buf).unwrap();

    assert_eq!(challenge, to_scalar(expected));
    let mut le = [0u8; 32];
    le[..30].copy_from_slice(&buf);
    assert_eq!(challenge.to_bytes(), le.to_vec());
}
