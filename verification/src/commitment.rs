//! Polynomial commitments: points of the group G1 of BLS12-381.
//!
//! A [`Commitment`] holds the affine coordinates of a point as plain limbs.
//! The group law and the encoding of points are those of `ark-ec`; contracts
//! speak of them through the names [`g1_scalar_mul`] and [`g1_add`].

pub mod kzg10;

use crate::field::{le_value, Scalar};
use ark_ec::{AffineCurve, ProjectiveCurve};
use ark_serialize::CanonicalSerialize;
use ark_bls12_381::{Fq, G1Affine};
use ark_ff::{BigInteger256, BigInteger384, PrimeField};
use vstd::prelude::*;

verus! {

/// The order of the base field of the curve.
pub open spec fn base_modulus() -> nat {
    0x1a0111ea397fe69a4b1ba7b6434bacd764774b84f38512bf6730d2a0f6b0f6241eabfffeb153ffffb9feffffffffaaabnat
}

/// The number that six little-endian 64-bit limbs spell out.
pub open spec fn limbs6_value(l: Seq<u64>) -> nat
    recommends
        l.len() == 6,
{
    (l[0] as nat) + (l[1] as nat) * 0x1_0000_0000_0000_0000nat + (l[2] as nat)
        * 0x1_0000_0000_0000_0000_0000_0000_0000_0000nat + (l[3] as nat)
        * 0x1_0000_0000_0000_0000_0000_0000_0000_0000_0000_0000_0000_0000nat + (l[4] as nat)
        * 0x1_0000_0000_0000_0000_0000_0000_0000_0000_0000_0000_0000_0000_0000_0000_0000_0000nat
        + (l[5] as nat)
        * 0x1_0000_0000_0000_0000_0000_0000_0000_0000_0000_0000_0000_0000_0000_0000_0000_0000_0000_0000_0000_0000nat
}

/// An element of the base field of the curve, as the limbs of its canonical
/// representative.
#[derive(Clone, Copy, Debug, PartialEq, Eq)]
pub struct BaseElement {
    pub(crate) limbs: [u64; 6],
}

impl BaseElement {
    /// The canonical representative of the element.
    pub closed spec fn view(&self) -> nat {
        limbs6_value(self.limbs@)
    }

    /// Every base element in executable code is a canonical representative.
    #[verifier::type_invariant]
    pub open spec fn canonical(self) -> bool {
        self@ < base_modulus()
    }

    /// The element with the given limbs, least significant first, if they
    /// spell out a canonical representative.
    pub fn from_limbs(limbs: [u64; 6]) -> (r: Option<BaseElement>)
        ensures
            r is Some <==> limbs6_value(limbs@) < base_modulus(),
            r matches Some(e) ==> e@ == limbs6_value(limbs@),
    {
        let below = if limbs[5] != 0x1a0111ea397fe69a {
            limbs[5] < 0x1a0111ea397fe69a
        } else if limbs[4] != 0x4b1ba7b6434bacd7 {
            limbs[4] < 0x4b1ba7b6434bacd7
        } else if limbs[3] != 0x64774b84f38512bf {
            limbs[3] < 0x64774b84f38512bf
        } else if limbs[2] != 0x6730d2a0f6b0f624 {
            limbs[2] < 0x6730d2a0f6b0f624
        } else if limbs[1] != 0x1eabfffeb153ffff {
            limbs[1] < 0x1eabfffeb153ffff
        } else {
            limbs[0] < 0xb9feffffffffaaab
        };
        if below {
            Some(BaseElement { limbs })
        } else {
            None
        }
    }

    /// The limbs of the element, least significant first.
    pub fn limbs(&self) -> (r: [u64; 6])
        ensures
            limbs6_value(r@) == self@,
    {
        self.limbs
    }
}

/// A point of G1 in affine coordinates, or the point at infinity.
pub struct G1Point {
    pub x: nat,
    pub y: nat,
    pub infinity: bool,
}

/// The neutral element of G1, as `ark-ec` writes it.
pub open spec fn g1_identity() -> G1Point {
    G1Point { x: 0, y: 1, infinity: true }
}

/// The multiple of a point by a scalar, in affine coordinates.
pub uninterp spec fn g1_scalar_mul(point: G1Point, scalar: nat) -> G1Point;

/// The sum of two points, in affine coordinates.
pub uninterp spec fn g1_add(a: G1Point, b: G1Point) -> G1Point;

/// The number that the compressed encoding of a point spells out: the first
/// coordinate, with the flag for the sign of the second coordinate or for
/// the point at infinity in the two highest bits of the last byte.
pub open spec fn compressed_value(point: G1Point) -> nat {
    let top: nat = 0x10000000000000000000000000000000000000000000000000000000000000000000000000000000000000000000000nat;
    if point.infinity {
        0x40 * top
    } else if 2 * point.y > base_modulus() {
        point.x + 0x80 * top
    } else {
        point.x
    }
}

/// A commitment to a polynomial: a point of G1.
#[derive(Clone, Copy, Debug, PartialEq, Eq)]
pub struct Commitment {
    pub(crate) x: BaseElement,
    pub(crate) y: BaseElement,
    pub(crate) infinity: bool,
}

impl Commitment {
    /// The point that the commitment holds.
    pub closed spec fn view(&self) -> G1Point {
        G1Point { x: self.x@, y: self.y@, infinity: self.infinity }
    }

    /// The point at infinity is held in one way only, and coordinates are
    /// canonical representatives.
    #[verifier::type_invariant]
    pub open spec fn canonical(self) -> bool {
        &&& self@.x < base_modulus()
        &&& self@.y < base_modulus()
        &&& self@.infinity ==> self@ == g1_identity()
    }

    /// The commitment that holds the neutral element.
    pub fn identity() -> (r: Commitment)
        ensures
            r@ == g1_identity(),
    {
        let zero = BaseElement { limbs: [0, 0, 0, 0, 0, 0] };
        let one = BaseElement { limbs: [1, 0, 0, 0, 0, 0] };
        Commitment { x: zero, y: one, infinity: true }
    }

    /// The commitment that holds the point with the given coordinates.
    pub fn from_coordinates(x: BaseElement, y: BaseElement) -> (r: Commitment)
        ensures
            r@ == (G1Point { x: x@, y: y@, infinity: false }),
    {
        proof {
            use_type_invariant(x);
            use_type_invariant(y);
        }
        Commitment { x, y, infinity: false }
    }

    /// The first coordinate.
    pub fn x(&self) -> (r: BaseElement)
        ensures
            r@ == self@.x,
    {
        self.x
    }

    /// The second coordinate.
    pub fn y(&self) -> (r: BaseElement)
        ensures
            r@ == self@.y,
    {
        self.y
    }

    /// Whether the commitment holds the neutral element.
    pub fn is_identity(&self) -> (r: bool)
        ensures
            r == self@.infinity,
    {
        self.infinity
    }

    /// The multiple of the point by a scalar.
    pub fn scale(&self, scalar: &Scalar) -> (r: Commitment)
        ensures
            r@ == g1_scalar_mul(self@, scalar@),
            scalar@ == 1 ==> r@ == self@,
    {
        g1_mul(self, scalar)
    }

    /// The sum of two points.
    pub fn add(&self, other: &Commitment) -> (r: Commitment)
        ensures
            r@ == g1_add(self@, other@),
            self@ == g1_identity() ==> r@ == other@,
    {
        g1_sum(self, other)
    }

    /// The compressed encoding of the point: 48 little-endian bytes.
    pub fn to_bytes(&self) -> (r: Vec<u8>)
        ensures
            r@.len() == 48,
            le_value(r@) == compressed_value(self@),
    {
        g1_serialize(self)
    }
}

/// `ark_ec`'s `AffineCurve::mul` on G1, brought back to affine coordinates.
/// The multiple by one is the point itself.
#[verifier::external_body]
fn g1_mul(p: &Commitment, s: &Scalar) -> (r: Commitment)
    ensures
        r@ == g1_scalar_mul(p@, s@),
        s@ == 1 ==> r@ == p@,
{
    let lift = |e: &BaseElement| Fq::from_repr(BigInteger384(e.limbs)).unwrap();
    let lower = |e: Fq| BaseElement { limbs: e.into_repr().0 };
    let point = G1Affine::new(lift(&p.x), lift(&p.y), p.infinity);
    let z = point.mul(BigInteger256([s.l0, s.l1, s.l2, s.l3])).into_affine();
    Commitment { x: lower(z.x), y: lower(z.y), infinity: z.infinity }
}

/// `ark_ec`'s sum of two affine points of G1. The sum of the neutral element
/// and a point is that point.
#[verifier::external_body]
fn g1_sum(a: &Commitment, b: &Commitment) -> (r: Commitment)
    ensures
        r@ == g1_add(a@, b@),
        a@ == g1_identity() ==> r@ == b@,
{
    let lift = |e: &BaseElement| Fq::from_repr(BigInteger384(e.limbs)).unwrap();
    let lower = |e: Fq| BaseElement { limbs: e.into_repr().0 };
    let p = G1Affine::new(lift(&a.x), lift(&a.y), a.infinity);
    let q = G1Affine::new(lift(&b.x), lift(&b.y), b.infinity);
    let z = p + q;
    Commitment { x: lower(z.x), y: lower(z.y), infinity: z.infinity }
}

/// `ark_serialize`'s `CanonicalSerialize::serialize` on an affine point of
/// G1: the first coordinate in 48 little-endian bytes, with the flags of the
/// point in the two highest bits of the last byte.
#[verifier::external_body]
fn g1_serialize(p: &Commitment) -> (r: Vec<u8>)
    ensures
        r@.len() == 48,
        le_value(r@) == compressed_value(p@),
{
    let lift = |e: &BaseElement| Fq::from_repr(BigInteger384(e.limbs)).unwrap();
    let point = G1Affine::new(lift(&p.x), lift(&p.y), p.infinity);
    let mut bytes = Vec::new();
    point.serialize(&mut bytes).unwrap();
    bytes
}

} // verus!
