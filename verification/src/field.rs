//! The scalar field of BLS12-381.
//!
//! A [`Scalar`] holds the canonical representative of a field element as four
//! little-endian 64-bit limbs. Contracts speak of scalars through their view,
//! the natural number below [`modulus`] that the limbs spell out. The field
//! operations themselves are carried out by `ark-ff`.

use ark_serialize::CanonicalSerialize;
use ark_bls12_381::Fr;
use ark_ff::{BigInteger256, Field, PrimeField};
use vstd::prelude::*;

verus! {

/// The order of the scalar field.
pub open spec fn modulus() -> nat {
    0x73eda753299d7d483339d80809a1d80553bda402fffe5bfeffffffff00000001nat
}

/// Sum of two residues.
pub open spec fn add_mod(a: nat, b: nat) -> nat {
    (a + b) % modulus()
}

/// Difference of two residues.
pub open spec fn sub_mod(a: nat, b: nat) -> nat {
    ((a as int - b as int) % (modulus() as int)) as nat
}

/// Product of two residues.
pub open spec fn mul_mod(a: nat, b: nat) -> nat {
    (a * b) % modulus()
}

/// Additive inverse of a residue.
pub open spec fn neg_mod(a: nat) -> nat {
    sub_mod(0, a)
}

/// The number that a little-endian byte string spells out.
pub open spec fn le_value(bytes: Seq<u8>) -> nat
    decreases bytes.len(),
{
    if bytes.len() == 0 {
        0
    } else {
        bytes[0] as nat + 256 * le_value(bytes.skip(1))
    }
}

/// Little-endian byte strings of one length that spell out the same number
/// are the same string.
pub proof fn lemma_le_value_injective(a: Seq<u8>, b: Seq<u8>)
    requires
        a.len() == b.len(),
        le_value(a) == le_value(b),
    ensures
        a == b,
    decreases a.len(),
{
    if a.len() > 0 {
        let ra = le_value(a.skip(1));
        let rb = le_value(b.skip(1));
        assert(a[0] as int + 256 * ra == b[0] as int + 256 * rb);
        assert(a[0] == b[0] && ra == rb) by {
            assert((a[0] as int - b[0] as int) == 256 * (rb - ra));
        }
        lemma_le_value_injective(a.skip(1), b.skip(1));
        assert(a =~= seq![a[0]] + a.skip(1));
        assert(b =~= seq![b[0]] + b.skip(1));
    } else {
        assert(a =~= b);
    }
}

/// Sums of residues reduce to the residue of the sum.
pub proof fn lemma_add_mod_residues(x: nat, y: nat)
    ensures
        add_mod(x % modulus(), y % modulus()) == (x + y) % modulus(),
        add_mod(x % modulus(), y) == (x + y) % modulus(),
        add_mod(x, y % modulus()) == (x + y) % modulus(),
{
    let p = modulus() as int;
    vstd::arithmetic::div_mod::lemma_add_mod_noop(x as int, y as int, p);
    vstd::arithmetic::div_mod::lemma_add_mod_noop_right((x % modulus()) as int, y as int, p);
    vstd::arithmetic::div_mod::lemma_add_mod_noop_right(x as int, y as int, p);
    vstd::arithmetic::div_mod::lemma_mod_twice(y as int, p);
}

/// Products of residues reduce to the residue of the product.
pub proof fn lemma_mul_mod_residues(x: nat, y: nat)
    ensures
        mul_mod(x % modulus(), y % modulus()) == (x * y) % modulus(),
        mul_mod(x % modulus(), y) == (x * y) % modulus(),
        mul_mod(x, y % modulus()) == (x * y) % modulus(),
{
    vstd::arithmetic::div_mod::lemma_mul_mod_noop_general(x as int, y as int, modulus() as int);
}

/// An element of the scalar field.
#[derive(Clone, Copy, Debug, PartialEq, Eq, Structural, Hash)]
pub struct Scalar {
    pub(crate) l0: u64,
    pub(crate) l1: u64,
    pub(crate) l2: u64,
    pub(crate) l3: u64,
}

/// The number that four little-endian 64-bit limbs spell out.
pub open spec fn limbs_value(l0: u64, l1: u64, l2: u64, l3: u64) -> nat {
    (l0 as nat) + (l1 as nat) * 0x1_0000_0000_0000_0000nat + (l2 as nat)
        * 0x1_0000_0000_0000_0000_0000_0000_0000_0000nat + (l3 as nat)
        * 0x1_0000_0000_0000_0000_0000_0000_0000_0000_0000_0000_0000_0000nat
}

/// Limbs that spell out the same number are the same limbs.
proof fn lemma_limbs_unique(a0: u64, a1: u64, a2: u64, a3: u64, b0: u64, b1: u64, b2: u64, b3: u64)
    requires
        limbs_value(a0, a1, a2, a3) == limbs_value(b0, b1, b2, b3),
    ensures
        a0 == b0,
        a1 == b1,
        a2 == b2,
        a3 == b3,
{
    let base: int = 0x1_0000_0000_0000_0000;
    let k2: int = (a3 - b3) as int;
    let k1: int = (a2 - b2) + base * k2;
    let k0: int = (a1 - b1) + base * k1;
    assert((a0 - b0) + base * k0 == 0);
    assert(k0 == 0);
    assert(k1 == 0);
    assert(k2 == 0);
}

impl Scalar {
    /// The canonical representative of the element.
    pub closed spec fn view(&self) -> nat {
        limbs_value(self.l0, self.l1, self.l2, self.l3)
    }

    /// Every scalar in executable code is a canonical representative.
    #[verifier::type_invariant]
    pub open spec fn canonical(self) -> bool {
        self@ < modulus()
    }

    /// The limbs of the element, least significant first.
    pub closed spec fn spec_limbs(&self) -> (u64, u64, u64, u64) {
        (self.l0, self.l1, self.l2, self.l3)
    }

    /// Two scalars with the same view are the same scalar.
    pub proof fn lemma_view_injective(a: Scalar, b: Scalar)
        ensures
            a@ == b@ <==> a == b,
            a.spec_limbs() == b.spec_limbs() <==> a == b,
    {
        if a@ == b@ {
            lemma_limbs_unique(a.l0, a.l1, a.l2, a.l3, b.l0, b.l1, b.l2, b.l3);
        }
    }

    /// The additive identity.
    pub closed spec fn spec_zero() -> Scalar {
        Scalar { l0: 0, l1: 0, l2: 0, l3: 0 }
    }

    /// The additive identity is the scalar whose view is zero.
    pub proof fn lemma_spec_zero()
        ensures
            Scalar::spec_zero()@ == 0,
    {
    }

    /// The additive identity.
    pub fn zero() -> (r: Scalar)
        ensures
            r@ == 0,
            r == Scalar::spec_zero(),
    {
        Scalar { l0: 0, l1: 0, l2: 0, l3: 0 }
    }

    /// The multiplicative identity.
    pub closed spec fn spec_one() -> Scalar {
        Scalar { l0: 1, l1: 0, l2: 0, l3: 0 }
    }

    /// The additive inverse of the multiplicative identity.
    pub closed spec fn spec_neg_one() -> Scalar {
        Scalar {
            l0: 0xffffffff00000000,
            l1: 0x53bda402fffe5bfe,
            l2: 0x3339d80809a1d805,
            l3: 0x73eda753299d7d48,
        }
    }

    /// The additive inverse of one is the scalar whose view is the modulus
    /// less one.
    pub proof fn lemma_spec_neg_one()
        ensures
            Scalar::spec_neg_one()@ == modulus() - 1,
            Scalar::spec_neg_one()@ == neg_mod(1),
    {
        assert(Scalar::spec_neg_one()@ == modulus() - 1);
        assert(neg_mod(1) == modulus() - 1) by {
            vstd::arithmetic::div_mod::lemma_small_mod((modulus() - 1) as nat, modulus());
            vstd::arithmetic::div_mod::lemma_mod_multiples_vanish(
                1,
                -1int,
                modulus() as int,
            );
        }
    }

    /// The multiplicative identity is the scalar whose view is one.
    pub proof fn lemma_spec_one()
        ensures
            Scalar::spec_one()@ == 1,
    {
    }

    /// The multiplicative identity.
    pub fn one() -> (r: Scalar)
        ensures
            r@ == 1,
            r == Scalar::spec_one(),
    {
        Scalar { l0: 1, l1: 0, l2: 0, l3: 0 }
    }

    /// The element that a 64-bit integer stands for.
    pub fn from_u64(value: u64) -> (r: Scalar)
        ensures
            r@ == value,
    {
        Scalar { l0: value, l1: 0, l2: 0, l3: 0 }
    }

    /// The element with the given limbs, least significant first, if they
    /// spell out a canonical representative.
    pub fn from_limbs(l0: u64, l1: u64, l2: u64, l3: u64) -> (r: Option<Scalar>)
        ensures
            r is Some <==> limbs_value(l0, l1, l2, l3) < modulus(),
            r matches Some(s) ==> s@ == limbs_value(l0, l1, l2, l3) && s.spec_limbs() == (
                l0,
                l1,
                l2,
                l3,
            ),
    {
        let below = if l3 != 0x73eda753299d7d48 {
            l3 < 0x73eda753299d7d48
        } else if l2 != 0x3339d80809a1d805 {
            l2 < 0x3339d80809a1d805
        } else if l1 != 0x53bda402fffe5bfe {
            l1 < 0x53bda402fffe5bfe
        } else {
            l0 < 0xffffffff00000001
        };
        if below {
            Some(Scalar { l0, l1, l2, l3 })
        } else {
            None
        }
    }

    /// The limbs of the element, least significant first.
    pub fn limbs(&self) -> (r: (u64, u64, u64, u64))
        ensures
            r == self.spec_limbs(),
    {
        (self.l0, self.l1, self.l2, self.l3)
    }

    /// Whether `self` comes before `other` when field elements are ordered
    /// by their canonical representatives.
    pub fn lt(&self, other: &Scalar) -> (r: bool)
        ensures
            r == (self@ < other@),
    {
        if self.l3 != other.l3 {
            self.l3 < other.l3
        } else if self.l2 != other.l2 {
            self.l2 < other.l2
        } else if self.l1 != other.l1 {
            self.l1 < other.l1
        } else {
            self.l0 < other.l0
        }
    }

    /// Whether the element is the additive identity.
    pub fn is_zero(&self) -> (r: bool)
        ensures
            r == (self@ == 0),
    {
        self.l0 == 0 && self.l1 == 0 && self.l2 == 0 && self.l3 == 0
    }

    /// Field addition.
    pub fn add(&self, other: &Scalar) -> (r: Scalar)
        ensures
            r@ == add_mod(self@, other@),
    {
        fr_add(self, other)
    }

    /// Field subtraction.
    pub fn sub(&self, other: &Scalar) -> (r: Scalar)
        ensures
            r@ == sub_mod(self@, other@),
    {
        fr_sub(self, other)
    }

    /// Field multiplication.
    pub fn mul(&self, other: &Scalar) -> (r: Scalar)
        ensures
            r@ == mul_mod(self@, other@),
    {
        fr_mul(self, other)
    }

    /// Additive inverse.
    pub fn neg(&self) -> (r: Scalar)
        ensures
            r@ == neg_mod(self@),
    {
        fr_neg(self)
    }

    /// The square of the element.
    pub fn square(&self) -> (r: Scalar)
        ensures
            r@ == mul_mod(self@, self@),
    {
        fr_mul(self, self)
    }

    /// The canonical encoding of the element: the 32 little-endian bytes of
    /// its representative.
    pub fn to_bytes(&self) -> (r: Vec<u8>)
        ensures
            r@.len() == 32,
            le_value(r@) == self@,
    {
        fr_serialize(self)
    }

    /// Decodes 32 little-endian bytes. The bytes are rejected when the number
    /// they spell out is not below the modulus.
    pub fn from_bytes(bytes: &[u8]) -> (r: Option<Scalar>)
        ensures
            r is Some <==> bytes@.len() == 32 && le_value(bytes@) < modulus(),
            r matches Some(s) ==> s@ == le_value(bytes@),
    {
        if bytes.len() != 32 {
            return None;
        }
        fr_deserialize(bytes)
    }
}

/// `ark_ff`'s `Field::from_random_bytes` on `Fp256`, for at most 31 bytes:
/// the bytes are read as a little-endian number, which then lies below the
/// modulus.
#[verifier::external_body]
pub(crate) fn fr_from_random_bytes(bytes: &[u8]) -> (r: Option<Scalar>)
    requires
        bytes@.len() <= 31,
    ensures
        r is Some,
        r matches Some(s) ==> s@ == le_value(bytes@),
{
    match Fr::from_random_bytes(bytes) {
        Some(x) => {
            let z = x.into_repr().0;
            Some(Scalar { l0: z[0], l1: z[1], l2: z[2], l3: z[3] })
        },
        None => None,
    }
}

/// `ark_ff`'s addition on `Fp256`: the sum, reduced once by the modulus.
#[verifier::external_body]
fn fr_add(a: &Scalar, b: &Scalar) -> (r: Scalar)
    ensures
        r@ == add_mod(a@, b@),
{
    let x = Fr::from_repr(BigInteger256([a.l0, a.l1, a.l2, a.l3])).unwrap();
    let y = Fr::from_repr(BigInteger256([b.l0, b.l1, b.l2, b.l3])).unwrap();
    let z = (x + y).into_repr().0;
    Scalar { l0: z[0], l1: z[1], l2: z[2], l3: z[3] }
}

/// `ark_ff`'s subtraction on `Fp256`: the difference, with the modulus added
/// first where the subtrahend is the larger.
#[verifier::external_body]
fn fr_sub(a: &Scalar, b: &Scalar) -> (r: Scalar)
    ensures
        r@ == sub_mod(a@, b@),
{
    let x = Fr::from_repr(BigInteger256([a.l0, a.l1, a.l2, a.l3])).unwrap();
    let y = Fr::from_repr(BigInteger256([b.l0, b.l1, b.l2, b.l3])).unwrap();
    let z = (x - y).into_repr().0;
    Scalar { l0: z[0], l1: z[1], l2: z[2], l3: z[3] }
}

/// `ark_ff`'s Montgomery multiplication on `Fp256`, seen on canonical
/// representatives: the product modulo the field order.
#[verifier::external_body]
fn fr_mul(a: &Scalar, b: &Scalar) -> (r: Scalar)
    ensures
        r@ == mul_mod(a@, b@),
{
    let x = Fr::from_repr(BigInteger256([a.l0, a.l1, a.l2, a.l3])).unwrap();
    let y = Fr::from_repr(BigInteger256([b.l0, b.l1, b.l2, b.l3])).unwrap();
    let z = (x * y).into_repr().0;
    Scalar { l0: z[0], l1: z[1], l2: z[2], l3: z[3] }
}

/// `ark_ff`'s negation on `Fp256`: zero for zero, else the modulus less the
/// element.
#[verifier::external_body]
fn fr_neg(a: &Scalar) -> (r: Scalar)
    ensures
        r@ == neg_mod(a@),
{
    let x = Fr::from_repr(BigInteger256([a.l0, a.l1, a.l2, a.l3])).unwrap();
    let z = (-x).into_repr().0;
    Scalar { l0: z[0], l1: z[1], l2: z[2], l3: z[3] }
}

/// `ark_serialize`'s `CanonicalSerialize::serialize` on `Fp256`: the limbs of
/// the representative, least significant byte first, 32 bytes in all.
#[verifier::external_body]
fn fr_serialize(a: &Scalar) -> (r: Vec<u8>)
    ensures
        r@.len() == 32,
        le_value(r@) == a@,
{
    let x = Fr::from_repr(BigInteger256([a.l0, a.l1, a.l2, a.l3])).unwrap();
    let mut bytes = Vec::new();
    x.serialize(&mut bytes).unwrap();
    bytes
}

/// `ark_serialize`'s `CanonicalDeserialize::deserialize` on `Fp256`: reads 32
/// little-endian bytes and refuses a number that is not below the modulus.
#[verifier::external_body]
fn fr_deserialize(bytes: &[u8]) -> (r: Option<Scalar>)
    requires
        bytes@.len() == 32,
    ensures
        r is Some <==> le_value(bytes@) < modulus(),
        r matches Some(s) ==> s@ == le_value(bytes@),
{
    match <Fr as ark_serialize::CanonicalDeserialize>::deserialize(bytes) {
        Ok(x) => {
            let z = x.into_repr().0;
            Some(Scalar { l0: z[0], l1: z[1], l2: z[2], l3: z[3] })
        },
        Err(_) => None,
    }
}

} // verus!
