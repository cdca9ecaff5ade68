//! Dense polynomials over the scalar field and the domains they are
//! interpolated over.
//!
//! A [`Polynomial`] holds its coefficients from the constant term upwards and
//! never ends in a zero coefficient. Sums, scalar multiples and the inverse
//! Fourier transform are computed by `ark-poly`.

use crate::field::{add_mod, mul_mod, Scalar};
use crate::util::is_power_of_two;
use ark_poly::EvaluationDomain as ArkEvaluationDomain;
use ark_bls12_381::Fr;
use ark_ff::{BigInteger256, PrimeField};
use ark_poly::univariate::DensePolynomial;
use ark_poly::GeneralEvaluationDomain;
use vstd::prelude::*;

verus! {

/// The representatives of a sequence of scalars.
pub open spec fn values(s: Seq<Scalar>) -> Seq<nat> {
    s.map_values(|x: Scalar| x@)
}

/// A sequence of coefficients without the zeros at its end.
pub open spec fn trimmed(s: Seq<Scalar>) -> Seq<Scalar>
    decreases s.len(),
{
    if s.len() == 0 || s.last()@ != 0 {
        s
    } else {
        trimmed(s.drop_last())
    }
}

/// The coefficients that the inverse Fourier transform over the domain of
/// the given size yields for the given evaluations.
pub uninterp spec fn ifft_coefficients(evals: Seq<nat>, size: nat) -> Seq<nat>;

/// The largest domain that the scalar field offers: two to the power of its
/// two-adicity.
pub open spec fn max_domain_size() -> nat {
    0x1_0000_0000
}

/// A polynomial in coefficient form.
#[derive(Debug, PartialEq, Eq)]
pub struct Polynomial {
    pub(crate) coeffs: Vec<Scalar>,
}

impl Polynomial {
    /// The coefficients, the constant term first.
    pub closed spec fn view(&self) -> Seq<Scalar> {
        self.coeffs@
    }

    /// A polynomial never ends in a zero coefficient.
    #[verifier::type_invariant]
    pub open spec fn normalized(self) -> bool {
        self@.len() == 0 || self@.last()@ != 0
    }

    /// The coefficient of the `k`-th power: zero beyond the degree.
    pub open spec fn coeff(&self, k: int) -> nat {
        if 0 <= k < self@.len() {
            self@[k]@
        } else {
            0
        }
    }

    /// The zero polynomial.
    pub fn zero() -> (r: Polynomial)
        ensures
            r@.len() == 0,
    {
        Polynomial { coeffs: Vec::new() }
    }

    /// The polynomial with the given coefficients, the constant term first.
    /// Zeros at the end are dropped.
    pub fn from_coefficients_vec(coeffs: Vec<Scalar>) -> (r: Polynomial)
        ensures
            r@ == trimmed(coeffs@),
    {
        let ghost given = coeffs@;
        let mut coeffs = coeffs;
        while coeffs.len() > 0 && coeffs[coeffs.len() - 1].is_zero()
            invariant
                trimmed(coeffs@) == trimmed(given),
            decreases coeffs@.len(),
        {
            let ghost before = coeffs@;
            coeffs.pop();
            assert(coeffs@ =~= before.drop_last());
        }
        Polynomial { coeffs }
    }

    /// The coefficients, the constant term first.
    pub fn coeffs(&self) -> (r: &Vec<Scalar>)
        ensures
            r@ == self@,
    {
        &self.coeffs
    }

    /// The sum of two polynomials.
    pub fn add(&self, other: &Polynomial) -> (r: Polynomial)
        ensures
            forall|k: int| r.coeff(k) == add_mod(self.coeff(k), other.coeff(k)),
            r.normalized(),
    {
        dense_add(self, other)
    }

    /// The polynomial with every coefficient multiplied by `elem`.
    pub fn scale(&self, elem: &Scalar) -> (r: Polynomial)
        ensures
            forall|k: int| r.coeff(k) == mul_mod(self.coeff(k), elem@),
            r.normalized(),
    {
        dense_scale(self, elem)
    }
}

impl Clone for Polynomial {
    /// A polynomial with the same coefficients.
    fn clone(&self) -> (r: Polynomial)
        ensures
            r@ == self@,
    {
        proof {
            use_type_invariant(self);
        }
        let mut coeffs: Vec<Scalar> = Vec::new();
        let mut i: usize = 0;
        while i < self.coeffs.len()
            invariant
                i <= self.coeffs@.len(),
                coeffs@ == self.coeffs@.take(i as int),
            decreases self.coeffs@.len() - i,
        {
            coeffs.push(self.coeffs[i]);
            assert(self.coeffs@.take(i + 1) =~= self.coeffs@.take(i as int).push(
                self.coeffs@[i as int],
            ));
            i += 1;
        }
        assert(self.coeffs@.take(self.coeffs@.len() as int) =~= self.coeffs@);
        Polynomial { coeffs }
    }
}

/// The values of a polynomial on a domain, in the order of the domain.
#[derive(Debug, PartialEq, Eq)]
pub struct Evaluations {
    /// The values.
    pub evals: Vec<Scalar>,
    /// The domain.
    pub domain: EvaluationDomain,
}

impl Evaluations {
    /// The values, in the order of the domain.
    pub open spec fn view(&self) -> Seq<Scalar> {
        self.evals@
    }

    /// The value at the `index`-th point of the domain.
    pub fn get(&self, index: usize) -> (r: Scalar)
        requires
            index < self@.len(),
        ensures
            r == self@[index as int],
    {
        self.evals[index]
    }
}

/// A multiplicative subgroup of the scalar field whose order is a power of
/// two, over which polynomials are interpolated.
#[derive(Clone, Copy, Debug, PartialEq, Eq)]
pub struct EvaluationDomain {
    size: usize,
}

impl EvaluationDomain {
    /// The number of elements of the domain.
    pub closed spec fn spec_size(&self) -> nat {
        self.size as nat
    }

    /// The size of a domain is a power of two that the field offers.
    #[verifier::type_invariant]
    pub open spec fn well_sized(self) -> bool {
        is_power_of_two(self.spec_size()) && self.spec_size() <= max_domain_size()
    }

    /// The smallest domain with room for `num_coeffs` coefficients, if the
    /// field has one and the machine can count its elements.
    pub fn new(num_coeffs: usize) -> (r: Option<EvaluationDomain>)
        ensures
            r is Some <==> num_coeffs <= max_domain_size() && num_coeffs <= usize::MAX / 2 + 1,
            r matches Some(d) ==> is_power_of_two(d.spec_size()) && d.spec_size() >= num_coeffs
                && (d.spec_size() == 1 || d.spec_size() / 2 < num_coeffs),
    {
        if num_coeffs as u64 > 0x1_0000_0000 || num_coeffs > usize::MAX / 2 + 1 {
            return None;
        }
        let mut size: usize = 1;
        while size < num_coeffs
            invariant
                is_power_of_two(size as nat),
                size <= 0x1_0000_0000,
                size == 1 || size / 2 < num_coeffs,
                num_coeffs <= 0x1_0000_0000,
                num_coeffs <= usize::MAX / 2 + 1,
            decreases 0x1_0000_0000 - size,
        {
            proof {
                lemma_power_of_two_below(size as nat);
            }
            size = size * 2;
        }
        Some(EvaluationDomain { size })
    }

    /// The number of elements of the domain.
    pub fn size(&self) -> (r: usize)
        ensures
            r == self.spec_size(),
    {
        self.size
    }

    /// The coefficients of the polynomial of least degree that takes the
    /// given values on the domain, as many as the domain has elements.
    /// Values beyond the size of the domain are left out, and missing ones
    /// count as zero.
    pub fn ifft(&self, evals: &Vec<Scalar>) -> (r: Vec<Scalar>)
        ensures
            r@.len() == self.spec_size(),
            values(r@) == ifft_coefficients(values(evals@), self.spec_size()),
    {
        proof {
            use_type_invariant(self);
        }
        radix2_ifft(evals, self.size)
    }
}

/// A power of two below the largest domain size doubles without passing it.
proof fn lemma_power_of_two_below(n: nat)
    requires
        is_power_of_two(n),
        n < 0x1_0000_0000,
    ensures
        2 * n <= 0x1_0000_0000,
        is_power_of_two(2 * n),
{
    vstd::arithmetic::power2::lemma2_to64();
    lemma_power_of_two_divides(n, 32);
}

/// A power of two below `2^k` divides `2^k`'s half-open steps: it is at most
/// the half of it.
proof fn lemma_power_of_two_divides(n: nat, k: nat)
    requires
        is_power_of_two(n),
        n < vstd::arithmetic::power2::pow2(k),
    ensures
        2 * n <= vstd::arithmetic::power2::pow2(k),
        is_power_of_two(2 * n),
        k == 32 ==> vstd::arithmetic::power2::pow2(k) == 0x1_0000_0000,
    decreases n,
{
    vstd::arithmetic::power2::lemma2_to64();
    vstd::arithmetic::power2::lemma_pow2_pos(k);
    assert(is_power_of_two(2 * n)) by {
        assert((2 * n) / 2 == n);
    }
    if n > 1 {
        assert(k > 0) by {
            if k == 0 {
                assert(vstd::arithmetic::power2::pow2(0) == 1);
            }
        }
        vstd::arithmetic::power2::lemma_pow2_unfold(k);
        lemma_power_of_two_divides(n / 2, (k - 1) as nat);
    } else {
        if k == 0 {
            assert(vstd::arithmetic::power2::pow2(0) == 1);
        } else {
            vstd::arithmetic::power2::lemma_pow2_unfold(k);
            vstd::arithmetic::power2::lemma_pow2_pos((k - 1) as nat);
        }
    }
}

/// `ark_poly`'s sum of two `DensePolynomial`s: the coefficients are added
/// power by power, and zeros at the end of the sum are dropped.
#[verifier::external_body]
fn dense_add(a: &Polynomial, b: &Polynomial) -> (r: Polynomial)
    ensures
        forall|k: int| r.coeff(k) == add_mod(a.coeff(k), b.coeff(k)),
        r.normalized(),
{
    let lift = |s: &Scalar| Fr::from_repr(BigInteger256([s.l0, s.l1, s.l2, s.l3])).unwrap();
    let lower = |l: [u64; 4]| Scalar { l0: l[0], l1: l[1], l2: l[2], l3: l[3] };
    let x = DensePolynomial { coeffs: a.coeffs.iter().map(lift).collect() };
    let y = DensePolynomial { coeffs: b.coeffs.iter().map(lift).collect() };
    let z = &x + &y;
    Polynomial { coeffs: z.coeffs.iter().map(|c| lower(c.into_repr().0)).collect() }
}

/// `ark_poly`'s product of a `DensePolynomial` with a field element: every
/// coefficient is multiplied by the element, and the product with zero is
/// the zero polynomial.
#[verifier::external_body]
fn dense_scale(a: &Polynomial, elem: &Scalar) -> (r: Polynomial)
    ensures
        forall|k: int| r.coeff(k) == mul_mod(a.coeff(k), elem@),
        r.normalized(),
{
    let lift = |s: &Scalar| Fr::from_repr(BigInteger256([s.l0, s.l1, s.l2, s.l3])).unwrap();
    let lower = |l: [u64; 4]| Scalar { l0: l[0], l1: l[1], l2: l[2], l3: l[3] };
    let x = DensePolynomial { coeffs: a.coeffs.iter().map(lift).collect() };
    let z = &x * lift(elem);
    Polynomial { coeffs: z.coeffs.iter().map(|c| lower(c.into_repr().0)).collect() }
}

/// `ark_poly`'s `EvaluationDomain::ifft` on the radix-2 domain of the given
/// size: the input is cut or filled with zeros to the size of the domain,
/// and as many coefficients come back.
#[verifier::external_body]
fn radix2_ifft(evals: &Vec<Scalar>, size: usize) -> (r: Vec<Scalar>)
    requires
        is_power_of_two(size as nat),
        size <= max_domain_size(),
    ensures
        r@.len() == size,
        values(r@) == ifft_coefficients(values(evals@), size as nat),
{
    let lift = |s: &Scalar| Fr::from_repr(BigInteger256([s.l0, s.l1, s.l2, s.l3])).unwrap();
    let lower = |l: [u64; 4]| Scalar { l0: l[0], l1: l[1], l2: l[2], l3: l[3] };
    let domain = GeneralEvaluationDomain::<Fr>::new(size).unwrap();
    let x: Vec<Fr> = evals.iter().map(lift).collect();
    let z = domain.ifft(&x);
    z.iter().map(|c| lower(c.into_repr().0)).collect()
}

} // verus!
