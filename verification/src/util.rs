//! Small arithmetic helpers shared by the modules.

use crate::field::{add_mod, mul_mod, Scalar};
use vstd::arithmetic::div_mod::{lemma_fundamental_div_mod, lemma_mod_multiples_basic};
use vstd::prelude::*;

verus! {

/// Whether `n` is a power of two.
pub open spec fn is_power_of_two(n: nat) -> bool
    decreases n,
{
    if n <= 1 {
        n == 1
    } else {
        n % 2 == 0 && is_power_of_two(n / 2)
    }
}

/// Decides whether `n` is a power of two.
pub fn check_power_of_two(n: u64) -> (r: bool)
    ensures
        r == is_power_of_two(n as nat),
{
    let mut m: u64 = n;
    while m > 1 && m % 2 == 0
        invariant
            is_power_of_two(m as nat) == is_power_of_two(n as nat),
        decreases m,
    {
        m = m / 2;
    }
    m == 1
}

/// Whether `p` is a prime number.
pub open spec fn is_prime(p: nat) -> bool {
    p > 1 && forall|d: nat| 1 < d < p ==> #[trigger] (p % d) != 0
}

/// A prime that divides a product divides one of the factors: if it divides
/// `a * b` and `a` lies strictly between zero and the prime, it divides `b`.
pub proof fn lemma_prime_divides_factor(p: nat, a: nat, b: nat)
    requires
        is_prime(p),
        0 < a < p,
        (a * b) % p == 0,
    ensures
        b % p == 0,
    decreases a,
{
    if a == 1 {
        assert(a * b == b) by (nonlinear_arith)
            requires
                a == 1,
        ;
    } else {
        let q = p / a;
        let r = p % a;
        assert(r != 0);
        lemma_fundamental_div_mod(p as int, a as int);
        let k = (a * b) / p;
        lemma_fundamental_div_mod((a * b) as int, p as int);
        assert(r * b == p * (b - q * k)) by (nonlinear_arith)
            requires
                p == a * q + r,
                a * b == p * k,
        ;
        lemma_mod_multiples_basic(b - q * k, p as int);
        assert(p * (b - q * k) == (b - q * k) * p) by (nonlinear_arith);
        lemma_prime_divides_factor(p, r, b);
    }
}

/// `base` to the power `exp` in the scalar field.
pub open spec fn pow_mod(base: nat, exp: nat) -> nat
    decreases exp,
{
    if exp == 0 {
        1
    } else {
        mul_mod(pow_mod(base, (exp - 1) as nat), base)
    }
}

/// The powers `1, base, base^2, ..` of a field element, up to and including
/// the power `max_degree`.
pub fn powers_of(base: &Scalar, max_degree: usize) -> (r: Vec<Scalar>)
    requires
        max_degree < usize::MAX,
    ensures
        r@.len() == max_degree + 1,
        forall|i: int| 0 <= i <= max_degree ==> (#[trigger] r@[i])@ == pow_mod(base@, i as nat),
{
    let mut powers: Vec<Scalar> = Vec::new();
    let mut current = Scalar::one();
    powers.push(current);
    let mut i: usize = 0;
    while i < max_degree
        invariant
            i <= max_degree,
            powers@.len() == i + 1,
            current@ == pow_mod(base@, i as nat),
            forall|k: int| 0 <= k <= i ==> (#[trigger] powers@[k])@ == pow_mod(base@, k as nat),
        decreases max_degree - i,
    {
        current = current.mul(base);
        powers.push(current);
        i += 1;
    }
    powers
}

/// The linear combination of the values from the `k`-th on with the powers
/// of the challenge, by Horner's rule: the `k`-th value plus the challenge
/// times the combination of the later ones.
pub open spec fn lc_value(values: Seq<Scalar>, challenge: nat, k: nat) -> nat
    decreases values.len() - k,
{
    if k >= values.len() {
        0
    } else {
        add_mod(mul_mod(lc_value(values, challenge, k + 1), challenge), values[k as int]@)
    }
}

/// The linear combination of the values with the powers of the challenge,
/// the first value taking the power zero.
pub fn lc(values: &[Scalar], challenge: &Scalar) -> (r: Scalar)
    ensures
        r@ == lc_value(values@, challenge@, 0),
{
    let mut acc = Scalar::zero();
    let mut k: usize = values.len();
    while k > 0
        invariant
            k <= values@.len(),
            acc@ == lc_value(values@, challenge@, k as nat),
        decreases k,
    {
        k -= 1;
        acc = acc.mul(challenge).add(&values[k]);
    }
    acc
}

} // verus!
