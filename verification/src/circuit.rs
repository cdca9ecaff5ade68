//! The public side of a circuit: the values that a verifier is given and the
//! places of the circuit in which they stand.

use crate::field::{neg_mod, Scalar};
use crate::proof_system::VerifierKey;
use vstd::prelude::*;

verus! {

/// A public input in the form in which the proof system takes it: one or
/// more field elements.
#[derive(Debug, Default)]
pub struct PublicInputValue {
    /// The field elements.
    pub values: Vec<Scalar>,
}

impl PublicInputValue {
    /// The field elements of the public input.
    pub open spec fn view(&self) -> Seq<Scalar> {
        self.values@
    }

    /// A field element as a public input.
    pub fn fe_into(value: Scalar) -> (r: PublicInputValue)
        ensures
            r@ == seq![value],
    {
        let values: Vec<Scalar> = vec![value];
        PublicInputValue { values }
    }

    /// A point of the embedded curve as a public input: its two affine
    /// coordinates.
    pub fn ge_into(x: Scalar, y: Scalar) -> (r: PublicInputValue)
        ensures
            r@ == seq![x, y],
    {
        let values: Vec<Scalar> = vec![x, y];
        PublicInputValue { values }
    }
}

/// What a verifier keeps of a circuit: the verifier key and the positions
/// of the public inputs.
#[derive(Debug)]
pub struct VerifierData {
    key: VerifierKey,
    pi_pos: Vec<usize>,
}

impl VerifierData {
    /// The verifier key.
    pub closed spec fn spec_key(&self) -> VerifierKey {
        self.key
    }

    /// The positions of the public inputs.
    pub closed spec fn spec_pi_pos(&self) -> Seq<usize> {
        self.pi_pos@
    }

    /// The data of a circuit with the given verifier key and positions of
    /// public inputs.
    pub fn new(key: VerifierKey, pi_pos: Vec<usize>) -> (r: VerifierData)
        ensures
            r.spec_key() == key,
            r.spec_pi_pos() == pi_pos@,
    {
        VerifierData { key, pi_pos }
    }

    /// The verifier key.
    pub fn key(self) -> (r: VerifierKey)
        ensures
            r == self.spec_key(),
    {
        self.key
    }

    /// The positions of the public inputs.
    pub fn pi_pos(&self) -> (r: &Vec<usize>)
        ensures
            r@ == self.spec_pi_pos(),
    {
        &self.pi_pos
    }
}

/// The field elements of the first `n` public inputs, one after another.
pub open spec fn flattened(inputs: Seq<PublicInputValue>, n: nat) -> Seq<Scalar>
    decreases n,
{
    if n == 0 {
        Seq::empty()
    } else {
        flattened(inputs, (n - 1) as nat) + inputs[n - 1]@
    }
}

/// The vector of public inputs after the first `k` field elements have been
/// written: zero everywhere but at the positions of those elements, where
/// the additive inverse of the element stands.
pub open spec fn pi_vector(values: Seq<Scalar>, positions: Seq<usize>, size: nat, k: nat) -> Seq<
    nat,
>
    decreases k,
{
    if k == 0 {
        Seq::new(size, |i: int| 0nat)
    } else {
        pi_vector(values, positions, size, (k - 1) as nat).update(
            positions[k - 1] as int,
            neg_mod(values[k - 1]@),
        )
    }
}

/// The number of field elements that find a position.
pub open spec fn placed(values: Seq<Scalar>, positions: Seq<usize>) -> nat {
    if values.len() <= positions.len() {
        values.len()
    } else {
        positions.len()
    }
}

/// Builds the vector of public inputs of a circuit with `trim_size` gates:
/// the field elements of the public inputs, in their order, take the
/// positions in their order, each with the opposite sign. Elements or
/// positions that are left over are left out.
pub fn build_pi(
    pub_input_values: &[PublicInputValue],
    pub_input_pos: &[usize],
    trim_size: usize,
) -> (r: Vec<Scalar>)
    requires
        forall|j: int|
            0 <= j < placed(
                flattened(pub_input_values@, pub_input_values@.len()),
                pub_input_pos@,
            ) ==> #[trigger] pub_input_pos@[j] < trim_size,
    ensures
        r@.len() == trim_size,
        crate::poly::values(r@) == pi_vector(
            flattened(pub_input_values@, pub_input_values@.len()),
            pub_input_pos@,
            trim_size as nat,
            placed(flattened(pub_input_values@, pub_input_values@.len()), pub_input_pos@),
        ),
{
    let ghost flat = flattened(pub_input_values@, pub_input_values@.len());
    let mut pi: Vec<Scalar> = Vec::new();
    let mut i: usize = 0;
    while i < trim_size
        invariant
            i <= trim_size,
            pi@.len() == i,
            forall|k: int| 0 <= k < i ==> (#[trigger] pi@[k])@ == 0,
        decreases trim_size - i,
    {
        pi.push(Scalar::zero());
        i += 1;
    }
    assert(crate::poly::values(pi@) =~= pi_vector(flat, pub_input_pos@, trim_size as nat, 0));
    let mut written: usize = 0;
    let mut outer: usize = 0;
    while outer < pub_input_values.len() && written < pub_input_pos.len()
        invariant
            flat == flattened(pub_input_values@, pub_input_values@.len()),
            outer <= pub_input_values@.len(),
            written <= pub_input_pos@.len(),
            written <= flattened(pub_input_values@, outer as nat).len(),
            written < pub_input_pos@.len() ==> written == flattened(
                pub_input_values@,
                outer as nat,
            ).len(),
            pi@.len() == trim_size,
            forall|j: int| 0 <= j < placed(flat, pub_input_pos@) ==> #[trigger] pub_input_pos@[j]
                < trim_size,
            crate::poly::values(pi@) == pi_vector(
                flat,
                pub_input_pos@,
                trim_size as nat,
                written as nat,
            ),
        decreases pub_input_values@.len() - outer,
    {
        let input = &pub_input_values[outer];
        let ghost start = flattened(pub_input_values@, outer as nat);
        proof {
            lemma_flattened_prefix(pub_input_values@, (outer + 1) as nat, pub_input_values@.len());
        }
        let mut inner: usize = 0;
        while inner < input.values.len() && written < pub_input_pos.len()
            invariant
                flat == flattened(pub_input_values@, pub_input_values@.len()),
                outer < pub_input_values@.len(),
                input == &pub_input_values@[outer as int],
                start == flattened(pub_input_values@, outer as nat),
                (start + input@).len() <= flat.len(),
                forall|k: int| 0 <= k < (start + input@).len() ==> flat[k] == (start + input@)[k],
                inner <= input@.len(),
                written <= pub_input_pos@.len(),
                written <= start.len() + inner,
                written < pub_input_pos@.len() ==> written == start.len() + inner,
                pi@.len() == trim_size,
                forall|j: int|
                    0 <= j < placed(flat, pub_input_pos@) ==> #[trigger] pub_input_pos@[j]
                        < trim_size,
                crate::poly::values(pi@) == pi_vector(
                    flat,
                    pub_input_pos@,
                    trim_size as nat,
                    written as nat,
                ),
            decreases input@.len() - inner,
        {
            let value = input.values[inner];
            let pos = pub_input_pos[written];
            let ghost before = pi@;
            proof {
                assert(flat[written as int] == (start + input@)[written as int]);
                assert(written < placed(flat, pub_input_pos@));
            }
            pi.set(pos, value.neg());
            proof {
                assert(crate::poly::values(pi@) =~= crate::poly::values(before).update(
                    pos as int,
                    neg_mod(value@),
                ));
            }
            written += 1;
            inner += 1;
        }
        proof {
            assert(flattened(pub_input_values@, (outer + 1) as nat) == start + input@);
        }
        outer += 1;
    }
    proof {
        lemma_flattened_prefix(pub_input_values@, outer as nat, pub_input_values@.len());
        assert(written == placed(flat, pub_input_pos@));
    }
    pi
}

/// The flattening of the first inputs is a prefix of the flattening of
/// more.
proof fn lemma_flattened_prefix(inputs: Seq<PublicInputValue>, n: nat, m: nat)
    requires
        n <= m,
    ensures
        flattened(inputs, n).len() <= flattened(inputs, m).len(),
        forall|k: int|
            0 <= k < flattened(inputs, n).len() ==> flattened(inputs, m)[k] == flattened(
                inputs,
                n,
            )[k],
    decreases m,
{
    if n < m {
        lemma_flattened_prefix(inputs, n, (m - 1) as nat);
    }
}

} // verus!
