//! Helpers that fill a constraint system.

use crate::constraint_system::composer::StandardComposer;
use crate::constraint_system::permutation::with_gate_wires;
use crate::constraint_system::variable::{Variable, WireData};
use crate::field::{modulus, Scalar};
use vstd::prelude::*;

verus! {

/// The uses of the variables after the gadget has added `k` gates to a
/// composer that had `first_gate` gates and whose variable `var_one` was its
/// last: every gate has `var_one` on its left and right wire, a new variable
/// on its output wire and the zero variable on its fourth wire.
pub open spec fn dummy_uses(
    map: Seq<Seq<WireData>>,
    var_one: Variable,
    zero_var: Variable,
    first_gate: nat,
    k: nat,
) -> Seq<Seq<WireData>>
    decreases k,
{
    if k == 0 {
        map
    } else {
        let before = dummy_uses(map, var_one, zero_var, first_gate, (k - 1) as nat);
        with_gate_wires(
            before.push(Seq::<WireData>::empty()),
            var_one,
            var_one,
            Variable(before.len() as usize),
            zero_var,
            (first_gate + k - 1) as usize,
        )
    }
}

/// `n` copies of a selector.
pub open spec fn copies(q: Scalar, n: nat) -> Seq<Scalar> {
    Seq::new(n, |j: int| q)
}

/// Adds `n` gates that each add the witness value one to itself. They share
/// one new variable on their left and right wire, and each has an output
/// variable of its own, with the value two.
pub fn dummy_gadget(n: usize, composer: &mut StandardComposer)
    requires
        old(composer).wf(),
        old(composer).n + n <= usize::MAX,
    ensures
        final(composer).wf(),
        final(composer).n == old(composer).n + n,
        final(composer).zero_var == old(composer).zero_var,
        final(composer).public_inputs() == old(composer).public_inputs(),
        final(composer).variables@.len() == old(composer).variables@.len() + 1 + n,
        final(composer).variables@.take(old(composer).variables@.len() as int) == old(
            composer,
        ).variables@,
        final(composer).variables@[old(composer).variables@.len() as int]@ == 1,
        forall|j: int|
            old(composer).variables@.len() < j < final(composer).variables@.len() ==> (
            #[trigger] final(composer).variables@[j])@ == 2,
        final(composer).w_l@ == old(composer).w_l@ + Seq::new(
            n as nat,
            |j: int| Variable(old(composer).variables@.len() as usize),
        ),
        final(composer).w_r@ == old(composer).w_r@ + Seq::new(
            n as nat,
            |j: int| Variable(old(composer).variables@.len() as usize),
        ),
        final(composer).w_o@ == old(composer).w_o@ + Seq::new(
            n as nat,
            |j: int| Variable((old(composer).variables@.len() + 1 + j) as usize),
        ),
        final(composer).w_4@ == old(composer).w_4@ + Seq::new(
            n as nat,
            |j: int| old(composer).zero_var,
        ),
        final(composer).q_m@ == old(composer).q_m@ + copies(Scalar::spec_zero(), n as nat),
        final(composer).q_l@ == old(composer).q_l@ + copies(Scalar::spec_one(), n as nat),
        final(composer).q_r@ == old(composer).q_r@ + copies(Scalar::spec_one(), n as nat),
        final(composer).q_o@ == old(composer).q_o@ + copies(Scalar::spec_neg_one(), n as nat),
        final(composer).q_4@ == old(composer).q_4@ + copies(Scalar::spec_zero(), n as nat),
        final(composer).q_c@ == old(composer).q_c@ + copies(Scalar::spec_zero(), n as nat),
        final(composer).q_arith@ == old(composer).q_arith@ + copies(
            Scalar::spec_one(),
            n as nat,
        ),
        final(composer).q_range@ == old(composer).q_range@ + copies(
            Scalar::spec_zero(),
            n as nat,
        ),
        final(composer).q_logic@ == old(composer).q_logic@ + copies(
            Scalar::spec_zero(),
            n as nat,
        ),
        final(composer).q_lookup@ == old(composer).q_lookup@ + copies(
            Scalar::spec_zero(),
            n as nat,
        ),
        final(composer).q_fixed_group_add@ == old(composer).q_fixed_group_add@ + copies(
            Scalar::spec_zero(),
            n as nat,
        ),
        final(composer).q_variable_group_add@ == old(composer).q_variable_group_add@ + copies(
            Scalar::spec_zero(),
            n as nat,
        ),
        final(composer).perm@ == dummy_uses(
            old(composer).perm@.push(Seq::<WireData>::empty()),
            Variable(old(composer).variables@.len() as usize),
            old(composer).zero_var,
            old(composer).n as nat,
            n as nat,
        ),
{
    let one = Scalar::one();
    let var_one = composer.add_input(one);
    let ghost first_var = old(composer).variables@.len();
    let ghost first_gate = old(composer).n;
    let ghost zero_var = old(composer).zero_var;
    let mut i: usize = 0;
    proof {
        assert(composer.variables@.take(first_var as int) =~= old(composer).variables@);
        assert(composer.w_l@ =~= old(composer).w_l@ + Seq::new(0, |j: int| var_one));
        assert(composer.w_r@ =~= old(composer).w_r@ + Seq::new(0, |j: int| var_one));
        assert(composer.w_o@ =~= old(composer).w_o@ + Seq::new(
            0,
            |j: int| Variable((first_var + 1 + j) as usize),
        ));
        assert(composer.w_4@ =~= old(composer).w_4@ + Seq::new(0, |j: int| zero_var));
        assert(composer.q_m@ =~= old(composer).q_m@ + copies(Scalar::spec_zero(), 0));
        assert(composer.q_l@ =~= old(composer).q_l@ + copies(Scalar::spec_one(), 0));
        assert(composer.q_r@ =~= old(composer).q_r@ + copies(Scalar::spec_one(), 0));
        assert(composer.q_o@ =~= old(composer).q_o@ + copies(Scalar::spec_neg_one(), 0));
        assert(composer.q_4@ =~= old(composer).q_4@ + copies(Scalar::spec_zero(), 0));
        assert(composer.q_c@ =~= old(composer).q_c@ + copies(Scalar::spec_zero(), 0));
        assert(composer.q_arith@ =~= old(composer).q_arith@ + copies(Scalar::spec_one(), 0));
        assert(composer.q_range@ =~= old(composer).q_range@ + copies(Scalar::spec_zero(), 0));
        assert(composer.q_logic@ =~= old(composer).q_logic@ + copies(Scalar::spec_zero(), 0));
        assert(composer.q_lookup@ =~= old(composer).q_lookup@ + copies(Scalar::spec_zero(), 0));
        assert(composer.q_fixed_group_add@ =~= old(composer).q_fixed_group_add@ + copies(
            Scalar::spec_zero(),
            0,
        ));
        assert(composer.q_variable_group_add@ =~= old(composer).q_variable_group_add@ + copies(
            Scalar::spec_zero(),
            0,
        ));
    }
    while i < n
        invariant
            i <= n,
            composer.wf(),
            first_var == old(composer).variables@.len(),
            first_gate == old(composer).n,
            zero_var == old(composer).zero_var,
            first_gate + n <= usize::MAX,
            one == Scalar::spec_one(),
            one@ == 1,
            var_one.0 == first_var,
            composer.knows(var_one),
            composer.n == first_gate + i,
            composer.zero_var == zero_var,
            composer.public_inputs() == old(composer).public_inputs(),
            composer.variables@.len() == first_var + 1 + i,
            composer.variables@.take(first_var as int) == old(composer).variables@,
            composer.variables@[first_var as int]@ == 1,
            forall|j: int|
                first_var < j < composer.variables@.len() ==> (#[trigger] composer.variables@[j])@
                    == 2,
            composer.w_l@ == old(composer).w_l@ + Seq::new(i as nat, |j: int| var_one),
            composer.w_r@ == old(composer).w_r@ + Seq::new(i as nat, |j: int| var_one),
            composer.w_o@ == old(composer).w_o@ + Seq::new(
                i as nat,
                |j: int| Variable((first_var + 1 + j) as usize),
            ),
            composer.w_4@ == old(composer).w_4@ + Seq::new(i as nat, |j: int| zero_var),
            composer.q_m@ == old(composer).q_m@ + copies(Scalar::spec_zero(), i as nat),
            composer.q_l@ == old(composer).q_l@ + copies(Scalar::spec_one(), i as nat),
            composer.q_r@ == old(composer).q_r@ + copies(Scalar::spec_one(), i as nat),
            composer.q_o@ == old(composer).q_o@ + copies(Scalar::spec_neg_one(), i as nat),
            composer.q_4@ == old(composer).q_4@ + copies(Scalar::spec_zero(), i as nat),
            composer.q_c@ == old(composer).q_c@ + copies(Scalar::spec_zero(), i as nat),
            composer.q_arith@ == old(composer).q_arith@ + copies(Scalar::spec_one(), i as nat),
            composer.q_range@ == old(composer).q_range@ + copies(Scalar::spec_zero(), i as nat),
            composer.q_logic@ == old(composer).q_logic@ + copies(Scalar::spec_zero(), i as nat),
            composer.q_lookup@ == old(composer).q_lookup@ + copies(Scalar::spec_zero(), i as nat),
            composer.q_fixed_group_add@ == old(composer).q_fixed_group_add@ + copies(
                Scalar::spec_zero(),
                i as nat,
            ),
            composer.q_variable_group_add@ == old(composer).q_variable_group_add@ + copies(
                Scalar::spec_zero(),
                i as nat,
            ),
            composer.perm@ == dummy_uses(
                old(composer).perm@.push(Seq::<WireData>::empty()),
                var_one,
                zero_var,
                first_gate as nat,
                i as nat,
            ),
        decreases n - i,
    {
        let ghost before = *composer;
        let out = composer.add((one, var_one), (one, var_one), Scalar::zero(), None);
        proof {
            assert((1 * 1 + 1 * 1 + 0 * 0 + 0 + 0) as nat % modulus() == 2) by {
                vstd::arithmetic::div_mod::lemma_small_mod(2, modulus());
            }
            assert(composer.variables@.take(first_var as int) =~= before.variables@.take(
                first_var as int,
            ));
            assert(composer.w_l@ =~= old(composer).w_l@ + Seq::new(
                (i + 1) as nat,
                |j: int| var_one,
            ));
            assert(composer.w_r@ =~= old(composer).w_r@ + Seq::new(
                (i + 1) as nat,
                |j: int| var_one,
            ));
            assert(composer.w_o@ =~= old(composer).w_o@ + Seq::new(
                (i + 1) as nat,
                |j: int| Variable((first_var + 1 + j) as usize),
            ));
            assert(composer.w_4@ =~= old(composer).w_4@ + Seq::new(
                (i + 1) as nat,
                |j: int| zero_var,
            ));
            let next = (i + 1) as nat;
            assert(composer.q_m@ =~= old(composer).q_m@ + copies(Scalar::spec_zero(), next));
            assert(composer.q_l@ =~= old(composer).q_l@ + copies(Scalar::spec_one(), next));
            assert(composer.q_r@ =~= old(composer).q_r@ + copies(Scalar::spec_one(), next));
            assert(composer.q_o@ =~= old(composer).q_o@ + copies(Scalar::spec_neg_one(), next));
            assert(composer.q_4@ =~= old(composer).q_4@ + copies(Scalar::spec_zero(), next));
            assert(composer.q_c@ =~= old(composer).q_c@ + copies(Scalar::spec_zero(), next));
            assert(composer.q_arith@ =~= old(composer).q_arith@ + copies(
                Scalar::spec_one(),
                next,
            ));
            assert(composer.q_range@ =~= old(composer).q_range@ + copies(
                Scalar::spec_zero(),
                next,
            ));
            assert(composer.q_logic@ =~= old(composer).q_logic@ + copies(
                Scalar::spec_zero(),
                next,
            ));
            assert(composer.q_lookup@ =~= old(composer).q_lookup@ + copies(
                Scalar::spec_zero(),
                next,
            ));
            assert(composer.q_fixed_group_add@ =~= old(composer).q_fixed_group_add@ + copies(
                Scalar::spec_zero(),
                next,
            ));
            assert(composer.q_variable_group_add@ =~= old(composer).q_variable_group_add@
                + copies(Scalar::spec_zero(), next));
            assert(before.perm@.len() == before.variables@.len());
        }
        i += 1;
    }
}

} // verus!
