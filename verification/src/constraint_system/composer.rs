//! The composer: the one structure that holds the shape of a circuit.
//!
//! A circuit is a list of gates. The composer keeps, gate by gate, the four
//! wires and the selector coefficients in parallel columns, and beside them
//! the witness values, the public inputs and the uses of every variable.

use crate::constraint_system::permutation::{with_gate_wires, Permutation};
use crate::constraint_system::variable::{Variable, WireData};
use crate::field::Scalar;
use std::collections::BTreeMap;
use vstd::prelude::*;

verus! {

/// One row of the circuit: four wires, the selector coefficients of the
/// arithmetic relation and, where there is one, its public input.
#[derive(Clone, Copy, Debug)]
pub struct Gate {
    /// The left wire.
    pub a: Variable,
    /// The right wire.
    pub b: Variable,
    /// The output wire.
    pub c: Variable,
    /// The fourth wire.
    pub d: Variable,
    /// The coefficient of the product of left and right wire.
    pub q_m: Scalar,
    /// The coefficient of the left wire.
    pub q_l: Scalar,
    /// The coefficient of the right wire.
    pub q_r: Scalar,
    /// The coefficient of the output wire.
    pub q_o: Scalar,
    /// The coefficient of the fourth wire.
    pub q_4: Scalar,
    /// The constant of the relation.
    pub q_c: Scalar,
    /// The public input, where there is one.
    pub pi: Option<Scalar>,
}

/// A constraint system under construction.
#[derive(Debug)]
pub struct StandardComposer {
    /// The number of gates.
    pub n: usize,
    /// Multiplication selector.
    pub q_m: Vec<Scalar>,
    /// Left wire selector.
    pub q_l: Vec<Scalar>,
    /// Right wire selector.
    pub q_r: Vec<Scalar>,
    /// Output wire selector.
    pub q_o: Vec<Scalar>,
    /// Fourth wire selector.
    pub q_4: Vec<Scalar>,
    /// Constant selector.
    pub q_c: Vec<Scalar>,
    /// Arithmetic gate selector.
    pub q_arith: Vec<Scalar>,
    /// Range gate selector.
    pub q_range: Vec<Scalar>,
    /// Logic gate selector.
    pub q_logic: Vec<Scalar>,
    /// Lookup gate selector.
    pub q_lookup: Vec<Scalar>,
    /// Fixed-base group addition selector.
    pub q_fixed_group_add: Vec<Scalar>,
    /// Variable-base group addition selector.
    pub q_variable_group_add: Vec<Scalar>,
    /// The public inputs, by the position of their gate.
    pub public_inputs_sparse_store: BTreeMap<usize, Scalar>,
    /// Left wires.
    pub w_l: Vec<Variable>,
    /// Right wires.
    pub w_r: Vec<Variable>,
    /// Output wires.
    pub w_o: Vec<Variable>,
    /// Fourth wires.
    pub w_4: Vec<Variable>,
    /// The variable that is fixed to zero.
    pub zero_var: Variable,
    /// The witness values, by the index of their variable.
    pub variables: Vec<Scalar>,
    /// The uses of every variable.
    pub perm: Permutation,
}

impl StandardComposer {
    /// Whether `var` is a handle that this composer has given out.
    pub open spec fn knows(&self, var: Variable) -> bool {
        var.0 < self.variables@.len()
    }

    /// The witness value behind a handle.
    pub open spec fn value_of(&self, var: Variable) -> nat {
        self.variables@[var.0 as int]@
    }

    /// The public inputs, by the position of their gate.
    pub open spec fn public_inputs(&self) -> Map<usize, Scalar> {
        self.public_inputs_sparse_store@
    }

    /// A composer is well formed when every column has one entry per gate,
    /// every wire carries a variable of the composer, every public input
    /// belongs to a gate, every variable has its list of uses, and the zero
    /// variable stands for zero.
    pub open spec fn wf(&self) -> bool {
        &&& self.q_m@.len() == self.n
        &&& self.q_l@.len() == self.n
        &&& self.q_r@.len() == self.n
        &&& self.q_o@.len() == self.n
        &&& self.q_4@.len() == self.n
        &&& self.q_c@.len() == self.n
        &&& self.q_arith@.len() == self.n
        &&& self.q_range@.len() == self.n
        &&& self.q_logic@.len() == self.n
        &&& self.q_lookup@.len() == self.n
        &&& self.q_fixed_group_add@.len() == self.n
        &&& self.q_variable_group_add@.len() == self.n
        &&& self.w_l@.len() == self.n
        &&& self.w_r@.len() == self.n
        &&& self.w_o@.len() == self.n
        &&& self.w_4@.len() == self.n
        &&& forall|i: int| 0 <= i < self.n ==> self.knows(#[trigger] self.w_l@[i])
        &&& forall|i: int| 0 <= i < self.n ==> self.knows(#[trigger] self.w_r@[i])
        &&& forall|i: int| 0 <= i < self.n ==> self.knows(#[trigger] self.w_o@[i])
        &&& forall|i: int| 0 <= i < self.n ==> self.knows(#[trigger] self.w_4@[i])
        &&& forall|k: usize| #[trigger] self.public_inputs().contains_key(k) ==> k < self.n
        &&& self.perm@.len() == self.variables@.len()
        &&& self.knows(self.zero_var)
        &&& self.value_of(self.zero_var) == 0
    }

    /// Whether `post` has the columns of `pre` with one more row: every
    /// column has taken the entry of `g` at the position `pre.n`, the
    /// selectors of the other gate types have taken zero and the arithmetic
    /// selector one, and the public input of `g` is recorded at that
    /// position.
    pub open spec fn row_appended(pre: StandardComposer, post: StandardComposer, g: Gate) -> bool {
        &&& post.n == pre.n + 1
        &&& post.w_l@ == pre.w_l@.push(g.a)
        &&& post.w_r@ == pre.w_r@.push(g.b)
        &&& post.w_o@ == pre.w_o@.push(g.c)
        &&& post.w_4@ == pre.w_4@.push(g.d)
        &&& post.q_m@ == pre.q_m@.push(g.q_m)
        &&& post.q_l@ == pre.q_l@.push(g.q_l)
        &&& post.q_r@ == pre.q_r@.push(g.q_r)
        &&& post.q_o@ == pre.q_o@.push(g.q_o)
        &&& post.q_4@ == pre.q_4@.push(g.q_4)
        &&& post.q_c@ == pre.q_c@.push(g.q_c)
        &&& post.q_arith@ == pre.q_arith@.push(Scalar::spec_one())
        &&& post.q_range@ == pre.q_range@.push(Scalar::spec_zero())
        &&& post.q_logic@ == pre.q_logic@.push(Scalar::spec_zero())
        &&& post.q_lookup@ == pre.q_lookup@.push(Scalar::spec_zero())
        &&& post.q_fixed_group_add@ == pre.q_fixed_group_add@.push(Scalar::spec_zero())
        &&& post.q_variable_group_add@ == pre.q_variable_group_add@.push(Scalar::spec_zero())
        &&& post.public_inputs() == match g.pi {
            Some(value) => pre.public_inputs().insert(pre.n, value),
            None => pre.public_inputs(),
        }
        &&& post.zero_var == pre.zero_var
    }

    /// Whether `post` is `pre` with one more gate over variables that `pre`
    /// knows: a row more in the columns, the four wires among the uses of
    /// their variables, and the witness values as they were.
    pub open spec fn gate_appended(pre: StandardComposer, post: StandardComposer, g: Gate) -> bool {
        &&& StandardComposer::row_appended(pre, post, g)
        &&& post.perm@ == with_gate_wires(pre.perm@, g.a, g.b, g.c, g.d, pre.n)
        &&& post.variables@ == pre.variables@
    }

    /// Whether `post` is `pre` with one more gate whose output is a variable
    /// made for it: the witness values have taken `output` for the new
    /// variable `g.c`, and then `g` was appended.
    pub open spec fn gate_computed(
        pre: StandardComposer,
        post: StandardComposer,
        g: Gate,
        output: Scalar,
    ) -> bool {
        &&& g.c.0 == pre.variables@.len()
        &&& StandardComposer::row_appended(pre, post, g)
        &&& post.variables@ == pre.variables@.push(output)
        &&& post.perm@ == with_gate_wires(
            pre.perm@.push(Seq::<WireData>::empty()),
            g.a,
            g.b,
            g.c,
            g.d,
            pre.n,
        )
    }

    /// A composer without gates. It knows one variable, fixed to zero.
    pub fn new() -> (r: StandardComposer)
        ensures
            r.wf(),
            r.n == 0,
            r.variables@.len() == 1,
            r.zero_var == Variable(0),
            r.public_inputs() == Map::<usize, Scalar>::empty(),
            r.perm@ == seq![Seq::<WireData>::empty()],
    {
        let mut perm = Permutation::new();
        let zero_var = perm.new_variable();
        assert(perm@ =~= seq![Seq::<WireData>::empty()]);
        let mut variables: Vec<Scalar> = Vec::new();
        variables.push(Scalar::zero());
        StandardComposer {
            n: 0,
            q_m: Vec::new(),
            q_l: Vec::new(),
            q_r: Vec::new(),
            q_o: Vec::new(),
            q_4: Vec::new(),
            q_c: Vec::new(),
            q_arith: Vec::new(),
            q_range: Vec::new(),
            q_logic: Vec::new(),
            q_lookup: Vec::new(),
            q_fixed_group_add: Vec::new(),
            q_variable_group_add: Vec::new(),
            public_inputs_sparse_store: BTreeMap::new(),
            w_l: Vec::new(),
            w_r: Vec::new(),
            w_o: Vec::new(),
            w_4: Vec::new(),
            zero_var,
            variables,
            perm,
        }
    }

    /// The number of gates.
    pub fn circuit_size(&self) -> (r: usize)
        ensures
            r == self.n,
    {
        self.n
    }

    /// The positions of the gates that have a public input, the least
    /// first.
    pub fn pi_positions(&self) -> (r: Vec<usize>)
        requires
            self.wf(),
        ensures
            forall|i: int, j: int| 0 <= i < j < r@.len() ==> r@[i] < r@[j],
            forall|k: usize| r@.contains(k) <==> self.public_inputs().contains_key(k),
    {
        broadcast use vstd::laws_cmp::group_laws_cmp;
        broadcast use vstd::std_specs::btree::group_btree_axioms;

        let mut positions: Vec<usize> = Vec::new();
        let mut at: usize = 0;
        while at < self.n
            invariant
                at <= self.n,
                forall|i: int, j: int| 0 <= i < j < positions@.len() ==> positions@[i] < positions@[j],
                forall|i: int| 0 <= i < positions@.len() ==> #[trigger] positions@[i] < at,
                forall|k: usize|
                    positions@.contains(k) <==> k < at && self.public_inputs().contains_key(k),
            decreases self.n - at,
        {
            let ghost before = positions@;
            if self.public_inputs_sparse_store.contains_key(&at) {
                positions.push(at);
                proof {
                    assert(positions@.last() == at);
                    assert forall|k: usize| positions@.contains(k) implies k < at + 1
                        && self.public_inputs().contains_key(k) by {
                        let i = choose|i: int| 0 <= i < positions@.len() && positions@[i] == k;
                        if i < before.len() {
                            assert(before[i] == k);
                            assert(before.contains(k));
                        }
                    }
                    assert forall|k: usize|
                        k < at + 1 && self.public_inputs().contains_key(k) implies positions@.contains(
                        k,
                    ) by {
                        if k < at {
                            assert(before.contains(k));
                            let i = choose|i: int| 0 <= i < before.len() && before[i] == k;
                            assert(positions@[i] == k);
                        }
                    }
                }
            }
            at += 1;
        }
        positions
    }

    /// The variable that is fixed to zero.
    pub fn zero_var(&self) -> (r: Variable)
        ensures
            r == self.zero_var,
    {
        self.zero_var
    }

    /// Takes a witness value in and gives the handle to it.
    pub fn add_input(&mut self, value: Scalar) -> (r: Variable)
        requires
            old(self).wf(),
        ensures
            final(self).wf(),
            r.0 == old(self).variables@.len(),
            final(self).variables@ == old(self).variables@.push(value),
            final(self).perm@ == old(self).perm@.push(Seq::<WireData>::empty()),
            final(self).n == old(self).n,
            final(self).zero_var == old(self).zero_var,
            final(self).public_inputs() == old(self).public_inputs(),
            final(self).w_l@ == old(self).w_l@,
            final(self).w_r@ == old(self).w_r@,
            final(self).w_o@ == old(self).w_o@,
            final(self).w_4@ == old(self).w_4@,
            final(self).q_m@ == old(self).q_m@,
            final(self).q_l@ == old(self).q_l@,
            final(self).q_r@ == old(self).q_r@,
            final(self).q_o@ == old(self).q_o@,
            final(self).q_4@ == old(self).q_4@,
            final(self).q_c@ == old(self).q_c@,
            final(self).q_arith@ == old(self).q_arith@,
            final(self).q_range@ == old(self).q_range@,
            final(self).q_logic@ == old(self).q_logic@,
            final(self).q_lookup@ == old(self).q_lookup@,
            final(self).q_fixed_group_add@ == old(self).q_fixed_group_add@,
            final(self).q_variable_group_add@ == old(self).q_variable_group_add@,
    {
        let var = self.perm.new_variable();
        self.variables.push(value);
        proof {
            assert forall|i: int| 0 <= i < self.n implies self.knows(#[trigger] self.w_l@[i]) by {
                assert(old(self).knows(old(self).w_l@[i]));
            }
            assert forall|i: int| 0 <= i < self.n implies self.knows(#[trigger] self.w_r@[i]) by {
                assert(old(self).knows(old(self).w_r@[i]));
            }
            assert forall|i: int| 0 <= i < self.n implies self.knows(#[trigger] self.w_o@[i]) by {
                assert(old(self).knows(old(self).w_o@[i]));
            }
            assert forall|i: int| 0 <= i < self.n implies self.knows(#[trigger] self.w_4@[i]) by {
                assert(old(self).knows(old(self).w_4@[i]));
            }
            assert forall|k: usize| #[trigger]
                self.public_inputs().contains_key(k) implies k < self.n by {
                assert(old(self).public_inputs().contains_key(k));
            }
            assert(old(self).knows(old(self).zero_var));
            assert(self.variables@[self.zero_var.0 as int] == old(self).variables@[old(
                self,
            ).zero_var.0 as int]);
        }
        var
    }

    /// The witness value behind a handle.
    pub fn value(&self, var: Variable) -> (r: Scalar)
        requires
            self.knows(var),
        ensures
            r@ == self.value_of(var),
            r == self.variables@[var.0 as int],
    {
        self.variables[var.0]
    }

    /// Records a public input at the position of a gate that is being
    /// added.
    fn record_public_input(&mut self, value: Scalar)
        requires
            !old(self).public_inputs().contains_key(old(self).n),
        ensures
            final(self).public_inputs() == old(self).public_inputs().insert(old(self).n, value),
            final(self).n == old(self).n,
            final(self).q_m == old(self).q_m,
            final(self).q_l == old(self).q_l,
            final(self).q_r == old(self).q_r,
            final(self).q_o == old(self).q_o,
            final(self).q_4 == old(self).q_4,
            final(self).q_c == old(self).q_c,
            final(self).q_arith == old(self).q_arith,
            final(self).q_range == old(self).q_range,
            final(self).q_logic == old(self).q_logic,
            final(self).q_lookup == old(self).q_lookup,
            final(self).q_fixed_group_add == old(self).q_fixed_group_add,
            final(self).q_variable_group_add == old(self).q_variable_group_add,
            final(self).w_l == old(self).w_l,
            final(self).w_r == old(self).w_r,
            final(self).w_o == old(self).w_o,
            final(self).w_4 == old(self).w_4,
            final(self).zero_var == old(self).zero_var,
            final(self).variables == old(self).variables,
            final(self).perm == old(self).perm,
    {
        broadcast use vstd::laws_cmp::group_laws_cmp;

        let position = self.n;
        self.public_inputs_sparse_store.insert(position, value);
    }

    /// Appends a gate: one entry to every column, the public input at the
    /// position of this gate, and the four wires to the uses of their
    /// variables.
    pub fn append_gate(&mut self, gate: Gate)
        requires
            old(self).wf(),
            old(self).knows(gate.a),
            old(self).knows(gate.b),
            old(self).knows(gate.c),
            old(self).knows(gate.d),
            old(self).n < usize::MAX,
        ensures
            final(self).wf(),
            StandardComposer::gate_appended(*old(self), *final(self), gate),
    {
        self.w_l.push(gate.a);
        self.w_r.push(gate.b);
        self.w_o.push(gate.c);
        self.w_4.push(gate.d);
        self.q_m.push(gate.q_m);
        self.q_l.push(gate.q_l);
        self.q_r.push(gate.q_r);
        self.q_o.push(gate.q_o);
        self.q_4.push(gate.q_4);
        self.q_c.push(gate.q_c);
        self.q_arith.push(Scalar::one());
        self.q_range.push(Scalar::zero());
        self.q_logic.push(Scalar::zero());
        self.q_lookup.push(Scalar::zero());
        self.q_fixed_group_add.push(Scalar::zero());
        self.q_variable_group_add.push(Scalar::zero());
        proof {
            assert(self.public_inputs() == old(self).public_inputs());
            if old(self).public_inputs().contains_key(old(self).n) {
                assert(old(self).n < old(self).n);
            }
        }
        match gate.pi {
            Some(value) => {
                self.record_public_input(value);
            },
            None => {},
        }
        self.perm.add_variables_to_map(gate.a, gate.b, gate.c, gate.d, self.n);
        self.n = self.n + 1;
        proof {
            assert forall|i: int| 0 <= i < self.n implies self.knows(#[trigger] self.w_l@[i]) by {
                if i < old(self).n {
                    assert(old(self).knows(old(self).w_l@[i]));
                }
            }
            assert forall|i: int| 0 <= i < self.n implies self.knows(#[trigger] self.w_r@[i]) by {
                if i < old(self).n {
                    assert(old(self).knows(old(self).w_r@[i]));
                }
            }
            assert forall|i: int| 0 <= i < self.n implies self.knows(#[trigger] self.w_o@[i]) by {
                if i < old(self).n {
                    assert(old(self).knows(old(self).w_o@[i]));
                }
            }
            assert forall|i: int| 0 <= i < self.n implies self.knows(#[trigger] self.w_4@[i]) by {
                if i < old(self).n {
                    assert(old(self).knows(old(self).w_4@[i]));
                }
            }
            assert forall|k: usize| #[trigger]
                self.public_inputs().contains_key(k) implies k < self.n by {
                if k != old(self).n {
                    assert(old(self).public_inputs().contains_key(k));
                }
            }
        }
    }
}

} // verus!
