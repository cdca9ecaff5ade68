//! Arithmetic gates.
//!
//! An arithmetic gate holds the relation
//! `q_m * a * b + q_l * a + q_r * b + q_o * c + q_4 * d + q_c + PI = 0`
//! over its four wires. Gates that end in `_gate` take the output wire
//! as it is given; the others compute its value from the other wires.

use crate::constraint_system::composer::{Gate, StandardComposer};
use crate::constraint_system::variable::Variable;
use crate::field::{lemma_add_mod_residues, modulus, Scalar};
use vstd::prelude::*;

verus! {

/// The representative of an optional public input: zero where there is
/// none.
pub open spec fn pi_value(pi: Option<Scalar>) -> nat {
    match pi {
        Some(value) => value@,
        None => 0,
    }
}

/// The fourth wire of a gate: the zero variable where none is given.
pub open spec fn fourth_wire(d: Option<Variable>, zero_var: Variable) -> Variable {
    match d {
        Some(var) => var,
        None => zero_var,
    }
}

/// The coefficient of the fourth wire: zero where there is none.
pub open spec fn fourth_coefficient(q_4_d: Option<(Scalar, Variable)>) -> nat {
    match q_4_d {
        Some(pair) => pair.0@,
        None => 0,
    }
}

/// The selector of the fourth wire: zero where there is none.
pub open spec fn fourth_selector(q_4_d: Option<(Scalar, Variable)>) -> Scalar {
    match q_4_d {
        Some(pair) => pair.0,
        None => Scalar::spec_zero(),
    }
}

/// The variable on the fourth wire: the zero variable where none is given.
pub open spec fn fourth_variable(
    q_4_d: Option<(Scalar, Variable)>,
    zero_var: Variable,
) -> Variable {
    match q_4_d {
        Some(pair) => pair.1,
        None => zero_var,
    }
}

/// The value that makes an addition gate with output coefficient `-1` hold:
/// `q_l * a + q_r * b + q_4 * d + q_c + PI`.
pub open spec fn sum_value(
    q_l: nat,
    a: nat,
    q_r: nat,
    b: nat,
    q_4: nat,
    d: nat,
    q_c: nat,
    pi: nat,
) -> nat {
    (q_l * a + q_r * b + q_4 * d + q_c + pi) % modulus()
}

/// The value that makes a multiplication gate with output coefficient `-1`
/// hold: `q_m * a * b + q_4 * d + q_c + PI`.
pub open spec fn product_value(
    q_m: nat,
    a: nat,
    b: nat,
    q_4: nat,
    d: nat,
    q_c: nat,
    pi: nat,
) -> nat {
    (q_m * a * b + q_4 * d + q_c + pi) % modulus()
}

/// The left side of the relation at position `i`, before
/// reduction.
pub open spec fn relation_at(cs: StandardComposer, i: int) -> nat {
    let a = cs.value_of(cs.w_l@[i]);
    let b = cs.value_of(cs.w_r@[i]);
    let c = cs.value_of(cs.w_o@[i]);
    let d = cs.value_of(cs.w_4@[i]);
    let pi = if cs.public_inputs().contains_key(i as usize) {
        cs.public_inputs()[i as usize]@
    } else {
        0
    };
    cs.q_m@[i]@ * a * b + cs.q_l@[i]@ * a + cs.q_r@[i]@ * b + cs.q_o@[i]@ * c + cs.q_4@[i]@ * d
        + cs.q_c@[i]@ + pi
}

/// Whether the witness values satisfy the relation at position `i`.
pub open spec fn gate_satisfied(cs: StandardComposer, i: int) -> bool {
    relation_at(cs, i) % modulus() == 0
}

/// A sum together with `modulus - 1` times its residue is a multiple of the
/// modulus: the output wire of a gate with output coefficient `-1` cancels
/// the rest of the relation.
proof fn lemma_output_cancels(rest: nat, output: nat)
    requires
        output == rest % modulus(),
    ensures
        (rest + (modulus() - 1) * output) % (modulus() as int) == 0,
{
    let p = modulus() as int;
    let q = (rest as int) / p;
    vstd::arithmetic::div_mod::lemma_fundamental_div_mod(rest as int, p);
    assert((p - 1) * output == p * output - output) by (nonlinear_arith);
    assert(rest + (p - 1) * output == p * (q + output)) by (nonlinear_arith)
        requires
            rest == p * q + output,
            (p - 1) * output == p * output - output,
    ;
    vstd::arithmetic::div_mod::lemma_mod_multiples_basic(q + output, p);
    assert(p * (q + output) == (q + output) * p) by (nonlinear_arith);
}

impl StandardComposer {
    /// Adds an addition gate over three wires, with the output wire as it is
    /// given.
    pub fn add_gate(
        &mut self,
        a: Variable,
        b: Variable,
        c: Variable,
        q_l: Scalar,
        q_r: Scalar,
        q_o: Scalar,
        q_c: Scalar,
        pi: Option<Scalar>,
    ) -> (r: Variable)
        requires
            old(self).wf(),
            old(self).knows(a),
            old(self).knows(b),
            old(self).knows(c),
            old(self).n < usize::MAX,
        ensures
            r == c,
            final(self).wf(),
            StandardComposer::gate_appended(
                *old(self),
                *final(self),
                (Gate {
                    a,
                    b,
                    c,
                    d: old(self).zero_var,
                    q_m: Scalar::spec_zero(),
                    q_l,
                    q_r,
                    q_o,
                    q_4: Scalar::spec_zero(),
                    q_c,
                    pi,
                }),
            ),
    {
        self.big_add_gate(a, b, c, None, q_l, q_r, q_o, Scalar::zero(), q_c, pi)
    }

    /// Adds an addition gate over four wires, with the output wire as it is
    /// given. Without a fourth wire it takes the zero variable.
    pub fn big_add_gate(
        &mut self,
        a: Variable,
        b: Variable,
        c: Variable,
        d: Option<Variable>,
        q_l: Scalar,
        q_r: Scalar,
        q_o: Scalar,
        q_4: Scalar,
        q_c: Scalar,
        pi: Option<Scalar>,
    ) -> (r: Variable)
        requires
            old(self).wf(),
            old(self).knows(a),
            old(self).knows(b),
            old(self).knows(c),
            d matches Some(var) ==> old(self).knows(var),
            old(self).n < usize::MAX,
        ensures
            r == c,
            final(self).wf(),
            StandardComposer::gate_appended(
                *old(self),
                *final(self),
                (Gate {
                    a,
                    b,
                    c,
                    d: fourth_wire(d, old(self).zero_var),
                    q_m: Scalar::spec_zero(),
                    q_l,
                    q_r,
                    q_o,
                    q_4,
                    q_c,
                    pi,
                }),
            ),
    {
        let d = match d {
            Some(var) => var,
            None => self.zero_var,
        };
        self.append_gate(Gate { a, b, c, d, q_m: Scalar::zero(), q_l, q_r, q_o, q_4, q_c, pi });
        c
    }

    /// Adds a multiplication gate over three wires, with the output wire as
    /// it is given.
    pub fn mul_gate(
        &mut self,
        a: Variable,
        b: Variable,
        c: Variable,
        q_m: Scalar,
        q_o: Scalar,
        q_c: Scalar,
        pi: Option<Scalar>,
    ) -> (r: Variable)
        requires
            old(self).wf(),
            old(self).knows(a),
            old(self).knows(b),
            old(self).knows(c),
            old(self).n < usize::MAX,
        ensures
            r == c,
            final(self).wf(),
            StandardComposer::gate_appended(
                *old(self),
                *final(self),
                (Gate {
                    a,
                    b,
                    c,
                    d: old(self).zero_var,
                    q_m,
                    q_l: Scalar::spec_zero(),
                    q_r: Scalar::spec_zero(),
                    q_o,
                    q_4: Scalar::spec_zero(),
                    q_c,
                    pi,
                }),
            ),
    {
        self.big_mul_gate(a, b, c, None, q_m, q_o, q_c, Scalar::zero(), pi)
    }

    /// Adds a multiplication gate over four wires, with the output wire as
    /// it is given. Without a fourth wire it takes the zero variable.
    pub fn big_mul_gate(
        &mut self,
        a: Variable,
        b: Variable,
        c: Variable,
        d: Option<Variable>,
        q_m: Scalar,
        q_o: Scalar,
        q_c: Scalar,
        q_4: Scalar,
        pi: Option<Scalar>,
    ) -> (r: Variable)
        requires
            old(self).wf(),
            old(self).knows(a),
            old(self).knows(b),
            old(self).knows(c),
            d matches Some(var) ==> old(self).knows(var),
            old(self).n < usize::MAX,
        ensures
            r == c,
            final(self).wf(),
            StandardComposer::gate_appended(
                *old(self),
                *final(self),
                (Gate {
                    a,
                    b,
                    c,
                    d: fourth_wire(d, old(self).zero_var),
                    q_m,
                    q_l: Scalar::spec_zero(),
                    q_r: Scalar::spec_zero(),
                    q_o,
                    q_4,
                    q_c,
                    pi,
                }),
            ),
    {
        let d = match d {
            Some(var) => var,
            None => self.zero_var,
        };
        self.append_gate(
            Gate { a, b, c, d, q_m, q_l: Scalar::zero(), q_r: Scalar::zero(), q_o, q_4, q_c, pi },
        );
        c
    }
    /// Adds an addition gate over two wires and computes its output:
    /// `q_l * a + q_r * b + q_c + PI`.
    pub fn add(
        &mut self,
        q_l_a: (Scalar, Variable),
        q_r_b: (Scalar, Variable),
        q_c: Scalar,
        pi: Option<Scalar>,
    ) -> (r: Variable)
        requires
            old(self).wf(),
            old(self).knows(q_l_a.1),
            old(self).knows(q_r_b.1),
            old(self).n < usize::MAX,
        ensures
            final(self).wf(),
            final(self).value_of(r) == sum_value(
                q_l_a.0@,
                old(self).value_of(q_l_a.1),
                q_r_b.0@,
                old(self).value_of(q_r_b.1),
                0,
                0,
                q_c@,
                pi_value(pi),
            ),
            StandardComposer::gate_computed(
                *old(self),
                *final(self),
                (Gate {
                    a: q_l_a.1,
                    b: q_r_b.1,
                    c: r,
                    d: old(self).zero_var,
                    q_m: Scalar::spec_zero(),
                    q_l: q_l_a.0,
                    q_r: q_r_b.0,
                    q_o: Scalar::spec_neg_one(),
                    q_4: Scalar::spec_zero(),
                    q_c,
                    pi,
                }),
                final(self).variables@[r.0 as int],
            ),
            gate_satisfied(*final(self), old(self).n as int),
    {
        self.big_add(q_l_a, q_r_b, None, q_c, pi)
    }

    /// Adds an addition gate over three wires and computes its output:
    /// `q_l * a + q_r * b + q_4 * d + q_c + PI`. Without a fourth wire it
    /// takes the zero variable with the coefficient zero.
    pub fn big_add(
        &mut self,
        q_l_a: (Scalar, Variable),
        q_r_b: (Scalar, Variable),
        q_4_d: Option<(Scalar, Variable)>,
        q_c: Scalar,
        pi: Option<Scalar>,
    ) -> (r: Variable)
        requires
            old(self).wf(),
            old(self).knows(q_l_a.1),
            old(self).knows(q_r_b.1),
            q_4_d matches Some(pair) ==> old(self).knows(pair.1),
            old(self).n < usize::MAX,
        ensures
            final(self).wf(),
            final(self).value_of(r) == sum_value(
                q_l_a.0@,
                old(self).value_of(q_l_a.1),
                q_r_b.0@,
                old(self).value_of(q_r_b.1),
                fourth_coefficient(q_4_d),
                old(self).value_of(fourth_variable(q_4_d, old(self).zero_var)),
                q_c@,
                pi_value(pi),
            ),
            StandardComposer::gate_computed(
                *old(self),
                *final(self),
                (Gate {
                    a: q_l_a.1,
                    b: q_r_b.1,
                    c: r,
                    d: fourth_variable(q_4_d, old(self).zero_var),
                    q_m: Scalar::spec_zero(),
                    q_l: q_l_a.0,
                    q_r: q_r_b.0,
                    q_o: Scalar::spec_neg_one(),
                    q_4: fourth_selector(q_4_d),
                    q_c,
                    pi,
                }),
                final(self).variables@[r.0 as int],
            ),
            gate_satisfied(*final(self), old(self).n as int),
    {
        let (q_4, d) = match q_4_d {
            Some((q_4, var)) => (q_4, var),
            None => (Scalar::zero(), self.zero_var),
        };
        let (q_l, a) = q_l_a;
        let (q_r, b) = q_r_b;
        let q_o = Scalar::one().neg();
        let a_eval = self.value(a);
        let b_eval = self.value(b);
        let d_eval = self.value(d);
        let pi_eval = match pi {
            Some(value) => value,
            None => Scalar::zero(),
        };
        let t1 = q_l.mul(&a_eval);
        let t2 = q_r.mul(&b_eval);
        let t3 = q_4.mul(&d_eval);
        let s1 = t1.add(&t2);
        let s2 = s1.add(&t3);
        let s3 = s2.add(&q_c);
        let c_eval = s3.add(&pi_eval);
        proof {
            Scalar::lemma_spec_zero();
            Scalar::lemma_spec_neg_one();
            Scalar::lemma_view_injective(q_o, Scalar::spec_neg_one());
            lemma_add_mod_residues(q_l@ * a_eval@, q_r@ * b_eval@);
            lemma_add_mod_residues(q_l@ * a_eval@ + q_r@ * b_eval@, q_4@ * d_eval@);
            lemma_add_mod_residues(q_l@ * a_eval@ + q_r@ * b_eval@ + q_4@ * d_eval@, q_c@);
            lemma_add_mod_residues(
                q_l@ * a_eval@ + q_r@ * b_eval@ + q_4@ * d_eval@ + q_c@,
                pi_eval@,
            );
        }
        let c = self.add_input(c_eval);
        self.append_gate(
            Gate { a, b, c, d, q_m: Scalar::zero(), q_l, q_r, q_o, q_4, q_c, pi },
        );
        proof {
            let i = old(self).n as int;
            let rest = q_l@ * a_eval@ + q_r@ * b_eval@ + q_4@ * d_eval@ + q_c@ + pi_eval@;
            lemma_output_cancels(rest, c_eval@);
            assert(!old(self).public_inputs().contains_key(old(self).n)) by {
                if old(self).public_inputs().contains_key(old(self).n) {
                    assert(old(self).n < old(self).n);
                }
            }
            assert(self.q_m@[i]@ * a_eval@ * b_eval@ == 0) by (nonlinear_arith)
                requires
                    self.q_m@[i]@ == 0,
            ;
            assert(relation_at(*self, i) == rest + (modulus() - 1) * c_eval@);
        }
        c
    }

    /// Adds a multiplication gate over two wires and computes its output:
    /// `q_m * a * b + q_c + PI`.
    pub fn mul(
        &mut self,
        q_m: Scalar,
        a: Variable,
        b: Variable,
        q_c: Scalar,
        pi: Option<Scalar>,
    ) -> (r: Variable)
        requires
            old(self).wf(),
            old(self).knows(a),
            old(self).knows(b),
            old(self).n < usize::MAX,
        ensures
            final(self).wf(),
            final(self).value_of(r) == product_value(
                q_m@,
                old(self).value_of(a),
                old(self).value_of(b),
                0,
                0,
                q_c@,
                pi_value(pi),
            ),
            StandardComposer::gate_computed(
                *old(self),
                *final(self),
                (Gate {
                    a,
                    b,
                    c: r,
                    d: old(self).zero_var,
                    q_m,
                    q_l: Scalar::spec_zero(),
                    q_r: Scalar::spec_zero(),
                    q_o: Scalar::spec_neg_one(),
                    q_4: Scalar::spec_zero(),
                    q_c,
                    pi,
                }),
                final(self).variables@[r.0 as int],
            ),
            gate_satisfied(*final(self), old(self).n as int),
    {
        self.big_mul(q_m, a, b, None, q_c, pi)
    }

    /// Adds a multiplication gate over three wires and computes its output:
    /// `q_m * a * b + q_4 * d + q_c + PI`. Without a fourth wire it
    /// takes the zero variable with the coefficient zero.
    pub fn big_mul(
        &mut self,
        q_m: Scalar,
        a: Variable,
        b: Variable,
        q_4_d: Option<(Scalar, Variable)>,
        q_c: Scalar,
        pi: Option<Scalar>,
    ) -> (r: Variable)
        requires
            old(self).wf(),
            old(self).knows(a),
            old(self).knows(b),
            q_4_d matches Some(pair) ==> old(self).knows(pair.1),
            old(self).n < usize::MAX,
        ensures
            final(self).wf(),
            final(self).value_of(r) == product_value(
                q_m@,
                old(self).value_of(a),
                old(self).value_of(b),
                fourth_coefficient(q_4_d),
                old(self).value_of(fourth_variable(q_4_d, old(self).zero_var)),
                q_c@,
                pi_value(pi),
            ),
            StandardComposer::gate_computed(
                *old(self),
                *final(self),
                (Gate {
                    a,
                    b,
                    c: r,
                    d: fourth_variable(q_4_d, old(self).zero_var),
                    q_m,
                    q_l: Scalar::spec_zero(),
                    q_r: Scalar::spec_zero(),
                    q_o: Scalar::spec_neg_one(),
                    q_4: fourth_selector(q_4_d),
                    q_c,
                    pi,
                }),
                final(self).variables@[r.0 as int],
            ),
            gate_satisfied(*final(self), old(self).n as int),
    {
        let q_o = Scalar::one().neg();
        let (q_4, d) = match q_4_d {
            Some((q_4, var)) => (q_4, var),
            None => (Scalar::zero(), self.zero_var),
        };
        let a_eval = self.value(a);
        let b_eval = self.value(b);
        let d_eval = self.value(d);
        let pi_eval = match pi {
            Some(value) => value,
            None => Scalar::zero(),
        };
        let t0 = q_m.mul(&a_eval);
        let t1 = t0.mul(&b_eval);
        let t2 = q_4.mul(&d_eval);
        let s1 = t1.add(&t2);
        let s2 = s1.add(&q_c);
        let c_eval = s2.add(&pi_eval);
        proof {
            Scalar::lemma_spec_zero();
            Scalar::lemma_spec_neg_one();
            Scalar::lemma_view_injective(q_o, Scalar::spec_neg_one());
            vstd::arithmetic::div_mod::lemma_mul_mod_noop_left(
                (q_m@ * a_eval@) as int,
                b_eval@ as int,
                modulus() as int,
            );
            lemma_add_mod_residues(q_m@ * a_eval@ * b_eval@, q_4@ * d_eval@);
            lemma_add_mod_residues(q_m@ * a_eval@ * b_eval@ + q_4@ * d_eval@, q_c@);
            lemma_add_mod_residues(q_m@ * a_eval@ * b_eval@ + q_4@ * d_eval@ + q_c@, pi_eval@);
        }
        let c = self.add_input(c_eval);
        self.append_gate(
            Gate { a, b, c, d, q_m, q_l: Scalar::zero(), q_r: Scalar::zero(), q_o, q_4, q_c, pi },
        );
        proof {
            let i = old(self).n as int;
            let rest = q_m@ * a_eval@ * b_eval@ + q_4@ * d_eval@ + q_c@ + pi_eval@;
            lemma_output_cancels(rest, c_eval@);
            assert(!old(self).public_inputs().contains_key(old(self).n)) by {
                if old(self).public_inputs().contains_key(old(self).n) {
                    assert(old(self).n < old(self).n);
                }
            }
            assert(self.q_l@[i]@ * a_eval@ == 0) by (nonlinear_arith)
                requires
                    self.q_l@[i]@ == 0,
            ;
            assert(self.q_r@[i]@ * b_eval@ == 0) by (nonlinear_arith)
                requires
                    self.q_r@[i]@ == 0,
            ;
            assert(relation_at(*self, i) == rest + (modulus() - 1) * c_eval@);
        }
        c
    }
}

} // verus!
