//! For every variable, the wires that carry it.

use crate::constraint_system::variable::{Variable, WireData};
use vstd::prelude::*;

verus! {

/// The uses of every variable, in the order in which gates were added.
#[derive(Debug)]
pub struct Permutation {
    /// The uses of the variable with index `i` stand at position `i`.
    pub variable_map: Vec<Vec<WireData>>,
}

/// The uses after a gate at position `gate` has taken `a`, `b`, `c` and
/// `d` for its left, right, output and fourth wire.
pub open spec fn with_gate_wires(
    map: Seq<Seq<WireData>>,
    a: Variable,
    b: Variable,
    c: Variable,
    d: Variable,
    gate: usize,
) -> Seq<Seq<WireData>> {
    let m1 = map.update(a.0 as int, map[a.0 as int].push(WireData::Left(gate)));
    let m2 = m1.update(b.0 as int, m1[b.0 as int].push(WireData::Right(gate)));
    let m3 = m2.update(c.0 as int, m2[c.0 as int].push(WireData::Output(gate)));
    m3.update(d.0 as int, m3[d.0 as int].push(WireData::Fourth(gate)))
}

impl Permutation {
    /// The uses of every variable.
    pub open spec fn view(&self) -> Seq<Seq<WireData>> {
        Seq::new(self.variable_map@.len(), |i: int| self.variable_map@[i]@)
    }

    /// A map without variables.
    pub fn new() -> (r: Permutation)
        ensures
            r@.len() == 0,
    {
        Permutation { variable_map: Vec::new() }
    }

    /// Makes room for the uses of one more variable and gives its handle.
    pub fn new_variable(&mut self) -> (r: Variable)
        ensures
            r.0 == old(self)@.len(),
            final(self)@ == old(self)@.push(Seq::<WireData>::empty()),
    {
        let index = self.variable_map.len();
        self.variable_map.push(Vec::new());
        assert(self@ =~= old(self)@.push(Seq::<WireData>::empty()));
        Variable(index)
    }

    /// Records one more use of a variable.
    fn add_use(&mut self, var: Variable, wire: WireData)
        requires
            var.0 < old(self)@.len(),
        ensures
            final(self)@ == old(self)@.update(var.0 as int, old(self)@[var.0 as int].push(wire)),
    {
        let uses = &mut self.variable_map[var.0];
        uses.push(wire);
        assert(self@ =~= old(self)@.update(var.0 as int, old(self)@[var.0 as int].push(wire)));
    }

    /// Records the four wires of a gate at position `gate`.
    pub fn add_variables_to_map(
        &mut self,
        a: Variable,
        b: Variable,
        c: Variable,
        d: Variable,
        gate: usize,
    )
        requires
            a.0 < old(self)@.len(),
            b.0 < old(self)@.len(),
            c.0 < old(self)@.len(),
            d.0 < old(self)@.len(),
        ensures
            final(self)@ == with_gate_wires(old(self)@, a, b, c, d, gate),
            final(self)@.len() == old(self)@.len(),
    {
        self.add_use(a, WireData::Left(gate));
        self.add_use(b, WireData::Right(gate));
        self.add_use(c, WireData::Output(gate));
        self.add_use(d, WireData::Fourth(gate));
    }
}

} // verus!
