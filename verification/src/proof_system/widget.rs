//! The constraints of each kind of gate: what it adds to the quotient
//! polynomial and to the linearisation polynomial.

pub mod arithmetic;
pub mod lookup;
pub mod range;
