//! The constraint system: gates, witness values and the bookkeeping of
//! shared wires.

pub mod arithmetic;
pub mod composer;
pub mod helper;
pub mod permutation;
pub mod variable;
