//! Constraint-system and polynomial-protocol core of a PLONK proof system
//! over the BLS12-381 scalar field.

pub mod circuit;
pub mod commitment;
pub mod constraint_system;
pub mod error;
pub mod field;
pub mod lookup;
pub mod poly;
pub mod proof_system;
pub mod transcript;
pub mod util;
