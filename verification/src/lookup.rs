//! Lookup tables and the multisets behind them.

pub mod counts;
pub mod multiset;
