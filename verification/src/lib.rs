//! Arithmetization of small computations into execution traces and
//! polynomial constraint systems over the Mersenne-31 field, for
//! consumption by a STARK proving backend: a trace padding utility, a
//! dual aggregation circuit, a batched and a strict range check circuit,
//! and a transaction validity circuit, each with a verified trace
//! generator and a verified constraint evaluator.

pub mod dual_agg;
pub mod field;
pub mod range_check;
pub mod range_check_strict;
pub mod trace;
pub mod tx_validate;
