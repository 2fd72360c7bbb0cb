//! Zero-knowledge predicate over the price divergence of two liquidity pools.
//!
//! The library describes the arithmetic circuit (a gate graph over the
//! Goldilocks field), the signed comparison fragment it is built from, and the
//! witness generation that binds concrete values to every wire.
pub mod chain_data;
pub mod circuit;
pub mod comparison;
pub mod field;
pub mod prover;
pub mod witness;
