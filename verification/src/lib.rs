//! Core building blocks for two-party secure computation: a common error
//! type, party bookkeeping, buffered channels, correlation-robust hashing and
//! gate analysis of binary circuits.
use vstd::prelude::*;

pub mod error;
pub mod party;
pub mod channel;
pub mod fancy;
pub mod analyzer;
pub mod block;
pub mod aes_hash;
pub mod garbling;
pub mod backend;
pub mod serialization;
pub mod f_eq;
pub mod f_rand;
pub mod authbits;
pub mod leaky_and_triples;
pub mod and_triples;

verus! {

} // verus!
