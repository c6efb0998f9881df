//! Orchestration core of a batched algebraic holographic proof system: the
//! Fiat-Shamir verifier rounds that derive every challenge from a transcript,
//! and the batch trace that gathers witnesses, membership witnesses and keys
//! before a single aggregate prove or verify call.

pub mod field;
pub mod domain;
pub mod sponge;
pub mod ahp;
pub mod trace;
pub mod errors;
