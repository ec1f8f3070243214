//! Pedersen commitments to 64-bit values and zero-knowledge range proofs
//! over them, with a fixed-width wire encoding.
//!
//! `commit`, `prove` and `verify` work on typed values; `verify_bytes` and
//! the three `bp_` functions work on byte buffers and status codes.

pub mod backend;
pub mod protocol;
pub mod scalar;
pub mod wire;

pub use protocol::{
    bp_pedersen_commit, bp_range_proof_prove, bp_range_proof_verify, commit, prove, verify,
    verify_bytes, ProveError, ProveOutput, VerifyError,
};
pub use scalar::Scalar;
pub use wire::{CodecError, Commitment, RangeProof, Round};
