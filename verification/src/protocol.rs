//! Committing to a 64-bit value, proving that a committed value lies in
//! `[0, 2^64)`, and checking such a proof.

use vstd::prelude::*;

use crate::backend::{
    pedersen_commit, pedersen_commitment, prove_range, thread_seeded_rng, verify_range,
};
use crate::scalar::{le_bytes, Scalar};
use crate::wire::{
    check_proof_bytes, commitment_fault, proof_fault, Commitment, RangeProof, COMMITMENT_LEN,
    PROOF_LEN, ROUNDS,
};
use bulletproofs::ProofError;
use rand::rngs::StdRng;
use vstd::arithmetic::power2::pow2;

verus! {

/// Bits in the range that is proved: the value lies in `[0, 2^64)`.
pub const BIT_WIDTH: usize = 64;

/// Values that one proof speaks of.
pub const AGGREGATION: usize = 1;

/// The label that seeds the transcript of prover and verifier alike.
pub const TRANSCRIPT_LABEL: &'static str = "RangeProof";

/// The status that reports success across the byte-buffer boundary.
pub const STATUS_OK: i32 = 0;

/// The status that reports a failure of any kind across the byte-buffer
/// boundary.
pub const STATUS_FAILED: i32 = 1;

/// Why no proof was made.
#[derive(Clone, Copy, Debug, PartialEq, Eq)]
pub enum ProveError {
    /// The value does not fit the bit width of the range.
    RangeExceeded,
    /// The prover reported a failure, or what it returned is no proof.
    ProvingFailed,
}

/// Why a proof was not accepted.
#[derive(Clone, Copy, Debug, PartialEq, Eq)]
pub enum VerifyError {
    /// The commitment does not decode.
    MalformedCommitment,
    /// The proof does not decode.
    MalformedProof,
    /// Commitment and proof decode, and the proof does not hold of the
    /// commitment.
    InvalidProof,
}

/// Whether `value` can be written in `bits` bits.
pub open spec fn fits_width(value: u64, bits: nat) -> bool {
    bits >= 64 || value < pow2(bits)
}

/// Whether `value` can be written in `bits` bits.
pub fn value_fits(value: u64, bits: usize) -> (ok: bool)
    ensures
        ok == fits_width(value, bits as nat),
{
    if bits >= 64 {
        true
    } else {
        let shift = bits as u64;
        proof {
            vstd::bits::lemma_u64_pow2_no_overflow(bits as nat);
            vstd::bits::lemma_u64_shl_is_mul(1, shift);
        }
        value < (1u64 << shift)
    }
}

/// Whether `c` is the commitment to `value` under `blinding`.
pub open spec fn commits_to(c: &Commitment, value: u64, blinding: &Scalar) -> bool {
    c@ == pedersen_commitment(value, blinding@)
}

/// Commits to `value` under the blinding factor `blinding`: the compressed
/// group element `value * G + blinding * H`.
pub fn commit(value: u64, blinding: &Scalar) -> (c: Commitment)
    ensures
        commits_to(&c, value, blinding),
        c.well_formed(),
{
    let raw = blinding.to_bytes();
    Commitment { bytes: pedersen_commit(value, &raw) }
}

/// A commitment is determined by the value and the blinding factor: any two
/// commitments to one value under one blinding factor are the same bytes.
pub proof fn lemma_commit_deterministic(
    c1: &Commitment,
    c2: &Commitment,
    value: u64,
    blinding: &Scalar,
)
    requires
        commits_to(c1, value, blinding),
        commits_to(c2, value, blinding),
    ensures
        c1@ == c2@,
        c1 == c2,
{
    assert(c1.bytes =~= c2.bytes);
}

/// What `prove` returns once the prover has answered: the commitment with
/// the decoded proof where the prover returned bytes that are an encoded
/// proof, `ProvingFailed` in every other case.
pub fn conclude_proof(commitment: Commitment, outcome: Result<Vec<u8>, ProofError>) -> (r: Result<
    (Commitment, RangeProof),
    ProveError,
>)
    ensures
        match outcome {
            Ok(bytes) => match proof_fault(bytes@) {
                None => r matches Ok((c, p)) && c == commitment && p.encoding() == bytes@
                    && p.well_formed(),
                Some(_) => r == Err::<(Commitment, RangeProof), ProveError>(
                    ProveError::ProvingFailed,
                ),
            },
            Err(_) => r == Err::<(Commitment, RangeProof), ProveError>(ProveError::ProvingFailed),
        },
{
    match outcome {
        Ok(bytes) => match RangeProof::from_bytes(bytes.as_slice()) {
            Ok(proof) => Ok((commitment, proof)),
            Err(_) => Err(ProveError::ProvingFailed),
        },
        Err(_) => Err(ProveError::ProvingFailed),
    }
}

/// Commits to `value` under `blinding` and proves that the committed value
/// lies in `[0, 2^64)`.  The proof draws its blinding vectors from `rng`, so
/// two calls give one commitment and, as a rule, two proofs.
///
/// A value that does not fit the bit width is rejected with `RangeExceeded`;
/// a `u64` always fits.  What comes back on success is the commitment to
/// `value` and a well-formed proof, which has the one fixed encoded length.
pub fn prove(value: u64, blinding: &Scalar, rng: &mut StdRng) -> (r: Result<
    (Commitment, RangeProof),
    ProveError,
>)
    ensures
        r matches Err(ProveError::RangeExceeded) <==> !fits_width(value, BIT_WIDTH as nat),
        r matches Ok((c, p)) ==> commits_to(&c, value, blinding) && c.well_formed()
            && p.well_formed() && p.encoding().len() == PROOF_LEN,
{
    if !value_fits(value, BIT_WIDTH) {
        return Err(ProveError::RangeExceeded);
    }
    let commitment = commit(value, blinding);
    let raw = blinding.to_bytes();
    let outcome = prove_range(value, &raw, BIT_WIDTH, AGGREGATION, TRANSCRIPT_LABEL, rng);
    conclude_proof(commitment, outcome)
}

/// What `verify` returns once the verifier has answered on a commitment and
/// a proof that decode: acceptance where it accepted, `InvalidProof` where
/// it did not.
pub fn conclude_verification(outcome: Result<(), ProofError>) -> (r: Result<(), VerifyError>)
    ensures
        outcome is Ok ==> r == Ok::<(), VerifyError>(()),
        outcome is Err ==> r == Err::<(), VerifyError>(VerifyError::InvalidProof),
{
    match outcome {
        Ok(()) => Ok(()),
        Err(_) => Err(VerifyError::InvalidProof),
    }
}

/// Checks a proof against a commitment, both in their wire form.
///
/// The buffers are decoded before anything is verified: a commitment of the
/// wrong length or that is no group element gives `MalformedCommitment`;
/// failing that, a proof of the wrong length or with a field that does not
/// decode gives `MalformedProof`.  Only then is the proof verified, and
/// rejected with `InvalidProof` where it does not hold.
pub fn verify_bytes(commitment: &[u8], proof: &[u8]) -> (r: Result<(), VerifyError>)
    ensures
        commitment_fault(commitment@) is Some ==> r == Err::<(), VerifyError>(
            VerifyError::MalformedCommitment,
        ),
        commitment_fault(commitment@) is None && proof_fault(proof@) is Some ==> r == Err::<
            (),
            VerifyError,
        >(VerifyError::MalformedProof),
        commitment_fault(commitment@) is None && proof_fault(proof@) is None ==> r is Ok || r
            == Err::<(), VerifyError>(VerifyError::InvalidProof),
        commitment@.len() != COMMITMENT_LEN ==> r == Err::<(), VerifyError>(
            VerifyError::MalformedCommitment,
        ),
        commitment@.len() != COMMITMENT_LEN || proof@.len() != PROOF_LEN ==> r == Err::<
            (),
            VerifyError,
        >(VerifyError::MalformedCommitment) || r == Err::<(), VerifyError>(
            VerifyError::MalformedProof,
        ),
{
    let point = match Commitment::from_bytes(commitment) {
        Ok(c) => c,
        Err(_) => {
            return Err(VerifyError::MalformedCommitment);
        },
    };
    match check_proof_bytes(proof) {
        Ok(()) => {},
        Err(_) => {
            return Err(VerifyError::MalformedProof);
        },
    }
    conclude_verification(
        verify_range(&point.bytes, proof, BIT_WIDTH, AGGREGATION, TRANSCRIPT_LABEL),
    )
}

/// Checks a proof against a commitment.
///
/// The structure is checked first: a commitment that is no group element
/// gives `MalformedCommitment`; failing that, a proof without exactly six
/// rounds, with a scalar that is not canonical or with a field that is no
/// group element gives `MalformedProof`.  Only then is the proof verified,
/// and rejected with `InvalidProof` where it does not hold.  `Ok` is the sole
/// sign of acceptance.
pub fn verify(commitment: &Commitment, proof: &RangeProof) -> (r: Result<(), VerifyError>)
    ensures
        !commitment.well_formed() ==> r == Err::<(), VerifyError>(
            VerifyError::MalformedCommitment,
        ),
        commitment.well_formed() && !proof.well_formed() ==> r == Err::<(), VerifyError>(
            VerifyError::MalformedProof,
        ),
        commitment.well_formed() && proof.well_formed() ==> r is Ok || r == Err::<
            (),
            VerifyError,
        >(VerifyError::InvalidProof),
{
    match commitment.validate() {
        Ok(()) => {},
        Err(_) => {
            return Err(VerifyError::MalformedCommitment);
        },
    }
    proof {
        crate::wire::lemma_encoding_len(proof);
    }
    if proof.rounds.len() != ROUNDS {
        return Err(VerifyError::MalformedProof);
    }
    let bytes = proof.to_bytes();
    match check_proof_bytes(bytes.as_slice()) {
        Ok(()) => {},
        Err(_) => {
            return Err(VerifyError::MalformedProof);
        },
    }
    conclude_verification(
        verify_range(&commitment.bytes, bytes.as_slice(), BIT_WIDTH, AGGREGATION, TRANSCRIPT_LABEL),
    )
}

/// What `bp_range_proof_prove` hands across the byte-buffer boundary.
#[derive(Clone, Debug, PartialEq, Eq)]
pub struct ProveOutput {
    /// `STATUS_OK` where a proof was made, `STATUS_FAILED` where none was.
    pub status: i32,
    /// The encoded commitment, filled in whatever the status.
    pub commit: [u8; 32],
    /// The encoded proof, `PROOF_LEN` bytes; empty where none was made.
    pub proof: Vec<u8>,
}

/// The status that stands for the result of a verification.
pub open spec fn verification_status(r: Result<(), VerifyError>) -> i32 {
    if r is Ok {
        STATUS_OK
    } else {
        STATUS_FAILED
    }
}

/// The status that stands for the result of a verification: every error
/// collapses into the one failure status.
pub fn status_of_verification(r: Result<(), VerifyError>) -> (status: i32)
    ensures
        status == verification_status(r),
{
    match r {
        Ok(()) => STATUS_OK,
        Err(_) => STATUS_FAILED,
    }
}

/// Packs the commitment and the result of proving for the byte-buffer
/// boundary: the encoded proof with `STATUS_OK` where there is one, no bytes
/// with `STATUS_FAILED` where there is none.
pub fn pack_output(commit: [u8; 32], result: Result<(Commitment, RangeProof), ProveError>) -> (out:
    ProveOutput)
    ensures
        out.commit == commit,
        match result {
            Ok((_, p)) => out.status == STATUS_OK && out.proof@ == p.encoding(),
            Err(_) => out.status == STATUS_FAILED && out.proof@.len() == 0,
        },
{
    match result {
        Ok((_, proof)) => ProveOutput { status: STATUS_OK, commit, proof: proof.to_bytes() },
        Err(_) => ProveOutput { status: STATUS_FAILED, commit, proof: Vec::new() },
    }
}

/// Commits to `value` under the blinding factor `blinding` and returns the
/// 32 bytes of the commitment.
pub fn bp_pedersen_commit(value: u64, blinding: u64) -> (out: [u8; 32])
    ensures
        out@ == pedersen_commitment(value, le_bytes(blinding as nat, 32)),
        commitment_fault(out@) is None,
{
    let factor = Scalar::from_u64(blinding);
    commit(value, &factor).to_bytes()
}

/// Commits to `value` under `blinding` and proves that the committed value
/// lies in `[0, 2^64)`, drawing the proof's randomness from the thread-local
/// generator.  The bounds `l` and `u` are accepted and ignored: the range
/// is always the full one.
///
/// The commitment is returned whatever the status.  With `STATUS_OK` comes
/// an encoded proof of `PROOF_LEN` bytes that decodes; with `STATUS_FAILED`,
/// no proof bytes.
#[allow(unused_variables)]
pub fn bp_range_proof_prove(value: u64, l: u64, u: u64, blinding: u64) -> (out: ProveOutput)
    ensures
        out.commit@ == pedersen_commitment(value, le_bytes(blinding as nat, 32)),
        commitment_fault(out.commit@) is None,
        out.status == STATUS_OK || out.status == STATUS_FAILED,
        out.status == STATUS_OK ==> out.proof@.len() == PROOF_LEN && proof_fault(out.proof@)
            is None,
        out.status == STATUS_FAILED ==> out.proof@.len() == 0,
{
    let factor = Scalar::from_u64(blinding);
    let commit = commit(value, &factor).to_bytes();
    match thread_seeded_rng() {
        Ok(mut rng) => pack_output(commit, prove(value, &factor, &mut rng)),
        Err(_) => pack_output(commit, Err(ProveError::ProvingFailed)),
    }
}

/// Checks an encoded proof against an encoded commitment and reports
/// `STATUS_OK` where the proof is accepted, `STATUS_FAILED` where a buffer
/// does not decode or the proof does not hold.  The bounds `l` and `u` are
/// accepted and ignored: the range is always the full one.
#[allow(unused_variables)]
pub fn bp_range_proof_verify(l: u64, u: u64, commit: &[u8], proof: &[u8]) -> (status: i32)
    ensures
        status == STATUS_OK || status == STATUS_FAILED,
        commitment_fault(commit@) is Some || proof_fault(proof@) is Some ==> status
            == STATUS_FAILED,
        commit@.len() != COMMITMENT_LEN || proof@.len() != PROOF_LEN ==> status == STATUS_FAILED,
{
    status_of_verification(verify_bytes(commit, proof))
}

} // verus!
