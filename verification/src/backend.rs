//! The calls into the curve, proof and randomness crates.  What is stated of
//! them here is taken on trust; everything else in the library is proved
//! from it.

use vstd::prelude::*;

use bulletproofs::{BulletproofGens, PedersenGens, ProofError, RangeProof};
use curve25519_dalek_ng::ristretto::CompressedRistretto;
use curve25519_dalek_ng::scalar::Scalar;
use merlin::Transcript;
use rand::rngs::StdRng;
use rand::SeedableRng;

verus! {

/// The error type of the proof crate, carried through unopened.
#[verifier::external_type_specification]
#[verifier::external_body]
pub struct ExProofError(ProofError);

/// The standard seedable generator of the randomness crate, carried through
/// unopened.
#[verifier::external_type_specification]
#[verifier::external_body]
pub struct ExStdRng(StdRng);

/// The error type of the randomness crate, carried through unopened.
#[verifier::external_type_specification]
#[verifier::external_body]
pub struct ExRandError(rand::Error);

/// Whether 32 bytes are the compressed encoding of a group element, as
/// `CompressedRistretto::decompress` decides it.
pub uninterp spec fn is_ristretto_point(bytes: Seq<u8>) -> bool;

/// The compressed encoding of `value * B + blinding * B_blinding` over the
/// default Pedersen generators, as `PedersenGens::commit` computes it; the
/// blinding factor is given by its 32-byte little-endian encoding and taken
/// modulo the group order.
pub uninterp spec fn pedersen_commitment(value: u64, blinding: Seq<u8>) -> Seq<u8>;

/// Calls `CompressedRistretto::decompress` and reports whether it yields a
/// group element.  The outcome depends on the 32 bytes alone.
#[verifier::external_body]
pub(crate) fn point_decodes(bytes: &[u8; 32]) -> (ok: bool)
    ensures
        ok == is_ristretto_point(bytes@),
{
    CompressedRistretto(*bytes).decompress().is_some()
}

/// Calls `PedersenGens::commit` on the default generators and compresses the
/// result.  The outcome depends on the two arguments alone, and being the
/// compression of a group element it decodes again.
#[verifier::external_body]
pub(crate) fn pedersen_commit(value: u64, blinding: &[u8; 32]) -> (out: [u8; 32])
    ensures
        out@ == pedersen_commitment(value, blinding@),
        is_ristretto_point(out@),
{
    let gens = PedersenGens::default();
    let blinding = Scalar::from_bytes_mod_order(*blinding);
    gens.commit(Scalar::from(value), blinding).compress().to_bytes()
}

/// Calls `RangeProof::prove_single_with_rng` on a fresh transcript with the
/// given label and on generators of the given capacities, and serialises the
/// proof with `RangeProof::to_bytes`.  The label is the protocol's own, ten
/// bytes, which `Transcript::new` takes; it refuses one whose length does not
/// fit 32 bits.  The proof depends on what `rng` yields, and the call can
/// report failure; a proof for 64 bits that it does return has nine fixed
/// elements and six pairs of round elements, 32 bytes each.
#[verifier::external_body]
pub(crate) fn prove_range(
    value: u64,
    blinding: &[u8; 32],
    bits: usize,
    parties: usize,
    label: &'static str,
    rng: &mut StdRng,
) -> (r: Result<Vec<u8>, ProofError>)
    requires
        bits == 64,
        parties == 1,
        label@ == "RangeProof"@,
    ensures
        r matches Ok(proof) ==> proof@.len() == 672,
{
    let gens = BulletproofGens::new(bits, parties);
    let blinding = Scalar::from_bytes_mod_order(*blinding);
    let mut transcript = Transcript::new(label.as_bytes());
    let pedersen = PedersenGens::default();
    match RangeProof::prove_single_with_rng(
        &gens, &pedersen, &mut transcript, value, &blinding, bits, rng,
    ) {
        Ok((proof, _)) => Ok(proof.to_bytes()),
        Err(e) => Err(e),
    }
}

/// Calls `RangeProof::from_bytes` and then `RangeProof::verify_single` on a
/// fresh transcript with the given label and on generators of the given
/// capacities.  The label is the protocol's own, ten bytes, which
/// `Transcript::new` takes; it refuses one whose length does not fit 32 bits.
/// The verifier weighs its two equations by a random scalar, so nothing is
/// stated of the outcome.
#[verifier::external_body]
pub(crate) fn verify_range(
    commitment: &[u8; 32],
    proof: &[u8],
    bits: usize,
    parties: usize,
    label: &'static str,
) -> (r: Result<(), ProofError>)
    requires
        bits == 64,
        parties == 1,
        label@ == "RangeProof"@,
{
    let gens = BulletproofGens::new(bits, parties);
    let mut transcript = Transcript::new(label.as_bytes());
    let point = CompressedRistretto(*commitment);
    let pedersen = PedersenGens::default();
    RangeProof::from_bytes(proof)?.verify_single(&gens, &pedersen, &mut transcript, &point, bits)
}

/// Calls `StdRng::from_rng` on the thread-local generator of
/// `rand::thread_rng`, and hands back what it returns.  The randomness crate
/// seeds that generator from the operating system and stops the program
/// where the system gives no entropy.  Nothing is stated of the generator
/// that comes back.
#[verifier::external_body]
pub(crate) fn thread_seeded_rng() -> (r: Result<StdRng, rand::Error>) {
    StdRng::from_rng(rand::thread_rng())
}

} // verus!
