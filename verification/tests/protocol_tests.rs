use bulletproofs::{PedersenGens, ProofError};
use rand::rngs::StdRng;
use rand::{RngCore, SeedableRng};
use rangeproof::protocol::{
    conclude_proof, conclude_verification, pack_output, status_of_verification, value_fits,
    AGGREGATION, BIT_WIDTH, STATUS_FAILED, STATUS_OK, TRANSCRIPT_LABEL,
};
use rangeproof::scalar::{order_bytes, Scalar};
use rangeproof::wire::PROOF_LEN;
use rangeproof::{
    bp_pedersen_commit, bp_range_proof_prove, bp_range_proof_verify, commit, prove, verify,
    verify_bytes, Commitment, ProveError, RangeProof, VerifyError,
};

fn seeded(seed: u64) -> StdRng {
    StdRng::seed_from_u64(seed)
}

fn random_scalar(rng: &mut StdRng) -> Scalar {
    let mut bytes = [0u8; 32];
    rng.fill_bytes(&mut bytes);
    bytes[31] &= 0x0f;
    Scalar::from_canonical_bytes(bytes).expect("below the group order")
}

fn direct_commitment(value: u64, blinding: u64) -> [u8; 32] {
    PedersenGens::default()
        .commit(
            curve25519_dalek_ng::scalar::Scalar::from(value),
            curve25519_dalek_ng::scalar::Scalar::from(blinding),
        )
        .compress()
        .to_bytes()
}

#[test]
fn the_parameters_are_fixed() {
    assert_eq!(BIT_WIDTH, 64);
    assert_eq!(AGGREGATION, 1);
    assert_eq!(TRANSCRIPT_LABEL, "RangeProof");
    assert_eq!(STATUS_OK, 0);
    assert_eq!(STATUS_FAILED, 1);
}

#[test]
fn value_fits_compares_with_a_power_of_two() {
    assert!(value_fits(0, 0));
    assert!(!value_fits(1, 0));
    assert!(value_fits(255, 8));
    assert!(!value_fits(256, 8));
    assert!(value_fits((1 << 32) - 1, 32));
    assert!(!value_fits(1 << 32, 32));
    assert!(value_fits((1 << 63) - 1, 63));
    assert!(!value_fits(1 << 63, 63));
    assert!(value_fits(u64::MAX, 64));
    assert!(value_fits(u64::MAX, 65));
}

#[test]
fn commit_is_deterministic() {
    let b = Scalar::from_u64(7);
    assert_eq!(commit(42, &b), commit(42, &b));
    assert_eq!(commit(42, &b).to_bytes(), commit(42, &b).to_bytes());
    assert_eq!(bp_pedersen_commit(42, 7), bp_pedersen_commit(42, 7));
}

#[test]
fn commit_is_value_times_g_plus_blinding_times_h() {
    for (v, b) in [(42u64, 7u64), (0, 0), (0, 1), (1, 0), (u64::MAX, u64::MAX)] {
        assert_eq!(commit(v, &Scalar::from_u64(b)).to_bytes(), direct_commitment(v, b));
        assert_eq!(bp_pedersen_commit(v, b), direct_commitment(v, b));
    }
}

#[test]
fn commit_of_42_under_7_is_one_fixed_point() {
    let expected: [u8; 32] = [
        166, 158, 209, 47, 185, 196, 47, 6, 168, 198, 255, 139, 83, 90, 120, 27, 97, 63, 70, 199,
        148, 77, 1, 60, 7, 142, 176, 181, 243, 116, 92, 68,
    ];
    assert_eq!(bp_pedersen_commit(42, 7), expected);
    assert_eq!(commit(42, &Scalar::from_u64(7)).to_bytes(), expected);
}

#[test]
fn commit_of_one_under_zero_is_the_base_point() {
    let expected: [u8; 32] = [
        226, 242, 174, 10, 106, 188, 78, 113, 168, 132, 169, 97, 197, 0, 81, 95, 88, 227, 11, 106,
        165, 130, 221, 141, 182, 166, 89, 69, 224, 141, 45, 118,
    ];
    assert_eq!(bp_pedersen_commit(1, 0), expected);
    assert_eq!(
        expected,
        curve25519_dalek_ng::constants::RISTRETTO_BASEPOINT_COMPRESSED.to_bytes()
    );
}

#[test]
fn commit_of_zero_under_one_is_the_blinding_base() {
    let expected: [u8; 32] = [
        140, 146, 64, 180, 86, 169, 230, 220, 101, 195, 119, 161, 4, 141, 116, 95, 148, 160, 140,
        219, 127, 68, 203, 205, 123, 70, 243, 64, 72, 135, 17, 52,
    ];
    assert_eq!(bp_pedersen_commit(0, 1), expected);
}

#[test]
fn commit_depends_on_value_and_on_blinding() {
    assert_ne!(bp_pedersen_commit(42, 7), bp_pedersen_commit(43, 7));
    assert_ne!(bp_pedersen_commit(42, 7), bp_pedersen_commit(42, 8));
    assert_ne!(bp_pedersen_commit(42, 7), bp_pedersen_commit(7, 42));
    assert_ne!(bp_pedersen_commit(42, 7), Scalar::from_u64(7).to_bytes());
}

#[test]
fn commit_to_nothing_is_the_identity() {
    assert_eq!(bp_pedersen_commit(0, 0), [0u8; 32]);
}

#[test]
fn commit_takes_a_full_width_blinding_factor() {
    let mut rng = seeded(11);
    let b = random_scalar(&mut rng);
    let expected = PedersenGens::default()
        .commit(
            curve25519_dalek_ng::scalar::Scalar::from(5u64),
            curve25519_dalek_ng::scalar::Scalar::from_canonical_bytes(b.to_bytes()).unwrap(),
        )
        .compress()
        .to_bytes();
    assert_eq!(commit(5, &b).to_bytes(), expected);
    assert_eq!(commit(5, &b).validate(), Ok(()));
}

#[test]
fn scenario_42_and_7() {
    let blinding = Scalar::from_u64(7);
    let commitment = commit(42, &blinding);
    assert_eq!(commitment.to_bytes(), direct_commitment(42, 7));
    let mut rng = seeded(42);
    let (proved_commitment, proof) = prove(42, &blinding, &mut rng).expect("a proof is made");
    assert_eq!(proved_commitment, commitment);
    assert_eq!(verify(&commitment, &proof), Ok(()));

    let mut tampered = proof.clone();
    tampered.t[0] ^= 1;
    assert_eq!(verify(&commitment, &tampered), Err(VerifyError::InvalidProof));

    let other = commit(43, &blinding);
    assert_eq!(verify(&other, &proof), Err(VerifyError::InvalidProof));
    let other_blinding = commit(42, &Scalar::from_u64(8));
    assert_eq!(verify(&other_blinding, &proof), Err(VerifyError::InvalidProof));
}

#[test]
fn proofs_of_the_edge_values_are_accepted() {
    let mut rng = seeded(2);
    for value in [0u64, 1, 1 << 32, u64::MAX] {
        let blinding = random_scalar(&mut rng);
        let (commitment, proof) = prove(value, &blinding, &mut rng).expect("a proof is made");
        assert_eq!(commitment, commit(value, &blinding));
        assert_eq!(verify(&commitment, &proof), Ok(()));
        assert_eq!(verify_bytes(&commitment.to_bytes(), &proof.to_bytes()), Ok(()));
    }
}

#[test]
fn every_proof_has_the_same_length() {
    let mut rng = seeded(3);
    for value in [0u64, 1, 42, 1 << 32, u64::MAX - 1, u64::MAX] {
        let blinding = random_scalar(&mut rng);
        let (_, proof) = prove(value, &blinding, &mut rng).expect("a proof is made");
        assert_eq!(proof.to_bytes().len(), PROOF_LEN);
        assert_eq!(proof.to_bytes().len(), 672);
        assert_eq!(proof.rounds.len(), 6);
        assert_eq!(proof.validate(), Ok(()));
    }
}

#[test]
fn prove_never_reports_range_exceeded() {
    let mut rng = seeded(4);
    for value in [0u64, u64::MAX] {
        let r = prove(value, &Scalar::from_u64(1), &mut rng);
        assert_ne!(r, Err(ProveError::RangeExceeded));
        assert!(r.is_ok());
    }
}

#[test]
fn the_same_randomness_gives_the_same_proof() {
    let blinding = Scalar::from_u64(7);
    let first = prove(42, &blinding, &mut seeded(5)).expect("a proof is made");
    let second = prove(42, &blinding, &mut seeded(5)).expect("a proof is made");
    assert_eq!(first, second);
}

#[test]
fn fresh_randomness_gives_another_proof_of_the_same_commitment() {
    let blinding = Scalar::from_u64(7);
    let mut rng = seeded(6);
    let (first_commit, first_proof) = prove(42, &blinding, &mut rng).expect("a proof is made");
    let (second_commit, second_proof) = prove(42, &blinding, &mut rng).expect("a proof is made");
    assert_eq!(first_commit, second_commit);
    assert_ne!(first_proof, second_proof);
    assert_eq!(verify(&first_commit, &second_proof), Ok(()));
    assert_eq!(verify(&second_commit, &first_proof), Ok(()));
}

#[test]
fn a_flipped_proof_byte_is_rejected() {
    let blinding = Scalar::from_u64(7);
    let (commitment, proof) = prove(42, &blinding, &mut seeded(7)).expect("a proof is made");
    let commit_bytes = commitment.to_bytes();
    let proof_bytes = proof.to_bytes();
    let mut position = 0usize;
    while position < proof_bytes.len() {
        let mut flipped = proof_bytes.clone();
        flipped[position] ^= 0x01;
        assert!(verify_bytes(&commit_bytes, &flipped).is_err());
        assert_eq!(bp_range_proof_verify(0, 0, &commit_bytes, &flipped), STATUS_FAILED);
        position += 29;
    }
}

#[test]
fn a_flipped_high_bit_of_a_proof_byte_is_rejected() {
    let blinding = Scalar::from_u64(9);
    let (commitment, proof) = prove(1 << 32, &blinding, &mut seeded(8)).expect("a proof is made");
    let commit_bytes = commitment.to_bytes();
    let proof_bytes = proof.to_bytes();
    let mut position = 13usize;
    while position < proof_bytes.len() {
        let mut flipped = proof_bytes.clone();
        flipped[position] ^= 0x80;
        assert!(verify_bytes(&commit_bytes, &flipped).is_err());
        position += 31;
    }
}

#[test]
fn a_flipped_commitment_byte_is_rejected() {
    let blinding = Scalar::from_u64(7);
    let (commitment, proof) = prove(42, &blinding, &mut seeded(9)).expect("a proof is made");
    let commit_bytes = commitment.to_bytes();
    let proof_bytes = proof.to_bytes();
    for position in 0..32 {
        let mut flipped = commit_bytes;
        flipped[position] ^= 0x01;
        assert!(verify_bytes(&flipped, &proof_bytes).is_err());
        assert_eq!(bp_range_proof_verify(0, 0, &flipped, &proof_bytes), STATUS_FAILED);
    }
}

#[test]
fn buffers_are_decoded_before_anything_is_verified() {
    let blinding = Scalar::from_u64(7);
    let (commitment, proof) = prove(42, &blinding, &mut seeded(10)).expect("a proof is made");
    let commit_bytes = commitment.to_bytes();
    let proof_bytes = proof.to_bytes();

    assert_eq!(
        verify_bytes(&commit_bytes[..31], &proof_bytes),
        Err(VerifyError::MalformedCommitment)
    );
    assert_eq!(verify_bytes(&[], &proof_bytes), Err(VerifyError::MalformedCommitment));
    let mut long_commit = commit_bytes.to_vec();
    long_commit.push(0);
    assert_eq!(verify_bytes(&long_commit, &proof_bytes), Err(VerifyError::MalformedCommitment));
    assert_eq!(verify_bytes(&[0xff; 32], &proof_bytes), Err(VerifyError::MalformedCommitment));

    assert_eq!(
        verify_bytes(&commit_bytes, &proof_bytes[..671]),
        Err(VerifyError::MalformedProof)
    );
    assert_eq!(verify_bytes(&commit_bytes, &[]), Err(VerifyError::MalformedProof));
    assert_eq!(
        verify_bytes(&commit_bytes, &proof_bytes[..640]),
        Err(VerifyError::MalformedProof)
    );
    let mut long_proof = proof_bytes.clone();
    long_proof.extend_from_slice(&[0u8; 64]);
    assert_eq!(verify_bytes(&commit_bytes, &long_proof), Err(VerifyError::MalformedProof));

    assert_eq!(
        verify_bytes(&commit_bytes[..31], &proof_bytes[..671]),
        Err(VerifyError::MalformedCommitment)
    );
}

#[test]
fn a_proof_with_a_field_that_does_not_decode_is_malformed() {
    let blinding = Scalar::from_u64(7);
    let (commitment, proof) = prove(42, &blinding, &mut seeded(12)).expect("a proof is made");

    let mut bad_scalar = proof.clone();
    bad_scalar.tau_x = order_bytes();
    assert_eq!(verify(&commitment, &bad_scalar), Err(VerifyError::MalformedProof));

    let mut bad_point = proof.clone();
    bad_point.s_commit = [0xff; 32];
    assert_eq!(verify(&commitment, &bad_point), Err(VerifyError::MalformedProof));

    let mut five_rounds = proof.clone();
    five_rounds.rounds.pop();
    assert_eq!(verify(&commitment, &five_rounds), Err(VerifyError::MalformedProof));

    let mut seven_rounds = proof.clone();
    seven_rounds.rounds.push(seven_rounds.rounds[0]);
    assert_eq!(verify(&commitment, &seven_rounds), Err(VerifyError::MalformedProof));

    let no_point = Commitment { bytes: [0xff; 32] };
    assert_eq!(verify(&no_point, &proof), Err(VerifyError::MalformedCommitment));
    assert_eq!(verify(&no_point, &bad_scalar), Err(VerifyError::MalformedCommitment));
}

#[test]
fn a_well_formed_proof_that_does_not_hold_is_invalid() {
    let blinding = Scalar::from_u64(7);
    let (commitment, proof) = prove(42, &blinding, &mut seeded(13)).expect("a proof is made");
    let (_, other_proof) = prove(42, &blinding, &mut seeded(14)).expect("a proof is made");

    let mut mixed = proof.clone();
    mixed.rounds[2] = other_proof.rounds[2];
    assert_eq!(mixed.validate(), Ok(()));
    assert_eq!(verify(&commitment, &mixed), Err(VerifyError::InvalidProof));

    let mut zero_scalar = proof.clone();
    zero_scalar.a = [0; 32];
    assert_eq!(verify(&commitment, &zero_scalar), Err(VerifyError::InvalidProof));

    let mut identity = proof.clone();
    identity.a_commit = [0; 32];
    assert_eq!(verify(&commitment, &identity), Err(VerifyError::InvalidProof));
}

#[test]
fn a_proof_is_checked_from_its_bytes_alone() {
    let out = bp_range_proof_prove(42, 0, 0, 7);
    assert_eq!(out.status, STATUS_OK);
    let commit_bytes: Vec<u8> = out.commit.to_vec();
    let proof_bytes: Vec<u8> = out.proof.clone();
    assert_eq!(bp_range_proof_verify(0, 0, &commit_bytes, &proof_bytes), STATUS_OK);
    assert_eq!(bp_range_proof_verify(0, 0, &commit_bytes, &proof_bytes), STATUS_OK);
    let decoded = RangeProof::from_bytes(&proof_bytes).expect("the proof decodes");
    let commitment = Commitment::from_bytes(&commit_bytes).expect("the commitment decodes");
    assert_eq!(verify(&commitment, &decoded), Ok(()));
}

#[test]
fn bp_range_proof_prove_returns_commitment_and_proof() {
    let out = bp_range_proof_prove(42, 0, 0, 7);
    assert_eq!(out.status, 0);
    assert_eq!(out.commit, bp_pedersen_commit(42, 7));
    assert_eq!(out.commit, direct_commitment(42, 7));
    assert_eq!(out.proof.len(), 672);
    assert_eq!(verify_bytes(&out.commit, &out.proof), Ok(()));
}

#[test]
fn bp_range_proof_prove_draws_fresh_randomness() {
    let first = bp_range_proof_prove(42, 0, 0, 7);
    let second = bp_range_proof_prove(42, 0, 0, 7);
    assert_eq!(first.commit, second.commit);
    assert_ne!(first.proof, second.proof);
}

#[test]
fn the_bounds_are_ignored() {
    let out = bp_range_proof_prove(1000, 5, 10, 3);
    assert_eq!(out.status, STATUS_OK);
    assert_eq!(out.commit, bp_pedersen_commit(1000, 3));
    assert_eq!(bp_range_proof_verify(0, 0, &out.commit, &out.proof), STATUS_OK);
    assert_eq!(bp_range_proof_verify(5, 10, &out.commit, &out.proof), STATUS_OK);
    assert_eq!(bp_range_proof_verify(2000, 3000, &out.commit, &out.proof), STATUS_OK);
    let full = bp_range_proof_prove(u64::MAX, 0, 1, 3);
    assert_eq!(full.status, STATUS_OK);
    assert_eq!(bp_range_proof_verify(0, 1, &full.commit, &full.proof), STATUS_OK);
}

#[test]
fn bp_range_proof_verify_reports_every_failure_as_one() {
    let out = bp_range_proof_prove(42, 0, 0, 7);
    assert_eq!(bp_range_proof_verify(0, 0, &out.commit[..31], &out.proof), 1);
    assert_eq!(bp_range_proof_verify(0, 0, &out.commit, &out.proof[..671]), 1);
    assert_eq!(bp_range_proof_verify(0, 0, &out.commit, &[]), 1);
    assert_eq!(bp_range_proof_verify(0, 0, &bp_pedersen_commit(43, 7), &out.proof), 1);
    let mut tampered = out.proof.clone();
    tampered[100] ^= 0xff;
    assert_eq!(bp_range_proof_verify(0, 0, &out.commit, &tampered), 1);
}

#[test]
fn conclude_proof_takes_only_an_encoded_proof() {
    let blinding = Scalar::from_u64(7);
    let (commitment, proof) = prove(42, &blinding, &mut seeded(15)).expect("a proof is made");
    let bytes = proof.to_bytes();
    assert_eq!(conclude_proof(commitment, Ok(bytes.clone())), Ok((commitment, proof)));
    assert_eq!(
        conclude_proof(commitment, Ok(bytes[..640].to_vec())),
        Err(ProveError::ProvingFailed)
    );
    assert_eq!(conclude_proof(commitment, Ok(vec![0xff; 672])), Err(ProveError::ProvingFailed));
    assert_eq!(
        conclude_proof(commitment, Err(ProofError::InvalidBitsize)),
        Err(ProveError::ProvingFailed)
    );
}

#[test]
fn conclude_verification_maps_every_refusal_to_invalid_proof() {
    assert_eq!(conclude_verification(Ok(())), Ok(()));
    assert_eq!(
        conclude_verification(Err(ProofError::VerificationError)),
        Err(VerifyError::InvalidProof)
    );
    assert_eq!(
        conclude_verification(Err(ProofError::FormatError)),
        Err(VerifyError::InvalidProof)
    );
}

#[test]
fn status_of_verification_is_zero_only_on_acceptance() {
    assert_eq!(status_of_verification(Ok(())), 0);
    assert_eq!(status_of_verification(Err(VerifyError::MalformedCommitment)), 1);
    assert_eq!(status_of_verification(Err(VerifyError::MalformedProof)), 1);
    assert_eq!(status_of_verification(Err(VerifyError::InvalidProof)), 1);
}

#[test]
fn pack_output_keeps_the_commitment_and_drops_a_failed_proof() {
    let blinding = Scalar::from_u64(7);
    let (commitment, proof) = prove(42, &blinding, &mut seeded(16)).expect("a proof is made");
    let bytes = proof.to_bytes();
    let ok = pack_output(commitment.to_bytes(), Ok((commitment, proof)));
    assert_eq!(ok.status, STATUS_OK);
    assert_eq!(ok.commit, commitment.to_bytes());
    assert_eq!(ok.proof, bytes);
    for e in [ProveError::RangeExceeded, ProveError::ProvingFailed] {
        let failed = pack_output(commitment.to_bytes(), Err(e));
        assert_eq!(failed.status, STATUS_FAILED);
        assert_eq!(failed.commit, commitment.to_bytes());
        assert!(failed.proof.is_empty());
    }
}

#[test]
fn the_error_kinds_are_distinct() {
    assert_ne!(VerifyError::MalformedCommitment, VerifyError::MalformedProof);
    assert_ne!(VerifyError::MalformedProof, VerifyError::InvalidProof);
    assert_ne!(VerifyError::MalformedCommitment, VerifyError::InvalidProof);
    assert_ne!(ProveError::RangeExceeded, ProveError::ProvingFailed);
}
