//! End-to-end tests of the transcript engine: prover/verifier round trips,
//! hint transparency, encoding invariance, proof-of-work grinding, and the
//! sponge's squeeze discipline, all over the real Poseidon2 permutation.
use fiat_shamir::ChallengeSampler;
use fiat_shamir::ChallengerState;
use fiat_shamir::DuplexChallenger;
use fiat_shamir::ExtensionScalar;
use fiat_shamir::ProofError;
use fiat_shamir::ProverState;
use fiat_shamir::VerifierState;

const D: usize = 4;

fn ext(coeffs: [u64; 4]) -> ExtensionScalar {
    ExtensionScalar::new(coeffs.to_vec())
}

#[test]
fn empty_transcript_same_challenge() {
    let mut prover = ProverState::new(D, false);
    let c_p = prover.sample();
    let proof = prover.into_proof();
    assert_eq!(proof.proof_data.len(), 0);
    let mut verifier = VerifierState::new(proof, D);
    let c_v = verifier.sample();
    assert_eq!(c_p.coeffs, c_v.coeffs);
}

#[test]
fn single_observe_round_trip() {
    let mut prover = ProverState::new(D, false);
    prover.add_base_scalars(&vec![1, 2, 3]);
    assert_eq!(prover.proof_size_fe(), 3);
    let c_p = prover.sample();
    let proof = prover.into_proof();
    assert_eq!(proof.proof_size, 3);
    let mut verifier = VerifierState::new(proof, D);
    let scalars = verifier.next_base_scalars_vec(3).unwrap();
    assert_eq!(scalars, vec![1, 2, 3]);
    let c_v = verifier.sample();
    assert_eq!(c_p.coeffs, c_v.coeffs);
}

#[test]
fn padded_extension_layout() {
    let mut prover = ProverState::new(D, true);
    let e1 = ext([5, 6, 7, 9]);
    prover.add_extension_scalars(&vec![ext([5, 6, 7, 9])]);
    let proof = prover.into_proof();
    assert_eq!(proof.proof_data.len(), 8);
    assert_eq!(proof.proof_size, 4);
    assert_eq!(&proof.proof_data[0..4], &[5, 6, 7, 9]);
    assert_eq!(&proof.proof_data[4..8], &[0, 0, 0, 0]);
    let mut verifier = VerifierState::new(proof, D);
    let es = verifier.next_extension_scalars_vec(1).unwrap();
    assert_eq!(es.len(), 1);
    assert_eq!(es[0].coeffs, e1.coeffs);
}

#[test]
fn padded_extension_rejects_dirty_pad() {
    let mut prover = ProverState::new(D, true);
    prover.add_extension_scalars(&vec![ext([5, 6, 7, 9])]);
    let mut proof = prover.into_proof();
    proof.proof_data[5] = 1;
    let mut verifier = VerifierState::new(proof, D);
    assert_eq!(
        verifier.next_extension_scalars_vec(1).unwrap_err(),
        ProofError::ExceededTranscript
    );
}

#[test]
fn compact_extension_round_trip() {
    let mut prover = ProverState::new(D, false);
    let es_in = vec![ext([11, 12, 13, 14]), ext([15, 16, 17, 18])];
    prover.add_extension_scalars(&es_in);
    assert_eq!(prover.proof_size_fe(), 8);
    let c_p = prover.sample();
    let proof = prover.into_proof();
    assert_eq!(proof.proof_data.len(), 8);
    let mut verifier = VerifierState::new(proof, D);
    let es_out = verifier.next_extension_scalars_vec(2).unwrap();
    assert_eq!(es_out[0].coeffs, vec![11, 12, 13, 14]);
    assert_eq!(es_out[1].coeffs, vec![15, 16, 17, 18]);
    let c_v = verifier.sample();
    assert_eq!(c_p.coeffs, c_v.coeffs);
}

#[test]
fn hint_independence() {
    let mut p1 = ProverState::new(D, false);
    p1.add_base_scalars(&vec![7]);
    p1.hint_base_scalars(&vec![9; 8]);
    let c1 = p1.sample();

    let mut p2 = ProverState::new(D, false);
    p2.add_base_scalars(&vec![7]);
    p2.hint_base_scalars(&vec![0; 8]);
    let c2 = p2.sample();

    assert_eq!(c1.coeffs, c2.coeffs);
}

#[test]
fn hint_round_trip_changes_only_hint_output() {
    let mut prover = ProverState::new(D, false);
    prover.add_base_scalars(&vec![7]);
    prover.hint_base_scalars(&vec![9; 8]);
    let c_p = prover.sample();
    let mut proof = prover.into_proof();
    // Flip a hint scalar: the verifier's challenge must not change.
    proof.proof_data[3] = 1000;
    let mut verifier = VerifierState::new(proof, D);
    let read = verifier.next_base_scalars_vec(1).unwrap();
    assert_eq!(read, vec![7]);
    let hints = verifier.receive_hint_base_scalars(8).unwrap();
    assert_eq!(hints[2], 1000);
    let c_v = verifier.sample();
    assert_eq!(c_p.coeffs, c_v.coeffs);
}

#[test]
fn transcript_binding() {
    let mut prover = ProverState::new(D, false);
    prover.add_base_scalars(&vec![1, 2, 3]);
    let c_p = prover.sample();
    let mut proof = prover.into_proof();
    // Flip an observed scalar: the verifier's challenge must diverge.
    proof.proof_data[1] = 99;
    let mut verifier = VerifierState::new(proof, D);
    let _ = verifier.next_base_scalars_vec(3).unwrap();
    let c_v = verifier.sample();
    assert_ne!(c_p.coeffs, c_v.coeffs);
}

#[test]
fn padding_invariance_of_challenges() {
    let mut compact = ProverState::new(D, false);
    let mut padded = ProverState::new(D, true);
    compact.add_base_scalars(&vec![1, 2, 3]);
    padded.add_base_scalars(&vec![1, 2, 3]);
    compact.add_extension_scalars(&vec![ext([21, 22, 23, 24])]);
    padded.add_extension_scalars(&vec![ext([21, 22, 23, 24])]);
    let c1 = compact.sample();
    let c2 = padded.sample();
    assert_eq!(c1.coeffs, c2.coeffs);
    assert_eq!(compact.state(), padded.state());
}

#[test]
fn sample_vec_matches_repeated_sample() {
    let mut p1 = ProverState::new(D, false);
    let mut p2 = ProverState::new(D, false);
    p1.add_base_scalars(&vec![4, 5]);
    p2.add_base_scalars(&vec![4, 5]);
    let many = p1.sample_vec(3);
    let one_by_one = vec![p2.sample(), p2.sample(), p2.sample()];
    assert_eq!(many.len(), 3);
    for i in 0..3 {
        assert_eq!(many[i].coeffs, one_by_one[i].coeffs);
    }
}

#[test]
fn sample_bits_masks_low_bits() {
    let mut p1 = ProverState::new(D, false);
    let mut p2 = ProverState::new(D, false);
    let full = p2.sample();
    let bits = p1.sample_bits(5);
    assert_eq!(bits, (full.coeffs[0] as usize) & 0x1f);
    assert!(bits < 32);
}

#[test]
fn pow_round_trip_compact() {
    let mut prover = ProverState::new(D, false);
    prover.add_base_scalars(&vec![42]);
    assert!(prover.pow_grinding(8));
    let witness = *prover.proof_data().last().unwrap();
    assert!(witness != 0, "the ground witness should not be zero here");
    let proof = prover.into_proof();
    assert_eq!(proof.proof_data.len(), 2);
    let mut verifier = VerifierState::new(proof, D);
    let _ = verifier.next_base_scalars_vec(1).unwrap();
    assert_eq!(verifier.check_pow_grinding(8), Ok(()));
}

#[test]
fn pow_rejects_zeroed_witness() {
    let mut prover = ProverState::new(D, false);
    prover.add_base_scalars(&vec![42]);
    assert!(prover.pow_grinding(8));
    let mut proof = prover.into_proof();
    let last = proof.proof_data.len() - 1;
    proof.proof_data[last] = 0;
    let mut verifier = VerifierState::new(proof, D);
    let _ = verifier.next_base_scalars_vec(1).unwrap();
    assert_eq!(
        verifier.check_pow_grinding(8),
        Err(ProofError::InvalidGrindingWitness)
    );
}

#[test]
fn pow_round_trip_padded() {
    let mut prover = ProverState::new(D, true);
    prover.add_base_scalars(&vec![42]);
    let before = prover.proof_data().len();
    assert!(prover.pow_grinding(8));
    let after = prover.proof_data().len();
    assert_eq!(after - before, 8);
    let proof = prover.into_proof();
    let mut verifier = VerifierState::new(proof, D);
    let _ = verifier.next_base_scalars_vec(8).unwrap();
    assert_eq!(verifier.check_pow_grinding(8), Ok(()));
}

#[test]
fn pow_zero_bits_is_noop() {
    let mut prover = ProverState::new(D, false);
    assert!(prover.pow_grinding(0));
    let proof = prover.into_proof();
    assert_eq!(proof.proof_data.len(), 0);
    let mut verifier = VerifierState::new(proof, D);
    assert_eq!(verifier.check_pow_grinding(0), Ok(()));
}

#[test]
fn exceeding_transcript_fails() {
    let mut prover = ProverState::new(D, false);
    prover.add_base_scalars(&vec![1, 2, 3]);
    let proof = prover.into_proof();
    let n = proof.proof_data.len();
    let mut verifier = VerifierState::new(proof, D);
    assert_eq!(
        verifier.next_base_scalars_vec(n + 1).unwrap_err(),
        ProofError::ExceededTranscript
    );
    // The failed read must not have consumed anything.
    let read = verifier.next_base_scalars_vec(n).unwrap();
    assert_eq!(read, vec![1, 2, 3]);
}

#[test]
fn hint_read_past_end_fails() {
    let prover = ProverState::new(D, false);
    let proof = prover.into_proof();
    let mut verifier = VerifierState::new(proof, D);
    assert_eq!(
        verifier.receive_hint_base_scalars(1).unwrap_err(),
        ProofError::ExceededTranscript
    );
}

#[test]
fn merkle_hint_round_trip() {
    let mut prover = ProverState::new(D, false);
    let path = vec![vec![1, 2, 3, 4, 5, 6, 7, 8], vec![9, 10, 11, 12, 13, 14, 15, 16]];
    prover.hint_merkle_path(path.clone());
    let proof = prover.into_proof();
    let mut verifier = VerifierState::new(proof, D);
    let got = verifier.receive_hint_merkle_path().unwrap();
    assert_eq!(got, path);
    assert_eq!(
        verifier.receive_hint_merkle_path().unwrap_err(),
        ProofError::ExceededTranscript
    );
}

#[test]
fn squeeze_discipline() {
    let mut c = DuplexChallenger::new();
    c.observe(&vec![1, 2, 3, 4, 5, 6, 7, 8]);
    assert!(c.output_buffer.is_some());
    let sponge_after_observe = c.sponge_state.clone();
    let s1 = c.sample();
    // The first squeeze consumed the buffer without permuting.
    assert!(c.output_buffer.is_none());
    assert_eq!(c.sponge_state, sponge_after_observe);
    assert_eq!(s1, sponge_after_observe[0..8].to_vec());
    // The second squeeze triggers exactly one fresh permutation.
    let s2 = c.sample();
    assert_ne!(c.sponge_state, sponge_after_observe);
    assert_eq!(s2, c.sponge_state[0..8].to_vec());
    assert_ne!(s1, s2);
}

#[test]
fn permutation_matches_reference() {
    // The sponge's first squeeze is the permutation of the zero state; it
    // must match the reference Poseidon2 permutation applied directly.
    let mut c = DuplexChallenger::new();
    let out = c.sample();
    let zero_state = [p3_koala_bear::KoalaBear::new(0); 16];
    let reference =
        p3_symmetric::Permutation::permute(&p3_koala_bear::default_koalabear_poseidon2_16(), zero_state);
    let expected: Vec<u64> = reference
        .iter()
        .take(8)
        .map(|x| p3_field::PrimeField64::as_canonical_u64(x))
        .collect();
    assert_eq!(out, expected);
    assert!(out.iter().any(|&x| x != 0));
}

#[test]
fn challenger_state_text_tracks_sponge() {
    let mut p1 = ProverState::new(D, false);
    let mut p2 = ProverState::new(D, false);
    assert_eq!(p1.state(), p2.state());
    p1.add_base_scalars(&vec![1]);
    assert_ne!(p1.state(), p2.state());
    p2.add_base_scalars(&vec![1]);
    assert_eq!(p1.state(), p2.state());
}

#[test]
fn empty_observe_is_noop() {
    let mut p1 = ProverState::new(D, false);
    let mut p2 = ProverState::new(D, false);
    p1.add_base_scalars(&vec![]);
    let c1 = p1.sample();
    let c2 = p2.sample();
    assert_eq!(c1.coeffs, c2.coeffs);
    assert_eq!(p1.proof_size_fe(), 0);
}

#[test]
fn sample_vec_empty() {
    let mut p1 = ProverState::new(D, false);
    let mut p2 = ProverState::new(D, false);
    assert!(p1.sample_vec(0).is_empty());
    let c1 = p1.sample();
    let c2 = p2.sample();
    assert_eq!(c1.coeffs, c2.coeffs);
}

#[test]
fn hint_extension_scalars_flatten() {
    let mut prover = ProverState::new(D, true);
    prover.hint_extension_scalars(&vec![ext([1, 2, 3, 4]), ext([5, 6, 7, 8])]);
    // Two four-coefficient scalars flatten into one vector word, unpadded.
    assert_eq!(prover.proof_size_fe(), 8);
    let c_p = prover.sample();
    let proof = prover.into_proof();
    assert_eq!(proof.proof_data, vec![1, 2, 3, 4, 5, 6, 7, 8]);
    let mut verifier = VerifierState::new(proof, D);
    let hints = verifier.receive_hint_base_scalars(8).unwrap();
    assert_eq!(hints, vec![1, 2, 3, 4, 5, 6, 7, 8]);
    let c_v = verifier.sample();
    assert_eq!(c_p.coeffs, c_v.coeffs);
}

#[test]
fn extension_read_past_end_fails() {
    let mut prover = ProverState::new(D, false);
    prover.add_extension_scalars(&vec![ext([1, 2, 3, 4])]);
    let proof = prover.into_proof();
    let mut verifier = VerifierState::new(proof, D);
    assert_eq!(
        verifier.next_extension_scalars_vec(2).unwrap_err(),
        ProofError::ExceededTranscript
    );
}

#[test]
fn verifier_sample_vec_matches_prover() {
    let mut prover = ProverState::new(D, false);
    prover.add_base_scalars(&vec![8, 9]);
    let c_p = prover.sample_vec(2);
    let proof = prover.into_proof();
    let mut verifier = VerifierState::new(proof, D);
    let _ = verifier.next_base_scalars_vec(2).unwrap();
    let c_v = verifier.sample_vec(2);
    for i in 0..2 {
        assert_eq!(c_p[i].coeffs, c_v[i].coeffs);
    }
}

#[test]
fn full_dimension_extension_round_trip() {
    // The extension dimension may fill the whole rate.
    let mut prover = ProverState::new(8, true);
    let e = ExtensionScalar::new(vec![1, 2, 3, 4, 5, 6, 7, 8]);
    prover.add_extension_scalars(&vec![ExtensionScalar::new(vec![1, 2, 3, 4, 5, 6, 7, 8])]);
    assert_eq!(prover.proof_size_fe(), 8);
    let proof = prover.into_proof();
    let mut verifier = VerifierState::new(proof, 8);
    let es = verifier.next_extension_scalars_vec(1).unwrap();
    assert_eq!(es[0].coeffs, e.coeffs);
}

#[test]
fn pow_missing_witness_fails() {
    let prover = ProverState::new(D, false);
    let proof = prover.into_proof();
    let mut verifier = VerifierState::new(proof, D);
    assert_eq!(
        verifier.check_pow_grinding(8).unwrap_err(),
        ProofError::ExceededTranscript
    );
}
