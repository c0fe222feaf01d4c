use ark_bls12_381::{Bls12_381, Fr, G1Affine, G2Affine};
use ark_ec::AffineRepr;
use ark_ec::CurveGroup;
use ark_ec::pairing::Pairing;
use ark_groth16::{VerifyingKey, prepare_verifying_key};
use ark_serialize::CanonicalSerialize;
use snarkpack::Error;
use snarkpack::commitment::Output;
use snarkpack::srs::VerifierSRS;
use snarkpack::aggregate::{AggregateProof, encode_aggregate_proof};
use snarkpack::codec::encode_verifier_srs;
use snarkpack::curve::{Scalar, G1Elem, G2Elem, GtElem, fr_from_u64, g1_from_bytes, g2_from_bytes};
use snarkpack::groth16::pvk_from_bytes;
use snarkpack::protocol::{Verifier, verify_aggregate_proof};
use snarkpack::transcript::new_merlin_transcript;

fn g1_elem(k: u64) -> G1Elem {
    let p = (G1Affine::generator() * Fr::from(k)).into_affine();
    let mut bytes = Vec::new();
    p.serialize_compressed(&mut bytes).unwrap();
    g1_from_bytes(&bytes).unwrap()
}

fn g2_elem(k: u64) -> G2Elem {
    let p = (G2Affine::generator() * Fr::from(k)).into_affine();
    let mut bytes = Vec::new();
    p.serialize_compressed(&mut bytes).unwrap();
    g2_from_bytes(&bytes).unwrap()
}

fn gt_elem(k: u64) -> GtElem {
    let x = Bls12_381::pairing(
        (G1Affine::generator() * Fr::from(k)).into_affine(),
        G2Affine::generator(),
    ).0;
    let mut bytes = Vec::new();
    x.serialize_compressed(&mut bytes).unwrap();
    snarkpack::curve::gt_from_bytes(&bytes).unwrap()
}

fn srs_bytes(n: usize) -> Vec<u8> {
    let srs = VerifierSRS {
        n,
        g: g1_elem(1),
        h: g2_elem(1),
        g_alpha: g1_elem(11),
        g_beta: g1_elem(13),
        h_alpha: g2_elem(17),
        h_beta: g2_elem(19),
    };
    encode_verifier_srs(&srs)
}

fn pvk_bytes(num_inputs: usize) -> Vec<u8> {
    let vk: VerifyingKey<Bls12_381> = VerifyingKey {
        alpha_g1: G1Affine::generator(),
        beta_g2: G2Affine::generator(),
        gamma_g2: (G2Affine::generator() * Fr::from(3u64)).into_affine(),
        delta_g2: (G2Affine::generator() * Fr::from(5u64)).into_affine(),
        gamma_abc_g1: (0..num_inputs + 1)
            .map(|i| (G1Affine::generator() * Fr::from(i as u64 + 2)).into_affine())
            .collect(),
    };
    let pvk = prepare_verifying_key(&vk);
    let mut bytes = Vec::new();
    pvk.serialize_compressed(&mut bytes).unwrap();
    bytes
}

fn bogus_proof(rounds: usize) -> AggregateProof {
    AggregateProof {
        com_ab: Output(gt_elem(2), gt_elem(3)),
        com_c: Output(gt_elem(4), gt_elem(5)),
        ip_ab: gt_elem(6),
        agg_c: g1_elem(7),
        comms_ab: (0..rounds)
            .map(|_| (Output(gt_elem(8), gt_elem(9)), Output(gt_elem(10), gt_elem(11))))
            .collect(),
        comms_c: (0..rounds)
            .map(|_| (Output(gt_elem(12), gt_elem(13)), Output(gt_elem(14), gt_elem(15))))
            .collect(),
        z_ab: (0..rounds).map(|_| (gt_elem(16), gt_elem(17))).collect(),
        z_c: (0..rounds).map(|_| (g1_elem(18), g1_elem(19))).collect(),
        final_a: g1_elem(20),
        final_b: g2_elem(21),
        final_c: g1_elem(22),
        final_vkey: (g2_elem(23), g2_elem(24)),
        final_wkey: (g1_elem(25), g1_elem(26)),
        vkey_opening: (g2_elem(27), g2_elem(28)),
        wkey_opening: (g1_elem(29), g1_elem(30)),
    }
}

fn inputs(rows: usize, cols: usize) -> Vec<Vec<Scalar>> {
    (0..rows).map(|_| (0..cols).map(|_| fr_from_u64(1)).collect()).collect()
}

#[test]
fn empty_buffers_are_rejected() {
    // A truncated or empty buffer for any of the three inputs yields false.
    let good_srs = srs_bytes(2);
    let good_pvk = pvk_bytes(1);
    let good_proof = encode_aggregate_proof(&bogus_proof(1));
    let ins = inputs(2, 1);
    assert!(!Verifier::verify_aggregate_proof_custom(Vec::new(), good_pvk.clone(), good_proof.clone(), &ins));
    assert!(!Verifier::verify_aggregate_proof_custom(good_srs.clone(), Vec::new(), good_proof.clone(), &ins));
    assert!(!Verifier::verify_aggregate_proof_custom(good_srs.clone(), good_pvk.clone(), Vec::new(), &ins));
}

#[test]
fn truncated_buffers_are_rejected() {
    let good_srs = srs_bytes(2);
    let good_pvk = pvk_bytes(1);
    let good_proof = encode_aggregate_proof(&bogus_proof(1));
    let ins = inputs(2, 1);
    let mut short_srs = good_srs.clone();
    short_srs.truncate(10);
    let mut short_pvk = good_pvk.clone();
    short_pvk.truncate(10);
    let mut short_proof = good_proof.clone();
    short_proof.truncate(good_proof.len() - 7);
    assert!(!Verifier::verify_aggregate_proof_custom(short_srs, good_pvk.clone(), good_proof.clone(), &ins));
    assert!(!Verifier::verify_aggregate_proof_custom(good_srs.clone(), short_pvk, good_proof.clone(), &ins));
    assert!(!Verifier::verify_aggregate_proof_custom(good_srs, good_pvk, short_proof, &ins));
}

#[test]
fn a_bogus_proof_fails_the_pairing_checks() {
    // Structurally coherent, algebraically wrong: the full pipeline runs and
    // the verdict is a failed check, not a structural error.
    let srs_b = srs_bytes(2);
    let pvk_b = pvk_bytes(1);
    let srs = snarkpack::codec::decode_verifier_srs(&srs_b).unwrap();
    let pvk = pvk_from_bytes(&pvk_b).unwrap();
    let p = bogus_proof(1);
    let ins = inputs(2, 1);
    let mut t = new_merlin_transcript("test aggregation");
    let r = verify_aggregate_proof(&srs, &pvk, &ins, &p, &mut t);
    assert_eq!(r, Err(Error::InvalidProof));
    assert!(!Verifier::verify_aggregate_proof_custom(srs_b, pvk_b, encode_aggregate_proof(&p), &ins));
}

#[test]
fn mismatched_batch_size_is_a_structural_error() {
    // The SRS says 3 proofs, the batch holds 2.
    let srs = snarkpack::codec::decode_verifier_srs(&srs_bytes(3)).unwrap();
    let pvk = pvk_from_bytes(&pvk_bytes(1)).unwrap();
    let p = bogus_proof(1);
    let ins = inputs(2, 1);
    let mut t = new_merlin_transcript("test aggregation");
    assert_eq!(verify_aggregate_proof(&srs, &pvk, &ins, &p, &mut t), Err(Error::MalformedInput));
}

#[test]
fn non_power_of_two_batch_is_a_structural_error() {
    let srs = snarkpack::codec::decode_verifier_srs(&srs_bytes(3)).unwrap();
    let pvk = pvk_from_bytes(&pvk_bytes(1)).unwrap();
    let p = bogus_proof(1);
    let ins = inputs(3, 1);
    let mut t = new_merlin_transcript("test aggregation");
    assert_eq!(verify_aggregate_proof(&srs, &pvk, &ins, &p, &mut t), Err(Error::MalformedInput));
}

#[test]
fn wrong_input_width_is_a_structural_error() {
    // Two public inputs per proof against a key with bases for one.
    let srs = snarkpack::codec::decode_verifier_srs(&srs_bytes(2)).unwrap();
    let pvk = pvk_from_bytes(&pvk_bytes(1)).unwrap();
    let p = bogus_proof(1);
    let ins = inputs(2, 2);
    let mut t = new_merlin_transcript("test aggregation");
    assert_eq!(verify_aggregate_proof(&srs, &pvk, &ins, &p, &mut t), Err(Error::MalformedInput));
}

#[test]
fn incoherent_round_vectors_are_a_structural_error() {
    let srs = snarkpack::codec::decode_verifier_srs(&srs_bytes(2)).unwrap();
    let pvk = pvk_from_bytes(&pvk_bytes(1)).unwrap();
    let mut p = bogus_proof(1);
    p.z_c.push((g1_elem(31), g1_elem(32)));
    let ins = inputs(2, 1);
    let mut t = new_merlin_transcript("test aggregation");
    assert_eq!(verify_aggregate_proof(&srs, &pvk, &ins, &p, &mut t), Err(Error::MalformedInput));
}

#[test]
fn corrupting_one_byte_of_a_rejected_proof_still_rejects() {
    // Flipping any single byte of the serialized proof must not turn a
    // rejection into an acceptance.
    let srs_b = srs_bytes(2);
    let pvk_b = pvk_bytes(1);
    let ins = inputs(2, 1);
    let mut bytes = encode_aggregate_proof(&bogus_proof(1));
    bytes[40] ^= 0xff;
    assert!(!Verifier::verify_aggregate_proof_custom(srs_b, pvk_b, bytes, &ins));
}
