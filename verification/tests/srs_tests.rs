use ark_bls12_381::{Fr, G1Affine, G2Affine};
use ark_ec::AffineRepr;
use ark_ec::CurveGroup;
use ark_serialize::CanonicalSerialize;
use snarkpack::commitment::Key;
use snarkpack::srs::{GenericSRS, ProverSRS, VerifierSRS, MAX_SRS_SIZE};
use snarkpack::curve::{G1Elem, G2Elem, g1_from_bytes, g2_from_bytes};

fn g1_elem(k: u64) -> G1Elem {
    let p = (G1Affine::generator() * Fr::from(k)).into_affine();
    let mut bytes = Vec::new();
    p.serialize_compressed(&mut bytes).unwrap();
    g1_from_bytes(&bytes).unwrap()
}

fn g2_elem(k: u64) -> G2Elem {
    let p = (G2Affine::generator() * Fr::from(k)).into_affine();
    let mut bytes = Vec::new();
    p.serialize_compressed(&mut bytes).unwrap();
    g2_from_bytes(&bytes).unwrap()
}

fn generic(ks: &[u64]) -> GenericSRS {
    GenericSRS {
        g_alpha_powers: ks.iter().map(|&k| g1_elem(k)).collect(),
        h_alpha_powers: ks.iter().map(|&k| g2_elem(k)).collect(),
        g_beta_powers: ks.iter().map(|&k| g1_elem(k + 1)).collect(),
        h_beta_powers: ks.iter().map(|&k| g2_elem(k + 1)).collect(),
    }
}

fn sample_verifier_srs(n: usize, shift: u64) -> VerifierSRS {
    VerifierSRS {
        n,
        g: g1_elem(1),
        h: g2_elem(1),
        g_alpha: g1_elem(11 + shift),
        g_beta: g1_elem(13),
        h_alpha: g2_elem(17),
        h_beta: g2_elem(19),
    }
}

#[test]
fn generic_srs_equality_is_field_for_field() {
    assert!(generic(&[2, 3]) == generic(&[2, 3]));
    assert!(generic(&[2, 3]) != generic(&[2, 4]));
    assert!(generic(&[2, 3]) != generic(&[2, 3, 4]));
}

#[test]
fn verifier_srs_equality_compares_all_fields() {
    assert!(sample_verifier_srs(4, 0) == sample_verifier_srs(4, 0));
    assert!(sample_verifier_srs(4, 0) != sample_verifier_srs(4, 5));
    // Equal group elements but a different aggregation size: not equal.
    assert!(sample_verifier_srs(4, 0) != sample_verifier_srs(8, 0));
}

#[test]
fn prover_srs_gates_on_key_lengths() {
    let srs = ProverSRS {
        n: 2,
        g_alpha_powers_table: vec![g1_elem(2); 4],
        h_alpha_powers_table: vec![g2_elem(2); 2],
        g_beta_powers_table: vec![g1_elem(3); 4],
        h_beta_powers_table: vec![g2_elem(3); 2],
        vkey: Key { a: vec![g2_elem(5), g2_elem(6)], b: vec![g2_elem(7), g2_elem(8)] },
        wkey: Key { a: vec![g1_elem(5), g1_elem(6)], b: vec![g1_elem(7), g1_elem(8)] },
    };
    assert!(srs.has_correct_len(2));
    assert!(!srs.has_correct_len(3));
}

#[test]
fn max_srs_size_is_fixed() {
    assert_eq!(MAX_SRS_SIZE, (2 << 19) + 1);
}
