use ark_bls12_381::{Bls12_381, Fr, G1Affine, G2Affine};
use ark_ec::AffineRepr;
use ark_ec::CurveGroup;
use ark_ec::pairing::Pairing;
use ark_serialize::CanonicalSerialize;
use snarkpack::commitment::Output;
use snarkpack::srs::VerifierSRS;
use snarkpack::aggregate::{AggregateProof, encode_aggregate_proof, decode_aggregate_proof};
use snarkpack::codec::{
    encode_output, decode_output, encode_verifier_srs, decode_verifier_srs, encode_scalar_vec,
    encode_vkey, decode_vkey, encode_wkey, decode_wkey,
};
use snarkpack::commitment::Key;
use snarkpack::curve::{
    G1Elem, G2Elem, GtElem, fr_from_u64, g1_from_bytes, g2_from_bytes, g1_eq, g2_eq, fq12_eq,
};

fn g1_elem(k: u64) -> G1Elem {
    let p = (G1Affine::generator() * Fr::from(k)).into_affine();
    let mut bytes = Vec::new();
    p.serialize_compressed(&mut bytes).unwrap();
    g1_from_bytes(&bytes).unwrap()
}

fn g2_elem(k: u64) -> G2Elem {
    let p = (G2Affine::generator() * Fr::from(k)).into_affine();
    let mut bytes = Vec::new();
    p.serialize_compressed(&mut bytes).unwrap();
    g2_from_bytes(&bytes).unwrap()
}

fn gt_elem(k: u64) -> GtElem {
    let x = Bls12_381::pairing(
        (G1Affine::generator() * Fr::from(k)).into_affine(),
        G2Affine::generator(),
    ).0;
    let mut bytes = Vec::new();
    x.serialize_compressed(&mut bytes).unwrap();
    snarkpack::curve::gt_from_bytes(&bytes).unwrap()
}

fn sample_srs() -> VerifierSRS {
    VerifierSRS {
        n: 4,
        g: g1_elem(1),
        h: g2_elem(1),
        g_alpha: g1_elem(11),
        g_beta: g1_elem(13),
        h_alpha: g2_elem(17),
        h_beta: g2_elem(19),
    }
}

fn sample_proof() -> AggregateProof {
    AggregateProof {
        com_ab: Output(gt_elem(2), gt_elem(3)),
        com_c: Output(gt_elem(4), gt_elem(5)),
        ip_ab: gt_elem(6),
        agg_c: g1_elem(7),
        comms_ab: vec![(Output(gt_elem(8), gt_elem(9)), Output(gt_elem(10), gt_elem(11)))],
        comms_c: vec![(Output(gt_elem(12), gt_elem(13)), Output(gt_elem(14), gt_elem(15)))],
        z_ab: vec![(gt_elem(16), gt_elem(17))],
        z_c: vec![(g1_elem(18), g1_elem(19))],
        final_a: g1_elem(20),
        final_b: g2_elem(21),
        final_c: g1_elem(22),
        final_vkey: (g2_elem(23), g2_elem(24)),
        final_wkey: (g1_elem(25), g1_elem(26)),
        vkey_opening: (g2_elem(27), g2_elem(28)),
        wkey_opening: (g1_elem(29), g1_elem(30)),
    }
}

#[test]
fn output_round_trips() {
    let o = Output(gt_elem(2), gt_elem(3));
    let bytes = encode_output(&o);
    assert_eq!(bytes.len(), 1152);
    let back = decode_output(&bytes).unwrap();
    assert!(back == o);
}

#[test]
fn output_rejects_wrong_length() {
    let o = Output(gt_elem(2), gt_elem(3));
    let mut bytes = encode_output(&o);
    bytes.pop();
    assert!(decode_output(&bytes).is_none());
}

#[test]
fn verifier_srs_round_trips() {
    let srs = sample_srs();
    let bytes = encode_verifier_srs(&srs);
    assert_eq!(bytes.len(), 440);
    let back = decode_verifier_srs(&bytes).unwrap();
    assert_eq!(back.n, 4);
    assert!(back == srs);
}

#[test]
fn verifier_srs_rejects_truncated_bytes() {
    let srs = sample_srs();
    let mut bytes = encode_verifier_srs(&srs);
    bytes.truncate(100);
    assert!(decode_verifier_srs(&bytes).is_none());
    assert!(decode_verifier_srs(&Vec::new()).is_none());
}

#[test]
fn aggregate_proof_round_trips() {
    let p = sample_proof();
    let bytes = encode_aggregate_proof(&p);
    assert_eq!(bytes.len(), 3704 + 5856);
    let back = decode_aggregate_proof(&bytes).unwrap();
    assert!(back.com_ab == p.com_ab);
    assert!(back.com_c == p.com_c);
    assert!(fq12_eq(&back.ip_ab, &p.ip_ab));
    assert!(g1_eq(&back.agg_c, &p.agg_c));
    assert_eq!(back.comms_ab.len(), 1);
    assert!(back.comms_ab[0].0 == p.comms_ab[0].0);
    assert!(back.comms_ab[0].1 == p.comms_ab[0].1);
    assert!(back.comms_c[0].0 == p.comms_c[0].0);
    assert!(fq12_eq(&back.z_ab[0].0, &p.z_ab[0].0));
    assert!(g1_eq(&back.z_c[0].1, &p.z_c[0].1));
    assert!(g1_eq(&back.final_a, &p.final_a));
    assert!(g2_eq(&back.final_b, &p.final_b));
    assert!(g1_eq(&back.final_c, &p.final_c));
    assert!(g2_eq(&back.final_vkey.0, &p.final_vkey.0));
    assert!(g1_eq(&back.final_wkey.1, &p.final_wkey.1));
    assert!(g2_eq(&back.vkey_opening.1, &p.vkey_opening.1));
    assert!(g1_eq(&back.wkey_opening.0, &p.wkey_opening.0));
}

#[test]
fn aggregate_proof_rejects_truncation_and_corrupt_counts() {
    let p = sample_proof();
    let mut bytes = encode_aggregate_proof(&p);
    bytes.truncate(bytes.len() - 1);
    assert!(decode_aggregate_proof(&bytes).is_none());
    assert!(decode_aggregate_proof(&Vec::new()).is_none());
    // A round count that disagrees with the byte length is rejected.
    let mut bad = encode_aggregate_proof(&p);
    bad[2928] = 2;
    assert!(decode_aggregate_proof(&bad).is_none());
}

#[test]
fn scalar_vec_encoding_matches_the_canonical_form() {
    // The verified framing agrees byte for byte with the curve library's
    // canonical encoding of a scalar vector.
    let v = vec![fr_from_u64(7), fr_from_u64(8)];
    let got = encode_scalar_vec(&v);
    let ark_v = vec![Fr::from(7u64), Fr::from(8u64)];
    let mut expected = Vec::new();
    ark_v.serialize_compressed(&mut expected).unwrap();
    assert_eq!(got, expected);
}

#[test]
fn commitment_keys_round_trip() {
    let vkey: Key<G2Elem> = Key { a: vec![g2_elem(5), g2_elem(6)], b: vec![g2_elem(7), g2_elem(8)] };
    let bytes = encode_vkey(&vkey);
    assert_eq!(bytes.len(), 16 + 4 * 96);
    let back = decode_vkey(&bytes).unwrap();
    assert!(g2_eq(&back.a[0], &vkey.a[0]));
    assert!(g2_eq(&back.a[1], &vkey.a[1]));
    assert!(g2_eq(&back.b[0], &vkey.b[0]));
    assert!(g2_eq(&back.b[1], &vkey.b[1]));

    let wkey: Key<G1Elem> = Key { a: vec![g1_elem(5)], b: vec![g1_elem(7)] };
    let wbytes = encode_wkey(&wkey);
    assert_eq!(wbytes.len(), 16 + 2 * 48);
    let wback = decode_wkey(&wbytes).unwrap();
    assert!(g1_eq(&wback.a[0], &wkey.a[0]));
    assert!(g1_eq(&wback.b[0], &wkey.b[0]));
}

#[test]
fn commitment_key_decode_rejects_malformed_input() {
    let vkey: Key<G2Elem> = Key { a: vec![g2_elem(5)], b: vec![g2_elem(7)] };
    let mut bytes = encode_vkey(&vkey);
    bytes.pop();
    assert!(decode_vkey(&bytes).is_none());
    assert!(decode_vkey(&Vec::new()).is_none());
    // Unequal vector lengths are rejected: a key's two vectors always have
    // the same length.
    let mut bad = encode_vkey(&vkey);
    bad[0] = 2;
    assert!(decode_vkey(&bad).is_none());
}
