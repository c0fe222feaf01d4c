use ark_bls12_381::{Bls12_381, Fr, G1Affine, G2Affine};
use ark_ec::AffineRepr;
use ark_ec::CurveGroup;
use ark_ec::pairing::Pairing;
use ark_serialize::CanonicalSerialize;
use snarkpack::commitment::{Key, Output, single_g1, pair, ip_pairing};
use snarkpack::curve::{G1Elem, G2Elem, g1_from_bytes, g2_from_bytes, gt_to_bytes};

fn g1_elem(k: u64) -> G1Elem {
    let p = (G1Affine::generator() * Fr::from(k)).into_affine();
    let mut bytes = Vec::new();
    p.serialize_compressed(&mut bytes).unwrap();
    g1_from_bytes(&bytes).unwrap()
}

fn g2_elem(k: u64) -> G2Elem {
    let p = (G2Affine::generator() * Fr::from(k)).into_affine();
    let mut bytes = Vec::new();
    p.serialize_compressed(&mut bytes).unwrap();
    g2_from_bytes(&bytes).unwrap()
}

fn ark_g1(k: u64) -> G1Affine {
    (G1Affine::generator() * Fr::from(k)).into_affine()
}

fn ark_g2(k: u64) -> G2Affine {
    (G2Affine::generator() * Fr::from(k)).into_affine()
}

fn gt_bytes_of(x: ark_bls12_381::Fq12) -> Vec<u8> {
    let mut bytes = Vec::new();
    x.serialize_compressed(&mut bytes).unwrap();
    bytes
}

#[test]
fn inner_pairing_product_multiplies_pairings() {
    let a = vec![g1_elem(2), g1_elem(3)];
    let b = vec![g2_elem(5), g2_elem(7)];
    let got = ip_pairing(&a, &b);
    let expected = Bls12_381::pairing(ark_g1(2), ark_g2(5)).0 * Bls12_381::pairing(
        ark_g1(3),
        ark_g2(7),
    ).0;
    assert_eq!(gt_to_bytes(&got), gt_bytes_of(expected));
}

#[test]
fn single_g1_commits_against_both_key_vectors() {
    let vkey: Key<G2Elem> = Key { a: vec![g2_elem(5), g2_elem(6)], b: vec![g2_elem(7), g2_elem(8)] };
    let a_vec = vec![g1_elem(2), g1_elem(3)];
    let out = single_g1(&vkey, &a_vec).unwrap();
    let t = Bls12_381::pairing(ark_g1(2), ark_g2(5)).0 * Bls12_381::pairing(ark_g1(3), ark_g2(6)).0;
    let u = Bls12_381::pairing(ark_g1(2), ark_g2(7)).0 * Bls12_381::pairing(ark_g1(3), ark_g2(8)).0;
    assert_eq!(gt_to_bytes(&out.0), gt_bytes_of(t));
    assert_eq!(gt_to_bytes(&out.1), gt_bytes_of(u));
}

#[test]
fn pair_combines_four_inner_products() {
    let vkey: Key<G2Elem> = Key { a: vec![g2_elem(5)], b: vec![g2_elem(6)] };
    let wkey: Key<G1Elem> = Key { a: vec![g1_elem(7)], b: vec![g1_elem(8)] };
    let a = vec![g1_elem(2)];
    let b = vec![g2_elem(3)];
    let out = pair(&vkey, &wkey, &a, &b).unwrap();
    let t = Bls12_381::pairing(ark_g1(2), ark_g2(5)).0 * Bls12_381::pairing(ark_g1(7), ark_g2(3)).0;
    let u = Bls12_381::pairing(ark_g1(2), ark_g2(6)).0 * Bls12_381::pairing(ark_g1(8), ark_g2(3)).0;
    assert_eq!(gt_to_bytes(&out.0), gt_bytes_of(t));
    assert_eq!(gt_to_bytes(&out.1), gt_bytes_of(u));
}

#[test]
fn outputs_compare_by_components() {
    let x = ip_pairing(&vec![g1_elem(2)], &vec![g2_elem(3)]);
    let y = ip_pairing(&vec![g1_elem(3)], &vec![g2_elem(2)]);
    let z = ip_pairing(&vec![g1_elem(2)], &vec![g2_elem(5)]);
    // e(2g, 3h) == e(3g, 2h) by bilinearity, but differs from e(2g, 5h).
    assert!(Output(x, x) == Output(y, y));
    assert!(Output(x, x) != Output(x, z));
}
