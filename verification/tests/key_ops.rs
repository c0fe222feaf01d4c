use ark_bls12_381::{Fr, G1Affine, G2Affine};
use ark_ec::{AffineRepr, CurveGroup};
use ark_serialize::CanonicalSerialize;
use snarkpack::Error;
use snarkpack::commitment::Key;
use snarkpack::curve::{Scalar, G2Elem, fr_from_u64, g2_from_bytes, g2_to_bytes, g2_eq};

fn scalar(x: u64) -> Scalar {
    fr_from_u64(x)
}

fn g2_elem(k: u64) -> G2Elem {
    let p = (G2Affine::generator() * Fr::from(k)).into_affine();
    let mut bytes = Vec::new();
    p.serialize_compressed(&mut bytes).unwrap();
    g2_from_bytes(&bytes).unwrap()
}

fn g2_expected(k: u64) -> Vec<u8> {
    let p = (G2Affine::generator() * Fr::from(k)).into_affine();
    let mut bytes = Vec::new();
    p.serialize_compressed(&mut bytes).unwrap();
    bytes
}

fn vkey(coeffs: &[u64]) -> Key<G2Elem> {
    Key {
        a: coeffs.iter().map(|&k| g2_elem(k)).collect(),
        b: coeffs.iter().map(|&k| g2_elem(k + 100)).collect(),
    }
}

#[test]
fn scale_preserves_length() {
    let key = vkey(&[2, 3]);
    let scaled = key.scale(&vec![scalar(5), scalar(7)]).unwrap();
    assert!(scaled.has_correct_len(2));
}

#[test]
fn scale_rejects_mismatched_length() {
    let key = vkey(&[2, 3]);
    let r = key.scale(&vec![scalar(5), scalar(7), scalar(9)]);
    assert!(matches!(r, Err(Error::InvalidKeyLength)));
}

#[test]
fn scale_multiplies_each_point() {
    let key = vkey(&[2, 3]);
    let scaled = key.scale(&vec![scalar(5), scalar(7)]).unwrap();
    // (g2 * 2) * 5 == g2 * 10, and so on element-wise on both vectors.
    assert_eq!(g2_to_bytes(&scaled.a[0]), g2_expected(10));
    assert_eq!(g2_to_bytes(&scaled.a[1]), g2_expected(21));
    assert_eq!(g2_to_bytes(&scaled.b[0]), g2_expected(510));
    assert_eq!(g2_to_bytes(&scaled.b[1]), g2_expected(721));
}

#[test]
fn split_partitions_the_key() {
    let key = vkey(&[2, 3, 4, 5]);
    let (left, right) = key.split(2);
    assert!(left.has_correct_len(2));
    assert!(right.has_correct_len(2));
    assert_eq!(g2_to_bytes(&left.a[0]), g2_expected(2));
    assert_eq!(g2_to_bytes(&right.a[0]), g2_expected(4));
    assert_eq!(g2_to_bytes(&right.b[1]), g2_expected(105));
}

#[test]
fn compress_rejects_mismatched_length() {
    let left = vkey(&[2, 3]);
    let right = vkey(&[4]);
    assert!(matches!(left.compress(&right, &scalar(9)), Err(Error::InvalidKeyLength)));
}

#[test]
fn split_then_compress_is_the_fold_relation() {
    // Splitting at the midpoint and re-joining with challenge x gives
    // left[i] + x * right[i] at every index.
    let key = vkey(&[2, 3, 4, 5]);
    let (left, right) = key.split(2);
    let joined = left.compress(&right, &scalar(9)).unwrap();
    assert!(joined.has_correct_len(2));
    // a: 2 + 9*4 = 38, 3 + 9*5 = 48; b: 102 + 9*104, 103 + 9*105.
    assert_eq!(g2_to_bytes(&joined.a[0]), g2_expected(38));
    assert_eq!(g2_to_bytes(&joined.a[1]), g2_expected(48));
    assert_eq!(g2_to_bytes(&joined.b[0]), g2_expected(1038));
    assert_eq!(g2_to_bytes(&joined.b[1]), g2_expected(1048));
}

#[test]
fn repeated_fold_matches_closed_form() {
    // Folding a length-4 key down to length 1 with challenges x1 then x2
    // agrees with the direct combination of the original elements weighted
    // by products of the challenges: index i = b0 + 2*b1 gets x2^b0 * x1^b1.
    let coeffs: [u64; 4] = [2, 3, 4, 5];
    let x1: u64 = 9;
    let x2: u64 = 11;
    let key = vkey(&coeffs);
    let (l1, r1) = key.split(2);
    let once = l1.compress(&r1, &scalar(x1)).unwrap();
    let (l2, r2) = once.split(1);
    let twice = l2.compress(&r2, &scalar(x2)).unwrap();
    assert!(twice.has_correct_len(1));
    let (fa, fb) = twice.first();
    let direct_a = coeffs[0] + x2 * coeffs[1] + x1 * coeffs[2] + x1 * x2 * coeffs[3];
    let direct_b = (coeffs[0] + 100) + x2 * (coeffs[1] + 100) + x1 * (coeffs[2] + 100) + x1 * x2
        * (coeffs[3] + 100);
    assert_eq!(g2_to_bytes(&fa), g2_expected(direct_a));
    assert_eq!(g2_to_bytes(&fb), g2_expected(direct_b));
}

#[test]
fn first_returns_the_leading_pair() {
    let key = vkey(&[2, 3]);
    let (a0, b0) = key.first();
    assert!(g2_eq(&a0, &g2_elem(2)));
    assert!(g2_eq(&b0, &g2_elem(102)));
}
