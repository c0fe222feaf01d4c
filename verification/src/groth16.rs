//! Trusted boundary to the Groth16 prepared verifying key.
//!
//! The prepared verifying key is a black box consumed by the aggregation
//! check: the verifier only reads its precomputed pairing of the two setup
//! points, its two second-group elements, and its public-input commitment
//! bases. Each projection is named, so the aggregate equation can be stated
//! over them.

use vstd::prelude::*;
use ark_bls12_381::Bls12_381;
use ark_serialize::CanonicalDeserialize;
use crate::curve::{G1Elem, G2Elem, GtElem};

verus! {

/// A Groth16 prepared verifying key, held opaquely.
#[verifier::external_body]
pub struct PreparedKey {
    inner: ark_groth16::PreparedVerifyingKey<Bls12_381>,
}

/// The result of decoding a prepared verifying key from canonical bytes.
pub uninterp spec fn pvk_of_bytes(b: Seq<u8>) -> Option<PreparedKey>;

/// Relies on `deserialize_compressed` for `PreparedVerifyingKey`: the
/// outcome is a function of the bytes alone.
#[verifier::external_body]
pub fn pvk_from_bytes(bytes: &Vec<u8>) -> (r: Option<PreparedKey>)
    ensures
        r == pvk_of_bytes(bytes@),
{
    match ark_groth16::PreparedVerifyingKey::deserialize_compressed(bytes.as_slice()) {
        Ok(v) => Some(PreparedKey { inner: v }),
        Err(_) => None,
    }
}

/// The precomputed pairing of the two setup points of the key.
pub uninterp spec fn pvk_alpha_beta(k: PreparedKey) -> GtElem;

/// Relies on the `alpha_g1_beta_g2` field of `PreparedVerifyingKey`: the
/// pairing of the key's two setup points.
#[verifier::external_body]
pub fn pvk_alpha_g1_beta_g2(k: &PreparedKey) -> (r: GtElem)
    ensures
        r == pvk_alpha_beta(*k),
{
    GtElem { inner: k.inner.alpha_g1_beta_g2 }
}

/// The key's second-group element binding public inputs.
pub uninterp spec fn pvk_gamma(k: PreparedKey) -> G2Elem;

/// Relies on the `vk.gamma_g2` field of `PreparedVerifyingKey`.
#[verifier::external_body]
pub fn pvk_gamma_g2(k: &PreparedKey) -> (r: G2Elem)
    ensures
        r == pvk_gamma(*k),
{
    G2Elem { inner: k.inner.vk.gamma_g2 }
}

/// The key's second-group element binding the proof's third component.
pub uninterp spec fn pvk_delta(k: PreparedKey) -> G2Elem;

/// Relies on the `vk.delta_g2` field of `PreparedVerifyingKey`.
#[verifier::external_body]
pub fn pvk_delta_g2(k: &PreparedKey) -> (r: G2Elem)
    ensures
        r == pvk_delta(*k),
{
    G2Elem { inner: k.inner.vk.delta_g2 }
}

/// The key's public-input commitment bases, in order.
pub uninterp spec fn pvk_gamma_abc(k: PreparedKey) -> Seq<G1Elem>;

/// Relies on the `vk.gamma_abc_g1` field of `PreparedVerifyingKey`: one base
/// per public input, after the constant base.
#[verifier::external_body]
pub fn pvk_gamma_abc_g1(k: &PreparedKey) -> (r: Vec<G1Elem>)
    ensures
        r@ == pvk_gamma_abc(*k),
{
    k.inner.vk.gamma_abc_g1.iter().map(|p| G1Elem { inner: *p }).collect()
}

} // verus!
