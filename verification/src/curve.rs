//! Trusted boundary to the elliptic-curve and pairing arithmetic.
//!
//! The aggregation protocol works over the BLS12-381 pairing: points of the
//! two source groups, scalars of the prime field, and elements of the pairing
//! target field. The curve library's types are generic over configuration
//! parameters that Verus refuses to declare, so each value is held opaquely in
//! a private field of a library struct. The arithmetic itself is done by the
//! curve library; each operation the protocol needs is exposed as a small
//! wrapper whose contract names the operation's result, and everything built
//! on top is verified against those names.

use vstd::prelude::*;
use ark_bls12_381::{Fr, Fq12, G1Affine, G2Affine, Bls12_381};
use ark_ec::CurveGroup;
use ark_ec::pairing::Pairing;
use ark_ff::Field;
use ark_ff::One;
use ark_ff::PrimeField;
use ark_serialize::CanonicalSerialize;
use ark_serialize::CanonicalDeserialize;

verus! {

/// An element of the BLS12-381 scalar field.
#[verifier::external_body]
pub struct Scalar {
    pub(crate) inner: Fr,
}

impl Clone for Scalar {
    /// Relies on `Copy` for the underlying element: the clone is the value
    /// itself.
    #[verifier::external_body]
    fn clone(&self) -> (r: Self)
        ensures
            r == *self,
    {
        Scalar { inner: self.inner }
    }
}

impl Copy for Scalar {

}

/// An affine point of the first source group.
#[verifier::external_body]
pub struct G1Elem {
    pub(crate) inner: G1Affine,
}

impl Clone for G1Elem {
    /// Relies on `Copy` for the underlying element: the clone is the value
    /// itself.
    #[verifier::external_body]
    fn clone(&self) -> (r: Self)
        ensures
            r == *self,
    {
        G1Elem { inner: self.inner }
    }
}

impl Copy for G1Elem {

}

/// An affine point of the second source group.
#[verifier::external_body]
pub struct G2Elem {
    pub(crate) inner: G2Affine,
}

impl Clone for G2Elem {
    /// Relies on `Copy` for the underlying element: the clone is the value
    /// itself.
    #[verifier::external_body]
    fn clone(&self) -> (r: Self)
        ensures
            r == *self,
    {
        G2Elem { inner: self.inner }
    }
}

impl Copy for G2Elem {

}

/// An element of the pairing target field.
#[verifier::external_body]
pub struct GtElem {
    pub(crate) inner: Fq12,
}

impl Clone for GtElem {
    /// Relies on `Copy` for the underlying element: the clone is the value
    /// itself.
    #[verifier::external_body]
    fn clone(&self) -> (r: Self)
        ensures
            r == *self,
    {
        GtElem { inner: self.inner }
    }
}

impl Copy for GtElem {

}

// ---------------------------------------------------------------------------
// Scalar field
// ---------------------------------------------------------------------------

/// The canonical integer value of a scalar field element.
pub uninterp spec fn fr_val(x: Scalar) -> nat;

/// The order of the BLS12-381 scalar field.
pub open spec fn fr_modulus() -> nat {
    52435875175126190479447740508185965837690552500527637822603658699938581184513nat
}

/// Relies on `ark_ff::One::one` for the scalar field: the multiplicative
/// identity.
#[verifier::external_body]
pub fn fr_one() -> (r: Scalar)
    ensures
        fr_val(r) == 1,
{
    Scalar { inner: Fr::one() }
}

/// Relies on `From<u64>` for the scalar field: the canonical embedding of a
/// machine integer.
#[verifier::external_body]
pub fn fr_from_u64(x: u64) -> (r: Scalar)
    ensures
        fr_val(r) == (x as nat) % fr_modulus(),
{
    Scalar { inner: Fr::from(x) }
}

/// Relies on `core::ops::Add` for the scalar field: addition modulo the field
/// order.
#[verifier::external_body]
pub fn fr_add(a: &Scalar, b: &Scalar) -> (r: Scalar)
    ensures
        fr_val(r) == (fr_val(*a) + fr_val(*b)) % fr_modulus(),
        fr_val(r) < fr_modulus(),
{
    Scalar { inner: a.inner + b.inner }
}

/// Relies on `core::ops::Mul` for the scalar field: multiplication modulo the
/// field order.
#[verifier::external_body]
pub fn fr_mul(a: &Scalar, b: &Scalar) -> (r: Scalar)
    ensures
        fr_val(r) == (fr_val(*a) * fr_val(*b)) % fr_modulus(),
        fr_val(r) < fr_modulus(),
{
    Scalar { inner: a.inner * b.inner }
}

/// Relies on `ark_ff::Field::square` for the scalar field: squaring modulo
/// the field order.
#[verifier::external_body]
pub fn fr_square(a: &Scalar) -> (r: Scalar)
    ensures
        fr_val(r) == (fr_val(*a) * fr_val(*a)) % fr_modulus(),
        fr_val(r) < fr_modulus(),
{
    Scalar { inner: a.inner.square() }
}

/// The result of `ark_ff::Field::inverse` on a scalar.
pub uninterp spec fn fr_inv(x: Scalar) -> Option<Scalar>;

/// Relies on `ark_ff::Field::inverse` for the scalar field: `None` exactly on
/// the additive identity, and otherwise the multiplicative inverse.
#[verifier::external_body]
pub fn fr_inverse(a: &Scalar) -> (r: Option<Scalar>)
    ensures
        r == fr_inv(*a),
        r is Some <==> fr_val(*a) != 0,
        r is Some ==> (fr_val(*a) * fr_val(r->Some_0)) % fr_modulus() == 1,
        r is Some ==> fr_val(r->Some_0) < fr_modulus(),
{
    match a.inner.inverse() {
        Some(v) => Some(Scalar { inner: v }),
        None => None,
    }
}

/// The result of `ark_ff::Field::from_random_bytes` on a byte block.
pub uninterp spec fn fr_sample(bytes: Seq<u8>) -> Option<Scalar>;

/// Relies on `ark_ff::Field::from_random_bytes` for the scalar field: the
/// outcome is a function of the bytes alone.
#[verifier::external_body]
pub fn fr_from_random_bytes(bytes: &Vec<u8>) -> (r: Option<Scalar>)
    ensures
        r == fr_sample(bytes@),
        r is Some ==> fr_val(r->Some_0) < fr_modulus(),
{
    match Fr::from_random_bytes(bytes.as_slice()) {
        Some(v) => Some(Scalar { inner: v }),
        None => None,
    }
}

/// The canonical compressed encoding of a scalar.
pub uninterp spec fn fr_bytes(x: Scalar) -> Seq<u8>;

/// The result of decoding a scalar from canonical compressed bytes.
pub uninterp spec fn fr_of_bytes(bytes: Seq<u8>) -> Option<Scalar>;

/// Relies on `serialize_compressed` for the scalar field: 32 bytes, and
/// decoding them returns the element (the encoding is canonical). Writing
/// into a `Vec` cannot fail.
#[verifier::external_body]
pub fn fr_to_bytes(x: &Scalar) -> (r: Vec<u8>)
    ensures
        r@ == fr_bytes(*x),
        r@.len() == 32,
        fr_of_bytes(r@) == Some(*x),
{
    let mut out = Vec::new();
    x.inner.serialize_compressed(&mut out).expect("writing to a Vec cannot fail");
    out
}

/// Relies on `PartialEq` for the scalar field: equality of field elements.
#[verifier::external_body]
pub fn fr_eq(a: &Scalar, b: &Scalar) -> (r: bool)
    ensures
        r == (*a == *b),
{
    a.inner == b.inner
}

// ---------------------------------------------------------------------------
// The two source groups
// ---------------------------------------------------------------------------

/// The result of scalar multiplication in the first source group.
pub uninterp spec fn g1_mul(p: G1Elem, s: Scalar) -> G1Elem;

/// The result of point addition in the first source group.
pub uninterp spec fn g1_add(p: G1Elem, q: G1Elem) -> G1Elem;

/// Relies on scalar multiplication (`Mul` for affine points, then
/// normalization to affine form).
#[verifier::external_body]
pub fn g1_scale_point(p: &G1Elem, s: &Scalar) -> (r: G1Elem)
    ensures
        r == g1_mul(*p, *s),
{
    G1Elem { inner: (p.inner * s.inner).into_affine() }
}

/// Relies on scalar multiplication and group addition in the first source
/// group: returns `l + s * rt`.
#[verifier::external_body]
pub fn g1_fold_point(l: &G1Elem, rt: &G1Elem, s: &Scalar) -> (r: G1Elem)
    ensures
        r == g1_add(*l, g1_mul(*rt, *s)),
{
    let mut acc = rt.inner * s.inner;
    acc += l.inner;
    G1Elem { inner: acc.into_affine() }
}

/// Relies on `PartialEq` for affine points: equality of group elements.
#[verifier::external_body]
pub fn g1_eq(a: &G1Elem, b: &G1Elem) -> (r: bool)
    ensures
        r == (*a == *b),
{
    a.inner == b.inner
}

/// The canonical compressed encoding of a point of the first source group.
pub uninterp spec fn g1_bytes(p: G1Elem) -> Seq<u8>;

/// The result of decoding such a point from canonical compressed bytes
/// (with curve and subgroup checks).
pub uninterp spec fn g1_of_bytes(bytes: Seq<u8>) -> Option<G1Elem>;

/// Relies on `serialize_compressed` for affine points of the first source
/// group: 48 bytes, and decoding them returns the point.
#[verifier::external_body]
pub fn g1_to_bytes(p: &G1Elem) -> (r: Vec<u8>)
    ensures
        r@ == g1_bytes(*p),
        r@.len() == 48,
        g1_of_bytes(r@) == Some(*p),
{
    let mut out = Vec::new();
    p.inner.serialize_compressed(&mut out).expect("writing to a Vec cannot fail");
    out
}

/// Relies on `deserialize_compressed` for affine points of the first source
/// group: the outcome is a function of the bytes alone.
#[verifier::external_body]
pub fn g1_from_bytes(bytes: &Vec<u8>) -> (r: Option<G1Elem>)
    ensures
        r == g1_of_bytes(bytes@),
{
    match G1Affine::deserialize_compressed(bytes.as_slice()) {
        Ok(v) => Some(G1Elem { inner: v }),
        Err(_) => None,
    }
}

/// The result of scalar multiplication in the second source group.
pub uninterp spec fn g2_mul(p: G2Elem, s: Scalar) -> G2Elem;

/// The result of point addition in the second source group.
pub uninterp spec fn g2_add(p: G2Elem, q: G2Elem) -> G2Elem;

/// Relies on scalar multiplication (`Mul` for affine points, then
/// normalization to affine form).
#[verifier::external_body]
pub fn g2_scale_point(p: &G2Elem, s: &Scalar) -> (r: G2Elem)
    ensures
        r == g2_mul(*p, *s),
{
    G2Elem { inner: (p.inner * s.inner).into_affine() }
}

/// Relies on scalar multiplication and group addition in the second source
/// group: returns `l + s * rt`.
#[verifier::external_body]
pub fn g2_fold_point(l: &G2Elem, rt: &G2Elem, s: &Scalar) -> (r: G2Elem)
    ensures
        r == g2_add(*l, g2_mul(*rt, *s)),
{
    let mut acc = rt.inner * s.inner;
    acc += l.inner;
    G2Elem { inner: acc.into_affine() }
}

/// Relies on `PartialEq` for affine points: equality of group elements.
#[verifier::external_body]
pub fn g2_eq(a: &G2Elem, b: &G2Elem) -> (r: bool)
    ensures
        r == (*a == *b),
{
    a.inner == b.inner
}

/// The canonical compressed encoding of a point of the second source group.
pub uninterp spec fn g2_bytes(p: G2Elem) -> Seq<u8>;

/// The result of decoding such a point from canonical compressed bytes
/// (with curve and subgroup checks).
pub uninterp spec fn g2_of_bytes(bytes: Seq<u8>) -> Option<G2Elem>;

/// Relies on `serialize_compressed` for affine points of the second source
/// group: 96 bytes, and decoding them returns the point.
#[verifier::external_body]
pub fn g2_to_bytes(p: &G2Elem) -> (r: Vec<u8>)
    ensures
        r@ == g2_bytes(*p),
        r@.len() == 96,
        g2_of_bytes(r@) == Some(*p),
{
    let mut out = Vec::new();
    p.inner.serialize_compressed(&mut out).expect("writing to a Vec cannot fail");
    out
}

/// Relies on `deserialize_compressed` for affine points of the second source
/// group: the outcome is a function of the bytes alone.
#[verifier::external_body]
pub fn g2_from_bytes(bytes: &Vec<u8>) -> (r: Option<G2Elem>)
    ensures
        r == g2_of_bytes(bytes@),
{
    match G2Affine::deserialize_compressed(bytes.as_slice()) {
        Ok(v) => Some(G2Elem { inner: v }),
        Err(_) => None,
    }
}

// ---------------------------------------------------------------------------
// The pairing and its target field
// ---------------------------------------------------------------------------

/// The result of the bilinear pairing on a pair of source-group points.
pub uninterp spec fn pairing_of(a: G1Elem, b: G2Elem) -> GtElem;

/// Relies on `ark_ec::pairing::Pairing::pairing` for BLS12-381.
#[verifier::external_body]
pub fn compute_pairing(a: &G1Elem, b: &G2Elem) -> (r: GtElem)
    ensures
        r == pairing_of(*a, *b),
{
    GtElem { inner: Bls12_381::pairing(a.inner, b.inner).0 }
}

/// The result of multiplication in the pairing target field.
pub uninterp spec fn gt_mul(a: GtElem, b: GtElem) -> GtElem;

/// Relies on `core::ops::Mul` for the target field.
#[verifier::external_body]
pub fn fq12_mul(a: &GtElem, b: &GtElem) -> (r: GtElem)
    ensures
        r == gt_mul(*a, *b),
{
    GtElem { inner: a.inner * b.inner }
}

/// The result of exponentiation of a target-field element by a scalar.
pub uninterp spec fn gt_pow(base: GtElem, e: Scalar) -> GtElem;

/// Relies on `ark_ff::Field::pow` with the scalar's canonical integer
/// representation as the exponent.
#[verifier::external_body]
pub fn fq12_pow(base: &GtElem, e: &Scalar) -> (r: GtElem)
    ensures
        r == gt_pow(*base, *e),
{
    GtElem { inner: base.inner.pow(e.inner.into_bigint()) }
}

/// Relies on `PartialEq` for the target field: equality of field elements.
#[verifier::external_body]
pub fn fq12_eq(a: &GtElem, b: &GtElem) -> (r: bool)
    ensures
        r == (*a == *b),
{
    a.inner == b.inner
}

/// The canonical compressed encoding of a target-field element.
pub uninterp spec fn gt_bytes(x: GtElem) -> Seq<u8>;

/// The result of decoding a target-field element from canonical bytes.
pub uninterp spec fn gt_of_bytes(bytes: Seq<u8>) -> Option<GtElem>;

/// Relies on `serialize_compressed` for the target field: 576 bytes, and
/// decoding them returns the element.
#[verifier::external_body]
pub fn gt_to_bytes(x: &GtElem) -> (r: Vec<u8>)
    ensures
        r@ == gt_bytes(*x),
        r@.len() == 576,
        gt_of_bytes(r@) == Some(*x),
{
    let mut out = Vec::new();
    x.inner.serialize_compressed(&mut out).expect("writing to a Vec cannot fail");
    out
}

/// Relies on `deserialize_compressed` for the target field: the outcome is a
/// function of the bytes alone.
#[verifier::external_body]
pub fn gt_from_bytes(bytes: &Vec<u8>) -> (r: Option<GtElem>)
    ensures
        r == gt_of_bytes(bytes@),
{
    match Fq12::deserialize_compressed(bytes.as_slice()) {
        Ok(v) => Some(GtElem { inner: v }),
        Err(_) => None,
    }
}

impl PartialEq for Scalar {
    fn eq(&self, other: &Scalar) -> (r: bool) {
        fr_eq(self, other)
    }
}

impl vstd::std_specs::cmp::PartialEqSpecImpl for Scalar {
    open spec fn obeys_eq_spec() -> bool {
        true
    }

    open spec fn eq_spec(&self, other: &Scalar) -> bool {
        *self == *other
    }
}

impl PartialEq for G1Elem {
    fn eq(&self, other: &G1Elem) -> (r: bool) {
        g1_eq(self, other)
    }
}

impl vstd::std_specs::cmp::PartialEqSpecImpl for G1Elem {
    open spec fn obeys_eq_spec() -> bool {
        true
    }

    open spec fn eq_spec(&self, other: &G1Elem) -> bool {
        *self == *other
    }
}

impl PartialEq for G2Elem {
    fn eq(&self, other: &G2Elem) -> (r: bool) {
        g2_eq(self, other)
    }
}

impl vstd::std_specs::cmp::PartialEqSpecImpl for G2Elem {
    open spec fn obeys_eq_spec() -> bool {
        true
    }

    open spec fn eq_spec(&self, other: &G2Elem) -> bool {
        *self == *other
    }
}

impl PartialEq for GtElem {
    fn eq(&self, other: &GtElem) -> (r: bool) {
        fq12_eq(self, other)
    }
}

impl vstd::std_specs::cmp::PartialEqSpecImpl for GtElem {
    open spec fn obeys_eq_spec() -> bool {
        true
    }

    open spec fn eq_spec(&self, other: &GtElem) -> bool {
        *self == *other
    }
}

} // verus!
