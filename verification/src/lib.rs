//! Verification of aggregated Groth16 proofs: a pairing-based
//! inner-product argument that collapses a batch of proofs sharing one
//! verifying key into a single compact object, checked in logarithmic work.
//!
//! The crate is organized leaves-first: the trusted curve boundary
//! (`curve`, `groth16`), the commitment-key algebra and pairing commitments
//! (`commitment`), the reference-string hierarchy (`srs`), the Fiat-Shamir
//! transcript (`transcript`), the folding-polynomial evaluator (`prover`),
//! canonical byte encodings (`codec`, `aggregate`), and the verification
//! protocol itself (`protocol`).

use vstd::prelude::*;

pub mod curve;
pub mod commitment;
pub mod srs;
pub mod prover;
pub mod transcript;
pub mod codec;
pub mod groth16;
pub mod aggregate;
pub mod protocol;

use crate::curve::{Scalar, fr_val, fr_modulus, fr_one, fr_mul};

verus! {

/// Errors raised by the aggregation protocol when structural invariants
/// between keys, inputs and proofs are violated.
#[derive(Clone, Copy, Debug, PartialEq, Eq, Structural)]
pub enum Error {
    /// A commitment key or scalar vector does not have the required length.
    InvalidKeyLength,
    /// A proof or input batch is structurally incoherent with the SRS or
    /// the verifying key.
    MalformedInput,
    /// A pairing equation of the batch failed: the expected outcome for an
    /// invalid proof.
    InvalidProof,
    /// Rejection sampling exhausted its attempts without an invertible
    /// challenge.
    ChallengeFailure,
}

/// The `k`-th power of a scalar, as a canonical value.
pub open spec fn spec_pow_val(s: Scalar, k: nat) -> nat
    decreases k,
{
    if k == 0 {
        1
    } else {
        (spec_pow_val(s, (k - 1) as nat) * fr_val(s)) % fr_modulus()
    }
}

/// Returns the vector `1, s, s^2, ..., s^(num-1)` used for the random linear
/// combination of the inner pairing product: powers of the challenge, in
/// order, starting from the identity.
pub fn structured_scalar_power(num: usize, s: &Scalar) -> (r: Vec<Scalar>)
    ensures
        r@.len() == if num == 0 { 1nat } else { num as nat },
        forall|i: int| 0 <= i < r@.len() ==> fr_val(r@[i]) == spec_pow_val(*s, i as nat),
{
    let mut powers: Vec<Scalar> = Vec::new();
    powers.push(fr_one());
    let mut i: usize = 1;
    while i < num
        invariant
            1 <= i,
            num >= 1 ==> i <= num,
            num == 0 ==> i == 1,
            powers@.len() == i,
            forall|k: int| 0 <= k < i ==> fr_val(powers@[k]) == spec_pow_val(*s, k as nat),
        decreases num - i,
    {
        let next = fr_mul(&powers[i - 1], s);
        powers.push(next);
        i = i + 1;
    }
    powers
}

} // verus!
