//! The structured-reference-string hierarchy.
//!
//! A universal SRS holds powers of two hidden exponents in both source
//! groups, up to a global maximum size. A prover SRS is its specialization to
//! one aggregation size `n`; a verifier SRS is six group elements plus `n`,
//! fixed-size however many proofs are aggregated.

use vstd::prelude::*;
use crate::commitment::{VKey, WKey};
use crate::curve::{Scalar, G1Elem, G2Elem, g1_eq, g2_eq};

verus! {

/// The global maximum size of a universal SRS.
pub const MAX_SRS_SIZE: usize = 1048577;

/// A universal SRS: powers of the two hidden exponents in both source
/// groups. Created once by a trusted setup and read-only thereafter.
#[derive(Clone)]
pub struct GenericSRS {
    /// Powers of the first exponent in the first source group.
    pub g_alpha_powers: Vec<G1Elem>,
    /// Powers of the first exponent in the second source group.
    pub h_alpha_powers: Vec<G2Elem>,
    /// Powers of the second exponent in the first source group.
    pub g_beta_powers: Vec<G1Elem>,
    /// Powers of the second exponent in the second source group.
    pub h_beta_powers: Vec<G2Elem>,
}

/// An SRS specialized to an aggregation size `n`: shifted power tables plus
/// one commitment-key pair of length `n`.
#[derive(Clone)]
pub struct ProverSRS {
    /// The number of proofs to aggregate.
    pub n: usize,
    /// Powers of the first exponent in the first source group, up to `2n-1`.
    pub g_alpha_powers_table: Vec<G1Elem>,
    /// Powers of the first exponent in the second source group, up to `n-1`.
    pub h_alpha_powers_table: Vec<G2Elem>,
    /// Powers of the second exponent in the first source group, up to `2n-1`.
    pub g_beta_powers_table: Vec<G1Elem>,
    /// Powers of the second exponent in the second source group, up to `n-1`.
    pub h_beta_powers_table: Vec<G2Elem>,
    /// Commitment key used in both single-sided and double-sided commitments.
    pub vkey: VKey,
    /// Commitment key used in double-sided commitments.
    pub wkey: WKey,
}

/// What a verifier stores: six group elements plus the aggregation size.
#[derive(Clone)]
pub struct VerifierSRS {
    /// The number of proofs aggregated.
    pub n: usize,
    /// The first-group generator.
    pub g: G1Elem,
    /// The second-group generator.
    pub h: G2Elem,
    /// The first-group generator raised to the first exponent.
    pub g_alpha: G1Elem,
    /// The first-group generator raised to the second exponent.
    pub g_beta: G1Elem,
    /// The second-group generator raised to the first exponent.
    pub h_alpha: G2Elem,
    /// The second-group generator raised to the second exponent.
    pub h_beta: G2Elem,
}

/// Compares two first-group vectors element for element.
fn g1_vec_eq(x: &Vec<G1Elem>, y: &Vec<G1Elem>) -> (r: bool)
    ensures
        r == (x@ == y@),
{
    if x.len() != y.len() {
        assert(x@ != y@);
        return false;
    }
    let n: usize = x.len();
    let mut i: usize = 0;
    while i < n
        invariant
            i <= n,
            n == x@.len() == y@.len(),
            forall|k: int| 0 <= k < i ==> x@[k] == y@[k],
        decreases n - i,
    {
        if !g1_eq(&x[i], &y[i]) {
            assert(x@ != y@);
            return false;
        }
        i = i + 1;
    }
    assert(x@ =~= y@);
    true
}

/// Compares two second-group vectors element for element.
fn g2_vec_eq(x: &Vec<G2Elem>, y: &Vec<G2Elem>) -> (r: bool)
    ensures
        r == (x@ == y@),
{
    if x.len() != y.len() {
        assert(x@ != y@);
        return false;
    }
    let n: usize = x.len();
    let mut i: usize = 0;
    while i < n
        invariant
            i <= n,
            n == x@.len() == y@.len(),
            forall|k: int| 0 <= k < i ==> x@[k] == y@[k],
        decreases n - i,
    {
        if !g2_eq(&x[i], &y[i]) {
            assert(x@ != y@);
            return false;
        }
        i = i + 1;
    }
    assert(x@ =~= y@);
    true
}

impl PartialEq for GenericSRS {
    fn eq(&self, other: &GenericSRS) -> (r: bool) {
        g1_vec_eq(&self.g_alpha_powers, &other.g_alpha_powers) && g1_vec_eq(
            &self.g_beta_powers,
            &other.g_beta_powers,
        ) && g2_vec_eq(&self.h_alpha_powers, &other.h_alpha_powers) && g2_vec_eq(
            &self.h_beta_powers,
            &other.h_beta_powers,
        )
    }
}

impl vstd::std_specs::cmp::PartialEqSpecImpl for GenericSRS {
    open spec fn obeys_eq_spec() -> bool {
        true
    }

    open spec fn eq_spec(&self, other: &GenericSRS) -> bool {
        self.g_alpha_powers@ == other.g_alpha_powers@ && self.g_beta_powers@
            == other.g_beta_powers@ && self.h_alpha_powers@ == other.h_alpha_powers@
            && self.h_beta_powers@ == other.h_beta_powers@
    }
}

impl PartialEq for VerifierSRS {
    fn eq(&self, other: &VerifierSRS) -> (r: bool) {
        self.n == other.n && g1_eq(&self.g, &other.g) && g2_eq(&self.h, &other.h) && g1_eq(
            &self.g_alpha,
            &other.g_alpha,
        ) && g1_eq(&self.g_beta, &other.g_beta) && g2_eq(&self.h_alpha, &other.h_alpha) && g2_eq(
            &self.h_beta,
            &other.h_beta,
        )
    }
}

impl vstd::std_specs::cmp::PartialEqSpecImpl for VerifierSRS {
    open spec fn obeys_eq_spec() -> bool {
        true
    }

    open spec fn eq_spec(&self, other: &VerifierSRS) -> bool {
        self.n == other.n && self.g == other.g && self.h == other.h && self.g_alpha
            == other.g_alpha && self.g_beta == other.g_beta && self.h_alpha == other.h_alpha
            && self.h_beta == other.h_beta
    }
}

impl ProverSRS {
    /// True iff both commitment keys have length exactly `n`: aggregation
    /// must not proceed unless this holds.
    pub fn has_correct_len(&self, n: usize) -> (r: bool)
        ensures
            r == (self.vkey.a@.len() == n && self.vkey.b@.len() == n && self.wkey.a@.len() == n
                && self.wkey.b@.len() == n),
    {
        self.vkey.has_correct_len(n) && self.wkey.has_correct_len(n)
    }
}

} // verus!
