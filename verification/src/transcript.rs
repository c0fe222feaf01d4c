//! The Fiat-Shamir transcript.
//!
//! A transcript is an append-only random-oracle state: it is seeded under a
//! label, fed labelled messages, and yields challenge scalars. The oracle
//! itself is merlin; every step is a function of the previous state and the
//! arguments, which is what makes prover and verifier derive the same
//! challenges when they feed the same data in the same order.
//!
//! A challenge scalar is drawn by rejection sampling: a 64-byte block is
//! drawn, interpreted as a field element, and accepted only if the element
//! has a multiplicative inverse; otherwise one byte of the block is
//! perturbed with an incrementing counter and a fresh block is drawn. Each
//! draw advances the oracle state, so the retries cannot cycle. The retry
//! loop is bounded; a cryptographically uniform source is accepted within
//! the first few attempts with overwhelming probability.

use vstd::prelude::*;
use crate::curve::{
    Scalar, fr_val, fr_modulus, fr_inv, fr_sample, fr_inverse, fr_from_random_bytes,
};

verus! {

/// The number of draws after which rejection sampling gives up.
pub const CHALLENGE_ATTEMPTS: usize = 256;

/// A domain-separated protocol transcript over a merlin random-oracle state.
#[verifier::external_body]
pub struct Transcript {
    inner: merlin::Transcript,
}

/// The state of a fresh transcript created under a label.
pub uninterp spec fn merlin_new(label: Seq<char>) -> Transcript;

/// The state after appending a labelled message.
pub uninterp spec fn merlin_append(t: Transcript, label: Seq<char>, msg: Seq<u8>) -> Transcript;

/// The 64-byte block drawn under a label, and the state after drawing it.
pub uninterp spec fn merlin_challenge(t: Transcript, label: Seq<char>) -> (Seq<u8>, Transcript);

/// Relies on `merlin::Transcript::new`: the fresh state is a function of the
/// label alone. The constructor appends the label as its first message,
/// which merlin length-prefixes with a 32-bit length and refuses beyond it;
/// a character encodes to at most four bytes, so the bound on characters
/// keeps the byte length inside what the source supports.
#[verifier::external_body]
pub fn new_merlin_transcript(label: &'static str) -> (r: Transcript)
    requires
        label@.len() < 1073741824,
    ensures
        r == merlin_new(label@),
{
    Transcript { inner: merlin::Transcript::new(label.as_bytes()) }
}

/// Relies on `merlin::Transcript::append_message`: the new state is a
/// function of the old state, the label and the message. merlin
/// length-prefixes the message with a 32-bit length and refuses longer
/// ones, so the bound keeps the call inside what the source supports.
#[verifier::external_body]
fn append_message(t: &mut Transcript, label: &'static str, msg: &Vec<u8>)
    requires
        msg@.len() < 4294967296,
    ensures
        *final(t) == merlin_append(*old(t), label@, msg@),
{
    t.inner.append_message(label.as_bytes(), msg.as_slice())
}

/// Relies on `merlin::Transcript::challenge_bytes`: the bytes written into
/// the 64-byte buffer and the new state are functions of the old state and
/// the label alone (the buffer's previous contents are replaced).
#[verifier::external_body]
fn challenge_bytes_64(t: &mut Transcript, label: &'static str, buf: &mut Vec<u8>)
    requires
        old(buf)@.len() == 64,
    ensures
        final(buf)@ == merlin_challenge(*old(t), label@).0,
        *final(t) == merlin_challenge(*old(t), label@).1,
        final(buf)@.len() == 64,
{
    t.inner.challenge_bytes(label.as_bytes(), buf.as_mut_slice())
}

/// The label under which the protocol's domain separator is appended.
pub open spec fn domain_sep_label() -> Seq<char> {
    seq!['d', 'o', 'm', '-', 's', 'e', 'p']
}

/// The domain separator identifying this protocol.
pub open spec fn domain_sep_message() -> Seq<u8> {
    // "groth16-aggregation-snarkpack"
    seq![
        103u8, 114u8, 111u8, 116u8, 104u8, 49u8, 54u8, 45u8, 97u8, 103u8, 103u8, 114u8, 101u8,
        103u8, 97u8, 116u8, 105u8, 111u8, 110u8, 45u8, 115u8, 110u8, 97u8, 114u8, 107u8, 112u8,
        97u8, 99u8, 107u8,
    ]
}

/// The transcript state after `n` draws under `label`, starting from `t`.
pub open spec fn nth_state(t: Transcript, label: Seq<char>, n: nat) -> Transcript
    decreases n,
{
    if n == 0 {
        t
    } else {
        merlin_challenge(nth_state(t, label, (n - 1) as nat), label).1
    }
}

/// The byte block of draw number `n` (counting from 0).
pub open spec fn nth_draw(t: Transcript, label: Seq<char>, n: nat) -> Seq<u8> {
    merlin_challenge(nth_state(t, label, n), label).0
}

/// Whether draw `n` yields a scalar with a multiplicative inverse.
pub open spec fn draw_accepted(t: Transcript, label: Seq<char>, n: nat) -> bool {
    match fr_sample(nth_draw(t, label, n)) {
        Some(e) => fr_inv(e) is Some,
        None => false,
    }
}

/// The scalar of draw `n`.
pub open spec fn draw_scalar(t: Transcript, label: Seq<char>, n: nat) -> Scalar
    recommends
        draw_accepted(t, label, n),
{
    fr_sample(nth_draw(t, label, n))->Some_0
}

/// Draw `n` is the first accepted one.
pub open spec fn first_accepted_at(t: Transcript, label: Seq<char>, n: nat) -> bool {
    draw_accepted(t, label, n) && (forall|m: nat| m < n ==> !#[trigger] draw_accepted(
        t,
        label,
        m,
    ))
}

impl Transcript {
    /// Appends the fixed label identifying this protocol. Must be called
    /// once at the start of any transcript shared between prover and
    /// verifier.
    ///
    /// Relies on `merlin::Transcript::append_message`, and on the byte
    /// literals handed to it spelling the label and separator stated in the
    /// contract.
    #[verifier::external_body]
    pub fn domain_sep(&mut self)
        ensures
            *final(self) == merlin_append(*old(self), domain_sep_label(), domain_sep_message()),
    {
        self.inner.append_message(b"dom-sep", b"groth16-aggregation-snarkpack")
    }

    /// Folds a canonically-encoded value into the transcript under a label.
    /// Every append site must use the same label, with the same encoding, on
    /// both prover and verifier sides, in the same order; otherwise derived
    /// challenges diverge and verification fails by design. The oracle
    /// length-prefixes each message with a 32-bit length, which bounds what
    /// one append can carry.
    pub fn append(&mut self, label: &'static str, bytes: &Vec<u8>)
        requires
            bytes@.len() < 4294967296,
        ensures
            *final(self) == merlin_append(*old(self), label@, bytes@),
    {
        append_message(self, label, bytes)
    }

    /// Draws a challenge scalar under a label by rejection sampling: draw a
    /// 64-byte block, interpret it as a field element, and accept it if it
    /// has an inverse; otherwise perturb one byte of the block with an
    /// incrementing counter, draw a fresh block (which replaces the
    /// perturbed one and advances the oracle state) and retry, a bounded
    /// number of times.
    ///
    /// Returns the scalar of the first accepted draw, and `None` only if
    /// every attempt was rejected, which a uniform byte source avoids with
    /// overwhelming probability.
    pub fn challenge_scalar(&mut self, label: &'static str) -> (r: Option<Scalar>)
        ensures
            match r {
                Some(e) => exists|n: nat|
                    #![auto]
                    n < CHALLENGE_ATTEMPTS && first_accepted_at(*old(self), label@, n) && e
                        == draw_scalar(*old(self), label@, n) && *final(self) == nth_state(
                        *old(self),
                        label@,
                        n + 1,
                    ) && fr_val(e) != 0 && fr_val(e) < fr_modulus(),
                None => (forall|n: nat|
                    n < CHALLENGE_ATTEMPTS ==> !#[trigger] draw_accepted(*old(self), label@, n))
                    && *final(self) == nth_state(*old(self), label@, CHALLENGE_ATTEMPTS as nat),
            },
    {
        let ghost t0 = *old(self);
        let mut buf: Vec<u8> = Vec::new();
        let mut k: usize = 0;
        while k < 64
            invariant
                k <= 64,
                buf@.len() == k,
            decreases 64 - k,
        {
            buf.push(0u8);
            k = k + 1;
        }
        let mut counter: u8 = 0;
        let mut attempts: usize = 0;
        while attempts < CHALLENGE_ATTEMPTS
            invariant
                t0 == *old(self),
                attempts <= CHALLENGE_ATTEMPTS,
                buf@.len() == 64,
                *self == nth_state(t0, label@, attempts as nat),
                forall|m: nat| m < attempts ==> !#[trigger] draw_accepted(t0, label@, m),
            decreases CHALLENGE_ATTEMPTS - attempts,
        {
            challenge_bytes_64(self, label, &mut buf);
            assert(buf@ == nth_draw(t0, label@, attempts as nat));
            assert(*self == nth_state(t0, label@, (attempts + 1) as nat));
            match fr_from_random_bytes(&buf) {
                Some(e) => {
                    match fr_inverse(&e) {
                        Some(_) => {
                            proof {
                                let n = attempts as nat;
                                assert(draw_accepted(t0, label@, n));
                                assert(first_accepted_at(t0, label@, n));
                                assert(e == draw_scalar(t0, label@, n));
                                assert(*self == nth_state(t0, label@, n + 1));
                                assert(t0 == *old(self));
                                assert(n < CHALLENGE_ATTEMPTS && first_accepted_at(
                                    *old(self),
                                    label@,
                                    n,
                                ) && e == draw_scalar(*old(self), label@, n) && *self
                                    == nth_state(*old(self), label@, n + 1) && fr_val(e) != 0
                                    && fr_val(e) < fr_modulus());
                            }
                            return Some(e);
                        },
                        None => {
                            assert(!draw_accepted(t0, label@, attempts as nat));
                        },
                    }
                },
                None => {
                    assert(!draw_accepted(t0, label@, attempts as nat));
                },
            }
            // The rejected block is perturbed before the next draw replaces
            // it entirely.
            buf[0] = counter;
            counter = counter.wrapping_add(1);
            attempts = attempts + 1;
        }
        None
    }
}

/// Determinism of challenge derivation: the accepted draw index of a given
/// state and label is unique, so two transcripts in the same state (seeded
/// identically and fed identical appends, each step being a function of
/// state and arguments) derive the same challenge scalar.
pub proof fn lemma_challenge_scalar_deterministic(
    t: Transcript,
    label: Seq<char>,
    n1: nat,
    n2: nat,
)
    requires
        first_accepted_at(t, label, n1),
        first_accepted_at(t, label, n2),
    ensures
        n1 == n2,
        draw_scalar(t, label, n1) == draw_scalar(t, label, n2),
{
    if n1 < n2 {
        assert(!draw_accepted(t, label, n1));
        assert(false);
    }
    if n2 < n1 {
        assert(!draw_accepted(t, label, n2));
        assert(false);
    }
}

} // verus!
