//! The aggregate verification protocol.
//!
//! The verifier replays the prover's transcript: it appends the batch
//! commitments, derives the randomization challenge, appends each fold
//! round's commitments and claims and derives that round's challenge, then
//! folds the claimed commitment outputs with those challenges. The folding
//! polynomial evaluator reconstructs the scalar evaluations the final claims
//! must meet, and a batch of pairing equations checks every claim: the
//! folded commitments against the final key and data elements, each final
//! commitment key against its opening at a challenge point, and the claimed
//! inner pairing product against the verifying key and the combined public
//! inputs. The verdict is `Ok` only if every equation holds.

use vstd::prelude::*;
use crate::Error;
use crate::structured_scalar_power;
use crate::spec_pow_val;
use crate::curve::{
    Scalar, G1Elem, G2Elem, GtElem, fr_val, fr_modulus, fr_inv, fr_inverse, fr_from_u64, fr_one,
    fr_add, fr_mul, g1_mul, g1_add, g2_mul, g1_scale_point, g2_scale_point, g1_fold_point, g1_eq,
    pairing_of, gt_mul, gt_pow, compute_pairing, fq12_mul, fq12_pow, fq12_eq, g1_to_bytes,
    gt_to_bytes, g1_bytes, gt_bytes,
};
use crate::commitment::Output;
use crate::srs::VerifierSRS;
use crate::transcript::{
    Transcript, new_merlin_transcript, merlin_new, merlin_append, nth_state, draw_scalar,
    draw_accepted, first_accepted_at, lemma_challenge_scalar_deterministic, domain_sep_label,
    domain_sep_message, CHALLENGE_ATTEMPTS,
};
use crate::aggregate::AggregateProof;
use crate::groth16::{
    PreparedKey, pvk_of_bytes, pvk_from_bytes, pvk_alpha_beta, pvk_alpha_g1_beta_g2, pvk_gamma,
    pvk_gamma_g2, pvk_delta, pvk_delta_g2, pvk_gamma_abc, pvk_gamma_abc_g1,
};
use crate::codec::{
    encode_scalar_matrix, encode_output, spec_encode_scalar_matrix, spec_encode_output,
    decode_verifier_srs, spec_decode_verifier_srs,
};
use crate::aggregate::{decode_aggregate_proof, spec_proof_decodable, spec_decodes_to};
use crate::prover::{spec_poly_eval, polynomial_evaluation_product_form_from_transcript};

verus! {

/// One fold step in the target field: the left value raised to the
/// challenge, times the accumulator, times the right value raised to the
/// challenge's inverse.
pub open spec fn spec_fold_gt(acc: GtElem, l: GtElem, rr: GtElem, x: Scalar, xi: Scalar) -> GtElem {
    gt_mul(gt_mul(gt_pow(l, x), acc), gt_pow(rr, xi))
}

/// One fold step in the first source group.
pub open spec fn spec_fold_g1(acc: G1Elem, l: G1Elem, rr: G1Elem, x: Scalar, xi: Scalar) -> G1Elem {
    g1_add(g1_add(acc, g1_mul(l, x)), g1_mul(rr, xi))
}

/// The target-field value after folding the first `i` rounds.
pub open spec fn spec_folded_gt(
    init: GtElem,
    ls: Seq<GtElem>,
    rs: Seq<GtElem>,
    xs: Seq<Scalar>,
    xis: Seq<Scalar>,
    i: int,
) -> GtElem
    decreases i,
{
    if i <= 0 {
        init
    } else {
        spec_fold_gt(
            spec_folded_gt(init, ls, rs, xs, xis, i - 1),
            ls[i - 1],
            rs[i - 1],
            xs[i - 1],
            xis[i - 1],
        )
    }
}

/// The first-group value after folding the first `i` rounds.
pub open spec fn spec_folded_g1(
    init: G1Elem,
    ls: Seq<G1Elem>,
    rs: Seq<G1Elem>,
    xs: Seq<Scalar>,
    xis: Seq<Scalar>,
    i: int,
) -> G1Elem
    decreases i,
{
    if i <= 0 {
        init
    } else {
        spec_fold_g1(
            spec_folded_g1(init, ls, rs, xs, xis, i - 1),
            ls[i - 1],
            rs[i - 1],
            xs[i - 1],
            xis[i - 1],
        )
    }
}

/// Folding depends only on the first `i` challenges.
proof fn lemma_folded_gt_prefix(
    init: GtElem,
    ls: Seq<GtElem>,
    rs: Seq<GtElem>,
    xs1: Seq<Scalar>,
    xis1: Seq<Scalar>,
    xs2: Seq<Scalar>,
    xis2: Seq<Scalar>,
    i: int,
)
    requires
        forall|j: int| 0 <= j < i ==> xs1[j] == xs2[j] && xis1[j] == xis2[j],
    ensures
        spec_folded_gt(init, ls, rs, xs1, xis1, i) == spec_folded_gt(init, ls, rs, xs2, xis2, i),
    decreases i,
{
    if i > 0 {
        lemma_folded_gt_prefix(init, ls, rs, xs1, xis1, xs2, xis2, i - 1);
    }
}

/// Folding depends only on the first `i` challenges.
proof fn lemma_folded_g1_prefix(
    init: G1Elem,
    ls: Seq<G1Elem>,
    rs: Seq<G1Elem>,
    xs1: Seq<Scalar>,
    xis1: Seq<Scalar>,
    xs2: Seq<Scalar>,
    xis2: Seq<Scalar>,
    i: int,
)
    requires
        forall|j: int| 0 <= j < i ==> xs1[j] == xs2[j] && xis1[j] == xis2[j],
    ensures
        spec_folded_g1(init, ls, rs, xs1, xis1, i) == spec_folded_g1(init, ls, rs, xs2, xis2, i),
    decreases i,
{
    if i > 0 {
        lemma_folded_g1_prefix(init, ls, rs, xs1, xis1, xs2, xis2, i - 1);
    }
}

/// The canonical value of the sum of the first `i` scalars.
pub open spec fn spec_sum_vals(s: Seq<Scalar>, i: int) -> nat
    decreases i,
{
    if i <= 0 {
        0
    } else {
        (spec_sum_vals(s, i - 1) + fr_val(s[i - 1])) % fr_modulus()
    }
}

/// The canonical value of the linear combination, over the first `i` proofs,
/// of public input `j` weighted by the matching power of the randomization
/// challenge.
pub open spec fn spec_combined_vals(
    inputs: Seq<Vec<Scalar>>,
    r_powers: Seq<Scalar>,
    j: int,
    i: int,
) -> nat
    decreases i,
{
    if i <= 0 {
        0
    } else {
        (spec_combined_vals(inputs, r_powers, j, i - 1) + (fr_val(r_powers[i - 1]) * fr_val(
            inputs[i - 1]@[j],
        )) % fr_modulus()) % fr_modulus()
    }
}

/// The combined public-input commitment after the first `j` inputs: the
/// constant base weighted by the challenge-power sum, plus each further base
/// weighted by the matching combined input.
pub open spec fn spec_gic(gabc: Seq<G1Elem>, combined: Seq<Scalar>, r_sum: Scalar, j: int) -> G1Elem
    decreases j,
{
    if j <= 0 {
        g1_mul(gabc[0], r_sum)
    } else {
        g1_add(spec_gic(gabc, combined, r_sum, j - 1), g1_mul(gabc[j], combined[j - 1]))
    }
}

/// The transcript state after the verification header: domain separation,
/// the encoded batch of public inputs, and the two batch commitments.
pub open spec fn spec_header_state(
    t0: Transcript,
    inputs: Seq<Vec<Scalar>>,
    p: AggregateProof,
) -> Transcript {
    let td = merlin_append(t0, domain_sep_label(), domain_sep_message());
    let ti = merlin_append(td, "public-inputs"@, spec_encode_scalar_matrix(inputs));
    let ta = merlin_append(ti, "com-ab"@, spec_encode_output(p.com_ab));
    merlin_append(ta, "com-c"@, spec_encode_output(p.com_c))
}

/// The transcript state after appending round `j`'s commitments and claims.
pub open spec fn spec_round_appends(t: Transcript, p: AggregateProof, j: int) -> Transcript {
    let t1 = merlin_append(t, "gipa-comm-ab-left"@, spec_encode_output(p.comms_ab@[j].0));
    let t2 = merlin_append(t1, "gipa-comm-ab-right"@, spec_encode_output(p.comms_ab@[j].1));
    let t3 = merlin_append(t2, "gipa-comm-c-left"@, spec_encode_output(p.comms_c@[j].0));
    let t4 = merlin_append(t3, "gipa-comm-c-right"@, spec_encode_output(p.comms_c@[j].1));
    let t5 = merlin_append(t4, "gipa-z-ab-left"@, gt_bytes(p.z_ab@[j].0));
    let t6 = merlin_append(t5, "gipa-z-ab-right"@, gt_bytes(p.z_ab@[j].1));
    let t7 = merlin_append(t6, "gipa-z-c-left"@, g1_bytes(p.z_c@[j].0));
    merlin_append(t7, "gipa-z-c-right"@, g1_bytes(p.z_c@[j].1))
}

/// One fold round of the transcript replay: append round `j`, then draw its
/// challenge by rejection sampling.
pub open spec fn spec_round_step(
    tin: Transcript,
    p: AggregateProof,
    j: int,
    x: Scalar,
    tout: Transcript,
) -> bool {
    let ta = spec_round_appends(tin, p, j);
    exists|n: nat|
        {
            &&& n < CHALLENGE_ATTEMPTS
            &&& #[trigger] first_accepted_at(ta, "gipa-challenge"@, n)
            &&& x == draw_scalar(ta, "gipa-challenge"@, n)
            &&& tout == nth_state(ta, "gipa-challenge"@, n + 1)
        }
}

/// The end state of a round trace: the last intermediate state, or the
/// start if there were no rounds.
pub open spec fn spec_trace_end(t3: Transcript, states: Seq<Transcript>) -> Transcript {
    if states.len() == 0 {
        t3
    } else {
        states.last()
    }
}

/// Where round `j` of a trace starts: the previous round's end state, or
/// the common start for the first round.
pub open spec fn spec_trace_prev(t3: Transcript, states: Seq<Transcript>, j: int) -> Transcript {
    if j == 0 {
        t3
    } else {
        states[j - 1]
    }
}

/// A trace of the transcript replay of all fold rounds: `states[j]` is the
/// transcript after round `j`'s appends and challenge draw, each round
/// starting where the previous ended.
pub open spec fn spec_round_trace(
    t3: Transcript,
    p: AggregateProof,
    xs: Seq<Scalar>,
    states: Seq<Transcript>,
) -> bool {
    &&& states.len() == xs.len()
    &&& forall|j: int|
        0 <= j < xs.len() ==> #[trigger] spec_round_step(
            spec_trace_prev(t3, states, j),
            p,
            j,
            xs[j],
            states[j],
        )
}

/// The transcript state after the randomization challenge was drawn at
/// attempt `n_r` and the claimed product and aggregated component were
/// appended.
pub open spec fn spec_post_r_state(
    t0: Transcript,
    inputs: Seq<Vec<Scalar>>,
    p: AggregateProof,
    n_r: nat,
) -> Transcript {
    merlin_append(
        merlin_append(
            nth_state(spec_header_state(t0, inputs, p), "r-random-fiatshamir"@, n_r + 1),
            "ip-ab"@,
            gt_bytes(p.ip_ab),
        ),
        "agg-c"@,
        g1_bytes(p.agg_c),
    )
}

/// The full Fiat-Shamir binding of a verification run: starting from `t0`,
/// the header is appended; the randomization challenge `rr` is the first
/// accepted draw there; the claimed product and aggregated component are
/// appended; every fold challenge of `xs` is derived by its round's replay;
/// and `z` is the first accepted draw of the closing state, leaving the
/// transcript in `tfin`.
pub open spec fn spec_challenges_bound(
    t0: Transcript,
    tfin: Transcript,
    inputs: Seq<Vec<Scalar>>,
    p: AggregateProof,
    rr: Scalar,
    xs: Seq<Scalar>,
    z: Scalar,
) -> bool {
    let th = spec_header_state(t0, inputs, p);
    exists|n_r: nat, n_z: nat, states: Seq<Transcript>|
        #![trigger first_accepted_at(
            spec_trace_end(spec_post_r_state(t0, inputs, p, n_r), states),
            "z-challenge"@,
            n_z,
        )]
        {
            let t3 = spec_post_r_state(t0, inputs, p, n_r);
            &&& n_r < CHALLENGE_ATTEMPTS
            &&& first_accepted_at(th, "r-random-fiatshamir"@, n_r)
            &&& rr == draw_scalar(th, "r-random-fiatshamir"@, n_r)
            &&& spec_round_trace(t3, p, xs, states)
            &&& n_z < CHALLENGE_ATTEMPTS
            &&& first_accepted_at(spec_trace_end(t3, states), "z-challenge"@, n_z)
            &&& z == draw_scalar(spec_trace_end(t3, states), "z-challenge"@, n_z)
            &&& tfin == nth_state(spec_trace_end(t3, states), "z-challenge"@, n_z + 1)
        }
}

/// Every draw level of a rejection-sampling run is rejected.
pub open spec fn spec_draws_exhausted(t: Transcript, label: Seq<char>) -> bool {
    forall|n: nat| n < CHALLENGE_ATTEMPTS ==> !#[trigger] draw_accepted(t, label, n)
}

/// Rejection sampling gives up somewhere in the replay: at the
/// randomization challenge, at some fold round's challenge after a replay
/// of the earlier rounds, or at the evaluation-point challenge after a full
/// replay. This is the one condition under which the verifier cannot derive
/// its challenges.
pub open spec fn spec_sampling_exhausted(
    t0: Transcript,
    inputs: Seq<Vec<Scalar>>,
    p: AggregateProof,
) -> bool {
    let th = spec_header_state(t0, inputs, p);
    ||| spec_draws_exhausted(th, "r-random-fiatshamir"@)
    ||| exists|n_r: nat, xs: Seq<Scalar>, states: Seq<Transcript>|
        #![trigger spec_round_trace(spec_post_r_state(t0, inputs, p, n_r), p, xs, states)]
        {
            let t3 = spec_post_r_state(t0, inputs, p, n_r);
            &&& n_r < CHALLENGE_ATTEMPTS
            &&& first_accepted_at(th, "r-random-fiatshamir"@, n_r)
            &&& xs.len() == states.len()
            &&& xs.len() <= p.comms_ab@.len()
            &&& spec_round_trace(t3, p, xs, states)
            &&& if xs.len() < p.comms_ab@.len() {
                spec_draws_exhausted(
                    spec_round_appends(spec_trace_end(t3, states), p, xs.len() as int),
                    "gipa-challenge"@,
                )
            } else {
                spec_draws_exhausted(spec_trace_end(t3, states), "z-challenge"@)
            }
        }
}

/// Two replays of the same round from the same state derive the same
/// challenge and end in the same state: the accepted draw index is unique.
proof fn lemma_round_step_unique(
    tin: Transcript,
    p: AggregateProof,
    j: int,
    x1: Scalar,
    tout1: Transcript,
    x2: Scalar,
    tout2: Transcript,
)
    requires
        spec_round_step(tin, p, j, x1, tout1),
        spec_round_step(tin, p, j, x2, tout2),
    ensures
        x1 == x2,
        tout1 == tout2,
{
    let ta = spec_round_appends(tin, p, j);
    let n1 = choose|n: nat|
        {
            &&& n < CHALLENGE_ATTEMPTS
            &&& #[trigger] first_accepted_at(ta, "gipa-challenge"@, n)
            &&& x1 == draw_scalar(ta, "gipa-challenge"@, n)
            &&& tout1 == nth_state(ta, "gipa-challenge"@, n + 1)
        };
    let n2 = choose|n: nat|
        {
            &&& n < CHALLENGE_ATTEMPTS
            &&& #[trigger] first_accepted_at(ta, "gipa-challenge"@, n)
            &&& x2 == draw_scalar(ta, "gipa-challenge"@, n)
            &&& tout2 == nth_state(ta, "gipa-challenge"@, n + 1)
        };
    lemma_challenge_scalar_deterministic(ta, "gipa-challenge"@, n1, n2);
}

/// Two replays from the same start agree round for round, as far as both
/// reach: the whole challenge derivation is a function of the start state
/// and the proof.
proof fn lemma_trace_agree_upto(
    t3: Transcript,
    p: AggregateProof,
    xs1: Seq<Scalar>,
    st1: Seq<Transcript>,
    xs2: Seq<Scalar>,
    st2: Seq<Transcript>,
    k: int,
)
    requires
        spec_round_trace(t3, p, xs1, st1),
        spec_round_trace(t3, p, xs2, st2),
        k <= xs1.len(),
        k <= xs2.len(),
    ensures
        forall|j: int| 0 <= j < k ==> xs1[j] == xs2[j] && st1[j] == st2[j],
    decreases k,
{
    if k > 0 {
        lemma_trace_agree_upto(t3, p, xs1, st1, xs2, st2, k - 1);
        assert(spec_trace_prev(t3, st1, k - 1) == spec_trace_prev(t3, st2, k - 1));
        assert(spec_round_step(spec_trace_prev(t3, st1, k - 1), p, k - 1, xs1[k - 1], st1[k - 1]));
        assert(spec_round_step(spec_trace_prev(t3, st2, k - 1), p, k - 1, xs2[k - 1], st2[k - 1]));
        lemma_round_step_unique(
            spec_trace_prev(t3, st1, k - 1),
            p,
            k - 1,
            xs1[k - 1],
            st1[k - 1],
            xs2[k - 1],
            st2[k - 1],
        );
        assert forall|j: int| 0 <= j < k implies xs1[j] == xs2[j] && st1[j] == st2[j] by {
            if j < k - 1 {
                assert(xs1[j] == xs2[j] && st1[j] == st2[j]);
            }
        }
    }
}

/// The structural conditions an aggregate verification demands before any
/// algebra: coherent round vectors, a power-of-two batch matching the SRS
/// size, one input per verifying-key base, and a batch whose encoding fits
/// in one transcript message (the oracle length-prefixes each message with
/// a 32-bit length).
pub open spec fn spec_structure_ok(
    srs: VerifierSRS,
    gabc: Seq<G1Elem>,
    inputs: Seq<Vec<Scalar>>,
    p: AggregateProof,
) -> bool {
    &&& p.well_formed()
    &&& 1 <= p.comms_ab@.len()
    &&& p.comms_ab@.len() < 64
    &&& (inputs.len() as u64) == (1u64 << (p.comms_ab@.len() as u64))
    &&& inputs.len() == srs.n
    &&& gabc.len() >= 1
    &&& forall|i: int| 0 <= i < inputs.len() ==> #[trigger] inputs[i]@.len() + 1 == gabc.len()
    &&& spec_encode_scalar_matrix(inputs).len() < 4294967296
}

/// The scalar values the verifier derives from the challenges: the
/// challenge inverses, the three folding-polynomial evaluations, the
/// challenge powers and their sum, and the combined public inputs.
pub open spec fn spec_derived(
    inputs: Seq<Vec<Scalar>>,
    gabc: Seq<G1Elem>,
    xs: Seq<Scalar>,
    xis: Seq<Scalar>,
    rr: Scalar,
    r_inv: Scalar,
    one_s: Scalar,
    z: Scalar,
    y_v: Scalar,
    y_w: Scalar,
    y_c: Scalar,
    r_powers: Seq<Scalar>,
    r_sum: Scalar,
    combined: Seq<Scalar>,
) -> bool {
    &&& xs.len() == xis.len()
    &&& forall|j: int| 0 <= j < xs.len() ==> #[trigger] fr_inv(xs[j]) == Some(xis[j])
    &&& fr_inv(rr) == Some(r_inv)
    &&& fr_val(one_s) == 1
    &&& fr_val(y_v) == spec_poly_eval(xs.reverse(), z, r_inv)
    &&& fr_val(y_w) == spec_poly_eval(xs.reverse(), z, one_s)
    &&& fr_val(y_c) == spec_poly_eval(xs.reverse(), one_s, rr)
    &&& r_powers.len() == inputs.len()
    &&& forall|i: int| 0 <= i < r_powers.len() ==> fr_val(#[trigger] r_powers[i]) == spec_pow_val(
        rr,
        i as nat,
    )
    &&& fr_val(r_sum) == spec_sum_vals(r_powers, r_powers.len() as int)
    &&& combined.len() + 1 == gabc.len()
    &&& forall|j: int| 0 <= j < combined.len() ==> fr_val(#[trigger] combined[j])
        == spec_combined_vals(inputs, r_powers, j, inputs.len() as int)
}

/// The batch of pairing equations that accepts an aggregate proof, given
/// the derived scalars: the folded double-sided commitment against the
/// final keys and data, the folded claimed products against the final data,
/// the folded single-sided commitment against the final third component,
/// each final key half against its opening at the challenge point, and the
/// claimed inner pairing product against the verifying key with the
/// combined inputs.
pub open spec fn spec_equations(
    srs: VerifierSRS,
    alpha_beta: GtElem,
    gamma: G2Elem,
    delta: G2Elem,
    gabc: Seq<G1Elem>,
    p: AggregateProof,
    xs: Seq<Scalar>,
    xis: Seq<Scalar>,
    z: Scalar,
    y_v: Scalar,
    y_w: Scalar,
    y_c: Scalar,
    r_sum: Scalar,
    combined: Seq<Scalar>,
) -> bool {
    let rounds = p.comms_ab@.len() as int;
    let cab0 = spec_folded_gt(
        p.com_ab.0,
        p.comms_ab@.map_values(|pr: (Output, Output)| pr.0.0),
        p.comms_ab@.map_values(|pr: (Output, Output)| pr.1.0),
        xs,
        xis,
        rounds,
    );
    let cab1 = spec_folded_gt(
        p.com_ab.1,
        p.comms_ab@.map_values(|pr: (Output, Output)| pr.0.1),
        p.comms_ab@.map_values(|pr: (Output, Output)| pr.1.1),
        xs,
        xis,
        rounds,
    );
    let cc0 = spec_folded_gt(
        p.com_c.0,
        p.comms_c@.map_values(|pr: (Output, Output)| pr.0.0),
        p.comms_c@.map_values(|pr: (Output, Output)| pr.1.0),
        xs,
        xis,
        rounds,
    );
    let cc1 = spec_folded_gt(
        p.com_c.1,
        p.comms_c@.map_values(|pr: (Output, Output)| pr.0.1),
        p.comms_c@.map_values(|pr: (Output, Output)| pr.1.1),
        xs,
        xis,
        rounds,
    );
    let zab = spec_folded_gt(
        p.ip_ab,
        p.z_ab@.map_values(|q: (GtElem, GtElem)| q.0),
        p.z_ab@.map_values(|q: (GtElem, GtElem)| q.1),
        xs,
        xis,
        rounds,
    );
    let zc = spec_folded_g1(
        p.agg_c,
        p.z_c@.map_values(|q: (G1Elem, G1Elem)| q.0),
        p.z_c@.map_values(|q: (G1Elem, G1Elem)| q.1),
        xs,
        xis,
        rounds,
    );
    let gic = spec_gic(gabc, combined, r_sum, combined.len() as int);
    &&& cab0 == gt_mul(
        pairing_of(p.final_a, p.final_vkey.0),
        pairing_of(p.final_wkey.0, p.final_b),
    )
    &&& cab1 == gt_mul(
        pairing_of(p.final_a, p.final_vkey.1),
        pairing_of(p.final_wkey.1, p.final_b),
    )
    &&& zab == pairing_of(p.final_a, p.final_b)
    &&& cc0 == pairing_of(p.final_c, p.final_vkey.0)
    &&& cc1 == pairing_of(p.final_c, p.final_vkey.1)
    &&& zc == g1_mul(p.final_c, y_c)
    &&& gt_mul(
        pairing_of(srs.g_alpha, p.vkey_opening.0),
        pairing_of(srs.g, g2_mul(srs.h, y_v)),
    ) == gt_mul(pairing_of(g1_mul(srs.g, z), p.vkey_opening.0), pairing_of(srs.g, p.final_vkey.0))
    &&& gt_mul(
        pairing_of(srs.g_beta, p.vkey_opening.1),
        pairing_of(srs.g, g2_mul(srs.h, y_v)),
    ) == gt_mul(pairing_of(g1_mul(srs.g, z), p.vkey_opening.1), pairing_of(srs.g, p.final_vkey.1))
    &&& gt_mul(
        pairing_of(p.wkey_opening.0, srs.h_alpha),
        pairing_of(g1_mul(srs.g, y_w), srs.h),
    ) == gt_mul(pairing_of(p.wkey_opening.0, g2_mul(srs.h, z)), pairing_of(p.final_wkey.0, srs.h))
    &&& gt_mul(
        pairing_of(p.wkey_opening.1, srs.h_beta),
        pairing_of(g1_mul(srs.g, y_w), srs.h),
    ) == gt_mul(pairing_of(p.wkey_opening.1, g2_mul(srs.h, z)), pairing_of(p.final_wkey.1, srs.h))
    &&& p.ip_ab == gt_mul(
        gt_pow(alpha_beta, r_sum),
        gt_mul(pairing_of(gic, gamma), pairing_of(p.agg_c, delta)),
    )
}

/// A verification run from transcript state `t0` to `tfin` accepts: some
/// challenge assignment is bound to the transcript replay, derives the
/// verifier-side scalars, and satisfies every pairing equation.
pub open spec fn spec_accepting_run(
    t0: Transcript,
    tfin: Transcript,
    srs: VerifierSRS,
    k: PreparedKey,
    inputs: Seq<Vec<Scalar>>,
    p: AggregateProof,
) -> bool {
    exists|
        xs: Seq<Scalar>,
        xis: Seq<Scalar>,
        rr: Scalar,
        r_inv: Scalar,
        one_s: Scalar,
        z: Scalar,
        y_v: Scalar,
        y_w: Scalar,
        y_c: Scalar,
        r_powers: Seq<Scalar>,
        r_sum: Scalar,
        combined: Seq<Scalar>,
    |
        {
            &&& xs.len() == p.comms_ab@.len()
            &&& #[trigger] spec_derived(
                inputs,
                pvk_gamma_abc(k),
                xs,
                xis,
                rr,
                r_inv,
                one_s,
                z,
                y_v,
                y_w,
                y_c,
                r_powers,
                r_sum,
                combined,
            )
            &&& spec_equations(
                srs,
                pvk_alpha_beta(k),
                pvk_gamma(k),
                pvk_delta(k),
                pvk_gamma_abc(k),
                p,
                xs,
                xis,
                z,
                y_v,
                y_w,
                y_c,
                r_sum,
                combined,
            )
            &&& spec_challenges_bound(t0, tfin, inputs, p, rr, xs, z)
        }
}

/// A verification run from `t0` to `tfin` rejects on the algebra: the bound
/// challenge assignment derives the verifier-side scalars, but some pairing
/// equation fails.
pub open spec fn spec_rejecting_run(
    t0: Transcript,
    tfin: Transcript,
    srs: VerifierSRS,
    k: PreparedKey,
    inputs: Seq<Vec<Scalar>>,
    p: AggregateProof,
) -> bool {
    exists|
        xs: Seq<Scalar>,
        xis: Seq<Scalar>,
        rr: Scalar,
        r_inv: Scalar,
        one_s: Scalar,
        z: Scalar,
        y_v: Scalar,
        y_w: Scalar,
        y_c: Scalar,
        r_powers: Seq<Scalar>,
        r_sum: Scalar,
        combined: Seq<Scalar>,
    |
        {
            &&& xs.len() == p.comms_ab@.len()
            &&& #[trigger] spec_derived(
                inputs,
                pvk_gamma_abc(k),
                xs,
                xis,
                rr,
                r_inv,
                one_s,
                z,
                y_v,
                y_w,
                y_c,
                r_powers,
                r_sum,
                combined,
            )
            &&& !spec_equations(
                srs,
                pvk_alpha_beta(k),
                pvk_gamma(k),
                pvk_delta(k),
                pvk_gamma_abc(k),
                p,
                xs,
                xis,
                z,
                y_v,
                y_w,
                y_c,
                r_sum,
                combined,
            )
            &&& spec_challenges_bound(t0, tfin, inputs, p, rr, xs, z)
        }
}

/// Some run from `t0` accepts, whatever state it ends in.
pub open spec fn spec_some_accepting_run(
    t0: Transcript,
    srs: VerifierSRS,
    k: PreparedKey,
    inputs: Seq<Vec<Scalar>>,
    p: AggregateProof,
) -> bool {
    exists|tfin: Transcript| #[trigger] spec_accepting_run(t0, tfin, srs, k, inputs, p)
}

/// Some run from `t0` rejects on the algebra, whatever state it ends in.
pub open spec fn spec_some_rejecting_run(
    t0: Transcript,
    srs: VerifierSRS,
    k: PreparedKey,
    inputs: Seq<Vec<Scalar>>,
    p: AggregateProof,
) -> bool {
    exists|tfin: Transcript| #[trigger] spec_rejecting_run(t0, tfin, srs, k, inputs, p)
}

/// Reverses a scalar vector.
fn reverse_scalars(v: &Vec<Scalar>) -> (r: Vec<Scalar>)
    ensures
        r@ == v@.reverse(),
{
    let n: usize = v.len();
    let mut out: Vec<Scalar> = Vec::new();
    let mut i: usize = 0;
    while i < n
        invariant
            i <= n,
            n == v@.len(),
            out@.len() == i,
            forall|k: int| 0 <= k < i ==> out@[k] == v@[n - 1 - k],
        decreases n - i,
    {
        out.push(v[n - 1 - i]);
        i = i + 1;
    }
    assert(out@ =~= v@.reverse());
    out
}

/// Verifies an aggregate proof against a verifier SRS, a prepared verifying
/// key and the batch of public inputs, replaying the Fiat-Shamir transcript
/// the prover must have used. Returns `Ok` only if the proof is structurally
/// coherent and every pairing equation of the batch holds; never mutates its
/// inputs beyond the transcript.
#[verifier::loop_isolation(false)]
pub fn verify_aggregate_proof(
    ver_srs: &VerifierSRS,
    pvk: &PreparedKey,
    public_inputs: &Vec<Vec<Scalar>>,
    agg_proof: &AggregateProof,
    transcript: &mut Transcript,
) -> (r: Result<(), Error>)
    ensures
        (r == Err::<(), Error>(Error::MalformedInput)) == !spec_structure_ok(
            *ver_srs,
            pvk_gamma_abc(*pvk),
            public_inputs@,
            *agg_proof,
        ),
        r is Ok || r == Err::<(), Error>(Error::MalformedInput) || r == Err::<(), Error>(
            Error::ChallengeFailure,
        ) || r == Err::<(), Error>(Error::InvalidProof),
        spec_structure_ok(*ver_srs, pvk_gamma_abc(*pvk), public_inputs@, *agg_proof) ==> ((r
            == Err::<(), Error>(Error::ChallengeFailure)) == spec_sampling_exhausted(
            *old(transcript),
            public_inputs@,
            *agg_proof,
        )),
        r is Ok ==> spec_accepting_run(
            *old(transcript),
            *final(transcript),
            *ver_srs,
            *pvk,
            public_inputs@,
            *agg_proof,
        ),
        r == Err::<(), Error>(Error::InvalidProof) ==> spec_rejecting_run(
            *old(transcript),
            *final(transcript),
            *ver_srs,
            *pvk,
            public_inputs@,
            *agg_proof,
        ),
{
    let p = agg_proof;
    let gabc = pvk_gamma_abc_g1(pvk);
    let rounds: usize = p.comms_ab.len();
    // Structural gate: coherent rounds, power-of-two batch matching the SRS,
    // one public input per verifying-key base.
    let mut structure_ok: bool = p.comms_c.len() == rounds && p.z_ab.len() == rounds && p.z_c.len()
        == rounds && rounds >= 1 && rounds < 64 && gabc.len() >= 1 && public_inputs.len()
        == ver_srs.n;
    if structure_ok {
        if (public_inputs.len() as u64) != (1u64 << (rounds as u64)) {
            structure_ok = false;
        }
    }
    if structure_ok {
        let nrows: usize = public_inputs.len();
        let want: usize = gabc.len() - 1;
        let mut i: usize = 0;
        let mut rows_ok: bool = true;
        while i < nrows
            invariant
                i <= nrows,
                nrows == public_inputs@.len(),
                want + 1 == gabc@.len(),
                rows_ok == (forall|k: int|
                    0 <= k < i ==> #[trigger] public_inputs@[k]@.len() == want),
            decreases nrows - i,
        {
            if public_inputs[i].len() != want {
                rows_ok = false;
                assert(public_inputs@[i as int]@.len() != want);
            }
            i = i + 1;
        }
        if !rows_ok {
            structure_ok = false;
        }
    }
    if !structure_ok {
        assert(!spec_structure_ok(*ver_srs, pvk_gamma_abc(*pvk), public_inputs@, *p));
        return Err(Error::MalformedInput);
    }
    let inputs_bytes = encode_scalar_matrix(public_inputs);
    if (inputs_bytes.len() as u64) >= 4294967296u64 {
        assert(!spec_structure_ok(*ver_srs, pvk_gamma_abc(*pvk), public_inputs@, *p));
        return Err(Error::MalformedInput);
    }
    assert(spec_structure_ok(*ver_srs, pvk_gamma_abc(*pvk), public_inputs@, *p));

    // Replay the transcript: domain separation, the batch of public inputs,
    // the batch commitments, the randomization challenge, then every fold
    // round.
    let ghost t_start = *old(transcript);
    transcript.domain_sep();
    transcript.append("public-inputs", &inputs_bytes);
    let cab_bytes = encode_output(&p.com_ab);
    transcript.append("com-ab", &cab_bytes);
    let cc_bytes = encode_output(&p.com_c);
    transcript.append("com-c", &cc_bytes);
    let ghost t_header = *transcript;
    proof {
        assert(t_header == spec_header_state(t_start, public_inputs@, *p));
    }
    let rr = match transcript.challenge_scalar("r-random-fiatshamir") {
        Some(x) => x,
        None => {
            proof {
                assert(spec_draws_exhausted(
                    spec_header_state(t_start, public_inputs@, *p),
                    "r-random-fiatshamir"@,
                ));
                assert(spec_sampling_exhausted(t_start, public_inputs@, *p));
            }
            return Err(Error::ChallengeFailure);
        },
    };
    let ghost n_r = choose|n: nat|
        #![auto]
        n < CHALLENGE_ATTEMPTS && first_accepted_at(t_header, "r-random-fiatshamir"@, n) && rr
            == draw_scalar(t_header, "r-random-fiatshamir"@, n) && *transcript == nth_state(
            t_header,
            "r-random-fiatshamir"@,
            n + 1,
        ) && fr_val(rr) != 0 && fr_val(rr) < fr_modulus();
    proof {
        assert(first_accepted_at(t_header, "r-random-fiatshamir"@, n_r));
    }
    let ipab_bytes = gt_to_bytes(&p.ip_ab);
    transcript.append("ip-ab", &ipab_bytes);
    let aggc_bytes = g1_to_bytes(&p.agg_c);
    transcript.append("agg-c", &aggc_bytes);
    let ghost t3 = *transcript;
    proof {
        assert(t3 == spec_post_r_state(t_start, public_inputs@, *p, n_r));
    }

    let ghost ls_ab0 = p.comms_ab@.map_values(|pr: (Output, Output)| pr.0.0);
    let ghost rs_ab0 = p.comms_ab@.map_values(|pr: (Output, Output)| pr.1.0);
    let ghost ls_ab1 = p.comms_ab@.map_values(|pr: (Output, Output)| pr.0.1);
    let ghost rs_ab1 = p.comms_ab@.map_values(|pr: (Output, Output)| pr.1.1);
    let ghost ls_c0 = p.comms_c@.map_values(|pr: (Output, Output)| pr.0.0);
    let ghost rs_c0 = p.comms_c@.map_values(|pr: (Output, Output)| pr.1.0);
    let ghost ls_c1 = p.comms_c@.map_values(|pr: (Output, Output)| pr.0.1);
    let ghost rs_c1 = p.comms_c@.map_values(|pr: (Output, Output)| pr.1.1);
    let ghost ls_zab = p.z_ab@.map_values(|q: (GtElem, GtElem)| q.0);
    let ghost rs_zab = p.z_ab@.map_values(|q: (GtElem, GtElem)| q.1);
    let ghost ls_zc = p.z_c@.map_values(|q: (G1Elem, G1Elem)| q.0);
    let ghost rs_zc = p.z_c@.map_values(|q: (G1Elem, G1Elem)| q.1);

    let mut acc_ab0: GtElem = p.com_ab.0;
    let mut acc_ab1: GtElem = p.com_ab.1;
    let mut acc_c0: GtElem = p.com_c.0;
    let mut acc_c1: GtElem = p.com_c.1;
    let mut acc_zab: GtElem = p.ip_ab;
    let mut acc_zc: G1Elem = p.agg_c;
    let mut challenges: Vec<Scalar> = Vec::new();
    let mut challenges_inv: Vec<Scalar> = Vec::new();
    let ghost mut states: Seq<Transcript> = Seq::empty();
    let mut i: usize = 0;
    while i < rounds
        invariant
            i <= rounds,
            states.len() == i,
            *transcript == spec_trace_prev(t3, states, i as int),
            forall|j: int|
                0 <= j < i ==> #[trigger] spec_round_step(
                    spec_trace_prev(t3, states, j),
                    *p,
                    j,
                    challenges@[j],
                    states[j],
                ),
            rounds == p.comms_ab@.len(),
            p.well_formed(),
            spec_structure_ok(*ver_srs, pvk_gamma_abc(*pvk), public_inputs@, *p),
            challenges@.len() == i,
            challenges_inv@.len() == i,
            forall|j: int| 0 <= j < i ==> #[trigger] fr_inv(challenges@[j]) == Some(
                challenges_inv@[j],
            ),
            ls_ab0 == p.comms_ab@.map_values(|pr: (Output, Output)| pr.0.0),
            rs_ab0 == p.comms_ab@.map_values(|pr: (Output, Output)| pr.1.0),
            ls_ab1 == p.comms_ab@.map_values(|pr: (Output, Output)| pr.0.1),
            rs_ab1 == p.comms_ab@.map_values(|pr: (Output, Output)| pr.1.1),
            ls_c0 == p.comms_c@.map_values(|pr: (Output, Output)| pr.0.0),
            rs_c0 == p.comms_c@.map_values(|pr: (Output, Output)| pr.1.0),
            ls_c1 == p.comms_c@.map_values(|pr: (Output, Output)| pr.0.1),
            rs_c1 == p.comms_c@.map_values(|pr: (Output, Output)| pr.1.1),
            ls_zab == p.z_ab@.map_values(|q: (GtElem, GtElem)| q.0),
            rs_zab == p.z_ab@.map_values(|q: (GtElem, GtElem)| q.1),
            ls_zc == p.z_c@.map_values(|q: (G1Elem, G1Elem)| q.0),
            rs_zc == p.z_c@.map_values(|q: (G1Elem, G1Elem)| q.1),
            acc_ab0 == spec_folded_gt(
                p.com_ab.0,
                ls_ab0,
                rs_ab0,
                challenges@,
                challenges_inv@,
                i as int,
            ),
            acc_ab1 == spec_folded_gt(
                p.com_ab.1,
                ls_ab1,
                rs_ab1,
                challenges@,
                challenges_inv@,
                i as int,
            ),
            acc_c0 == spec_folded_gt(
                p.com_c.0,
                ls_c0,
                rs_c0,
                challenges@,
                challenges_inv@,
                i as int,
            ),
            acc_c1 == spec_folded_gt(
                p.com_c.1,
                ls_c1,
                rs_c1,
                challenges@,
                challenges_inv@,
                i as int,
            ),
            acc_zab == spec_folded_gt(
                p.ip_ab,
                ls_zab,
                rs_zab,
                challenges@,
                challenges_inv@,
                i as int,
            ),
            acc_zc == spec_folded_g1(
                p.agg_c,
                ls_zc,
                rs_zc,
                challenges@,
                challenges_inv@,
                i as int,
            ),
        decreases rounds - i,
    {
        let ghost tmid = *transcript;
        let b1 = encode_output(&p.comms_ab[i].0);
        transcript.append("gipa-comm-ab-left", &b1);
        let b2 = encode_output(&p.comms_ab[i].1);
        transcript.append("gipa-comm-ab-right", &b2);
        let b3 = encode_output(&p.comms_c[i].0);
        transcript.append("gipa-comm-c-left", &b3);
        let b4 = encode_output(&p.comms_c[i].1);
        transcript.append("gipa-comm-c-right", &b4);
        let b5 = gt_to_bytes(&p.z_ab[i].0);
        transcript.append("gipa-z-ab-left", &b5);
        let b6 = gt_to_bytes(&p.z_ab[i].1);
        transcript.append("gipa-z-ab-right", &b6);
        let b7 = g1_to_bytes(&p.z_c[i].0);
        transcript.append("gipa-z-c-left", &b7);
        let b8 = g1_to_bytes(&p.z_c[i].1);
        transcript.append("gipa-z-c-right", &b8);
        proof {
            assert(*transcript == spec_round_appends(tmid, *p, i as int));
        }
        let ghost t_appended = *transcript;
        let x = match transcript.challenge_scalar("gipa-challenge") {
            Some(x) => x,
            None => {
                proof {
                    assert(spec_round_trace(
                        spec_post_r_state(t_start, public_inputs@, *p, n_r),
                        *p,
                        challenges@,
                        states,
                    ));
                    assert(spec_trace_end(t3, states) == tmid);
                    assert(spec_draws_exhausted(
                        spec_round_appends(spec_trace_end(t3, states), *p, challenges@.len() as int),
                        "gipa-challenge"@,
                    ));
                    assert(spec_sampling_exhausted(t_start, public_inputs@, *p));
                }
                return Err(Error::ChallengeFailure);
            },
        };
        proof {
            let n_x = choose|n: nat|
                #![auto]
                n < CHALLENGE_ATTEMPTS && first_accepted_at(t_appended, "gipa-challenge"@, n) && x
                    == draw_scalar(t_appended, "gipa-challenge"@, n) && *transcript == nth_state(
                    t_appended,
                    "gipa-challenge"@,
                    n + 1,
                );
            assert(first_accepted_at(t_appended, "gipa-challenge"@, n_x));
            assert(spec_round_step(tmid, *p, i as int, x, *transcript));
        }
        // A drawn challenge is invertible by the sampling contract, so the
        // inverse always exists.
        let xi = match fr_inverse(&x) {
            Some(v) => v,
            None => {
                proof {
                    assert(fr_val(x) != 0);
                    assert(false);
                }
                return Err(Error::ChallengeFailure);
            },
        };
        acc_ab0 = fq12_mul(&fq12_mul(&fq12_pow(&p.comms_ab[i].0.0, &x), &acc_ab0), &fq12_pow(
            &p.comms_ab[i].1.0,
            &xi,
        ));
        acc_ab1 = fq12_mul(&fq12_mul(&fq12_pow(&p.comms_ab[i].0.1, &x), &acc_ab1), &fq12_pow(
            &p.comms_ab[i].1.1,
            &xi,
        ));
        acc_c0 = fq12_mul(&fq12_mul(&fq12_pow(&p.comms_c[i].0.0, &x), &acc_c0), &fq12_pow(
            &p.comms_c[i].1.0,
            &xi,
        ));
        acc_c1 = fq12_mul(&fq12_mul(&fq12_pow(&p.comms_c[i].0.1, &x), &acc_c1), &fq12_pow(
            &p.comms_c[i].1.1,
            &xi,
        ));
        acc_zab = fq12_mul(&fq12_mul(&fq12_pow(&p.z_ab[i].0, &x), &acc_zab), &fq12_pow(
            &p.z_ab[i].1,
            &xi,
        ));
        acc_zc = g1_fold_point(&g1_fold_point(&acc_zc, &p.z_c[i].0, &x), &p.z_c[i].1, &xi);
        let ghost pre_states = states;
        let ghost pre_chals = challenges@;
        proof {
            states = pre_states.push(*transcript);
            let old_xs = challenges@;
            let old_xis = challenges_inv@;
            let new_xs = challenges@.push(x);
            let new_xis = challenges_inv@.push(xi);
            lemma_folded_gt_prefix(p.com_ab.0, ls_ab0, rs_ab0, new_xs, new_xis, old_xs, old_xis, i as int);
            lemma_folded_gt_prefix(p.com_ab.1, ls_ab1, rs_ab1, new_xs, new_xis, old_xs, old_xis, i as int);
            lemma_folded_gt_prefix(p.com_c.0, ls_c0, rs_c0, new_xs, new_xis, old_xs, old_xis, i as int);
            lemma_folded_gt_prefix(p.com_c.1, ls_c1, rs_c1, new_xs, new_xis, old_xs, old_xis, i as int);
            lemma_folded_gt_prefix(p.ip_ab, ls_zab, rs_zab, new_xs, new_xis, old_xs, old_xis, i as int);
            lemma_folded_g1_prefix(p.agg_c, ls_zc, rs_zc, new_xs, new_xis, old_xs, old_xis, i as int);
        }
        challenges.push(x);
        challenges_inv.push(xi);
        i = i + 1;
        proof {
            assert forall|j: int|
                0 <= j < i implies #[trigger] spec_round_step(
                spec_trace_prev(t3, states, j),
                *p,
                j,
                challenges@[j],
                states[j],
            ) by {
                if j == i - 1 {
                    assert(spec_trace_prev(t3, states, j) == tmid);
                    assert(challenges@[j] == x);
                    assert(states[j] == spec_trace_prev(t3, states, i as int));
                } else {
                    assert(spec_round_step(
                        spec_trace_prev(t3, pre_states, j),
                        *p,
                        j,
                        pre_chals[j],
                        pre_states[j],
                    ));
                    assert(spec_trace_prev(t3, pre_states, j) == spec_trace_prev(t3, states, j));
                    assert(pre_chals[j] == challenges@[j]);
                    assert(pre_states[j] == states[j]);
                }
            }
        }
    }

    let ghost t4 = *transcript;
    proof {
        assert(t4 == spec_trace_end(t3, states));
    }
    let z = match transcript.challenge_scalar("z-challenge") {
        Some(x) => x,
        None => {
            proof {
                assert(spec_round_trace(
                    spec_post_r_state(t_start, public_inputs@, *p, n_r),
                    *p,
                    challenges@,
                    states,
                ));
                assert(spec_draws_exhausted(spec_trace_end(t3, states), "z-challenge"@));
                assert(spec_sampling_exhausted(t_start, public_inputs@, *p));
            }
            return Err(Error::ChallengeFailure);
        },
    };
    let ghost n_z = choose|n: nat|
        #![auto]
        n < CHALLENGE_ATTEMPTS && first_accepted_at(t4, "z-challenge"@, n) && z == draw_scalar(
            t4,
            "z-challenge"@,
            n,
        ) && *transcript == nth_state(t4, "z-challenge"@, n + 1);
    let ghost t_final = *transcript;
    proof {
        assert(first_accepted_at(t4, "z-challenge"@, n_z));
    }
    // The randomization challenge is invertible by the sampling contract.
    let r_inv = match fr_inverse(&rr) {
        Some(v) => v,
        None => {
            proof {
                assert(fr_val(rr) != 0);
                assert(false);
            }
            return Err(Error::ChallengeFailure);
        },
    };
    let one_s = fr_one();
    let challenges_rev = reverse_scalars(&challenges);
    let y_v = polynomial_evaluation_product_form_from_transcript(&challenges_rev, &z, &r_inv);
    let y_w = polynomial_evaluation_product_form_from_transcript(&challenges_rev, &z, &one_s);
    let y_c = polynomial_evaluation_product_form_from_transcript(&challenges_rev, &one_s, &rr);

    let nproofs: usize = public_inputs.len();
    proof {
        let r64 = rounds as u64;
        assert((1u64 << r64) >= 1) by (bit_vector)
            requires
                r64 < 64,
        ;
    }
    let r_powers = structured_scalar_power(nproofs, &rr);
    let mut r_sum: Scalar = fr_from_u64(0);
    let mut i2: usize = 0;
    while i2 < nproofs
        invariant
            i2 <= nproofs,
            nproofs == r_powers@.len(),
            fr_val(r_sum) == spec_sum_vals(r_powers@, i2 as int),
        decreases nproofs - i2,
    {
        r_sum = fr_add(&r_sum, &r_powers[i2]);
        i2 = i2 + 1;
    }

    let want: usize = gabc.len() - 1;
    let mut combined: Vec<Scalar> = Vec::new();
    let mut j: usize = 0;
    while j < want
        invariant
            j <= want,
            want + 1 == gabc@.len(),
            nproofs == public_inputs@.len() == r_powers@.len(),
            forall|k: int| 0 <= k < nproofs ==> #[trigger] public_inputs@[k]@.len() == want,
            combined@.len() == j,
            forall|k: int| 0 <= k < j ==> fr_val(#[trigger] combined@[k]) == spec_combined_vals(
                public_inputs@,
                r_powers@,
                k,
                nproofs as int,
            ),
        decreases want - j,
    {
        let mut acc: Scalar = fr_from_u64(0);
        let mut k: usize = 0;
        while k < nproofs
            invariant
                k <= nproofs,
                j < want,
                nproofs == public_inputs@.len() == r_powers@.len(),
                forall|m: int| 0 <= m < nproofs ==> #[trigger] public_inputs@[m]@.len() == want,
                fr_val(acc) == spec_combined_vals(public_inputs@, r_powers@, j as int, k as int),
            decreases nproofs - k,
        {
            acc = fr_add(&acc, &fr_mul(&r_powers[k], &public_inputs[k][j]));
            k = k + 1;
        }
        combined.push(acc);
        j = j + 1;
    }

    let mut gic: G1Elem = g1_scale_point(&gabc[0], &r_sum);
    let mut j2: usize = 0;
    while j2 < want
        invariant
            j2 <= want,
            want + 1 == gabc@.len(),
            combined@.len() == want,
            gic == spec_gic(gabc@, combined@, r_sum, j2 as int),
        decreases want - j2,
    {
        gic = g1_fold_point(&gic, &gabc[j2 + 1], &combined[j2]);
        j2 = j2 + 1;
    }

    let alpha_beta = pvk_alpha_g1_beta_g2(pvk);
    let gamma = pvk_gamma_g2(pvk);
    let delta = pvk_delta_g2(pvk);

    let ok1 = fq12_eq(
        &acc_ab0,
        &fq12_mul(
            &compute_pairing(&p.final_a, &p.final_vkey.0),
            &compute_pairing(&p.final_wkey.0, &p.final_b),
        ),
    );
    let ok2 = fq12_eq(
        &acc_ab1,
        &fq12_mul(
            &compute_pairing(&p.final_a, &p.final_vkey.1),
            &compute_pairing(&p.final_wkey.1, &p.final_b),
        ),
    );
    let ok3 = fq12_eq(&acc_zab, &compute_pairing(&p.final_a, &p.final_b));
    let ok4 = fq12_eq(&acc_c0, &compute_pairing(&p.final_c, &p.final_vkey.0));
    let ok5 = fq12_eq(&acc_c1, &compute_pairing(&p.final_c, &p.final_vkey.1));
    let ok6 = g1_eq(&acc_zc, &g1_scale_point(&p.final_c, &y_c));
    let h_yv = g2_scale_point(&ver_srs.h, &y_v);
    let g_z = g1_scale_point(&ver_srs.g, &z);
    let ok7 = fq12_eq(
        &fq12_mul(
            &compute_pairing(&ver_srs.g_alpha, &p.vkey_opening.0),
            &compute_pairing(&ver_srs.g, &h_yv),
        ),
        &fq12_mul(
            &compute_pairing(&g_z, &p.vkey_opening.0),
            &compute_pairing(&ver_srs.g, &p.final_vkey.0),
        ),
    );
    let ok8 = fq12_eq(
        &fq12_mul(
            &compute_pairing(&ver_srs.g_beta, &p.vkey_opening.1),
            &compute_pairing(&ver_srs.g, &h_yv),
        ),
        &fq12_mul(
            &compute_pairing(&g_z, &p.vkey_opening.1),
            &compute_pairing(&ver_srs.g, &p.final_vkey.1),
        ),
    );
    let g_yw = g1_scale_point(&ver_srs.g, &y_w);
    let h_z = g2_scale_point(&ver_srs.h, &z);
    let ok9 = fq12_eq(
        &fq12_mul(
            &compute_pairing(&p.wkey_opening.0, &ver_srs.h_alpha),
            &compute_pairing(&g_yw, &ver_srs.h),
        ),
        &fq12_mul(
            &compute_pairing(&p.wkey_opening.0, &h_z),
            &compute_pairing(&p.final_wkey.0, &ver_srs.h),
        ),
    );
    let ok10 = fq12_eq(
        &fq12_mul(
            &compute_pairing(&p.wkey_opening.1, &ver_srs.h_beta),
            &compute_pairing(&g_yw, &ver_srs.h),
        ),
        &fq12_mul(
            &compute_pairing(&p.wkey_opening.1, &h_z),
            &compute_pairing(&p.final_wkey.1, &ver_srs.h),
        ),
    );
    let ok11 = fq12_eq(
        &p.ip_ab,
        &fq12_mul(
            &fq12_pow(&alpha_beta, &r_sum),
            &fq12_mul(&compute_pairing(&gic, &gamma), &compute_pairing(&p.agg_c, &delta)),
        ),
    );
    let all_ok = ok1 && ok2 && ok3 && ok4 && ok5 && ok6 && ok7 && ok8 && ok9 && ok10 && ok11;
    proof {
        assert(spec_derived(
            public_inputs@,
            pvk_gamma_abc(*pvk),
            challenges@,
            challenges_inv@,
            rr,
            r_inv,
            one_s,
            z,
            y_v,
            y_w,
            y_c,
            r_powers@,
            r_sum,
            combined@,
        ));
        if all_ok {
            assert(spec_equations(
                *ver_srs,
                pvk_alpha_beta(*pvk),
                pvk_gamma(*pvk),
                pvk_delta(*pvk),
                pvk_gamma_abc(*pvk),
                *p,
                challenges@,
                challenges_inv@,
                z,
                y_v,
                y_w,
                y_c,
                r_sum,
                combined@,
            ));
        } else {
            assert(!spec_equations(
                *ver_srs,
                pvk_alpha_beta(*pvk),
                pvk_gamma(*pvk),
                pvk_delta(*pvk),
                pvk_gamma_abc(*pvk),
                *p,
                challenges@,
                challenges_inv@,
                z,
                y_v,
                y_w,
                y_c,
                r_sum,
                combined@,
            ));
        }
        assert(first_accepted_at(
            spec_trace_end(spec_post_r_state(t_start, public_inputs@, *p, n_r), states),
            "z-challenge"@,
            n_z,
        ));
        assert(spec_challenges_bound(
            t_start,
            t_final,
            public_inputs@,
            *p,
            rr,
            challenges@,
            z,
        ));
        assert(*transcript == t_final);
        // Sampling succeeded at every level of this run, and the replay is
        // deterministic, so no replay of the same run exhausts.
        assert(!spec_sampling_exhausted(t_start, public_inputs@, *p)) by {
            let th = spec_header_state(t_start, public_inputs@, *p);
            assert(first_accepted_at(th, "r-random-fiatshamir"@, n_r));
            assert(spec_round_trace(
                spec_post_r_state(t_start, public_inputs@, *p, n_r),
                *p,
                challenges@,
                states,
            ));
            if spec_sampling_exhausted(t_start, public_inputs@, *p) {
                if spec_draws_exhausted(th, "r-random-fiatshamir"@) {
                    assert(!draw_accepted(th, "r-random-fiatshamir"@, n_r));
                    assert(false);
                } else {
                    let (m_r, ys, ts) = choose|m_r: nat, ys: Seq<Scalar>, ts: Seq<Transcript>|
                        #![trigger spec_round_trace(
                            spec_post_r_state(t_start, public_inputs@, *p, m_r),
                            *p,
                            ys,
                            ts,
                        )]
                        {
                            let tt3 = spec_post_r_state(t_start, public_inputs@, *p, m_r);
                            &&& m_r < CHALLENGE_ATTEMPTS
                            &&& first_accepted_at(th, "r-random-fiatshamir"@, m_r)
                            &&& ys.len() == ts.len()
                            &&& ys.len() <= p.comms_ab@.len()
                            &&& spec_round_trace(tt3, *p, ys, ts)
                            &&& if ys.len() < p.comms_ab@.len() {
                                spec_draws_exhausted(
                                    spec_round_appends(spec_trace_end(tt3, ts), *p, ys.len() as int),
                                    "gipa-challenge"@,
                                )
                            } else {
                                spec_draws_exhausted(spec_trace_end(tt3, ts), "z-challenge"@)
                            }
                        };
                    lemma_challenge_scalar_deterministic(th, "r-random-fiatshamir"@, n_r, m_r);
                    assert(spec_post_r_state(t_start, public_inputs@, *p, m_r) == t3);
                    lemma_trace_agree_upto(
                        t3,
                        *p,
                        challenges@,
                        states,
                        ys,
                        ts,
                        ys.len() as int,
                    );
                    if ys.len() < p.comms_ab@.len() {
                        let j0 = ys.len() as int;
                        assert(spec_trace_end(t3, ts) == spec_trace_prev(t3, states, j0));
                        assert(spec_round_step(
                            spec_trace_prev(t3, states, j0),
                            *p,
                            j0,
                            challenges@[j0],
                            states[j0],
                        ));
                        let ta = spec_round_appends(spec_trace_prev(t3, states, j0), *p, j0);
                        let na = choose|n: nat|
                            {
                                &&& n < CHALLENGE_ATTEMPTS
                                &&& #[trigger] first_accepted_at(ta, "gipa-challenge"@, n)
                                &&& challenges@[j0] == draw_scalar(ta, "gipa-challenge"@, n)
                                &&& states[j0] == nth_state(ta, "gipa-challenge"@, n + 1)
                            };
                        assert(!draw_accepted(ta, "gipa-challenge"@, na));
                        assert(false);
                    } else {
                        assert(ys.len() == p.comms_ab@.len());
                        assert(states[p.comms_ab@.len() - 1] == ts[p.comms_ab@.len() - 1]);
                        assert(spec_trace_end(t3, ts) == spec_trace_end(t3, states));
                        assert(!draw_accepted(spec_trace_end(t3, ts), "z-challenge"@, n_z));
                        assert(false);
                    }
                }
            }
        };
    }
    if all_ok {
        Ok(())
    } else {
        Err(Error::InvalidProof)
    }
}

/// The caller-facing verification boundary, over storage-free state.
pub struct Verifier {}

impl Verifier {
    /// Verifies an aggregate proof handed in as three serialized byte
    /// buffers (verifier SRS, prepared verifying key, aggregate proof),
    /// against the given batch of public inputs. Any buffer that fails to
    /// decode yields `false`, indistinguishable from a well-formed but
    /// invalid proof; when all three decode, the verdict is the verifier's
    /// verdict on exactly the decoded values, over a transcript seeded with
    /// the fixed aggregation label.
    pub fn verify_aggregate_proof_custom(
        ver_srs_bytes: Vec<u8>,
        pvk_bytes: Vec<u8>,
        aggregate_proof_bytes: Vec<u8>,
        public_inputs: &Vec<Vec<Scalar>>,
    ) -> (r: bool)
        ensures
            spec_decode_verifier_srs(ver_srs_bytes@) is None ==> r == false,
            pvk_of_bytes(pvk_bytes@) is None ==> r == false,
            !spec_proof_decodable(aggregate_proof_bytes@) ==> r == false,
            (spec_decode_verifier_srs(ver_srs_bytes@) is Some && pvk_of_bytes(pvk_bytes@) is Some
                && spec_proof_decodable(aggregate_proof_bytes@)) ==> exists|p: AggregateProof|
                {
                    let srs = spec_decode_verifier_srs(ver_srs_bytes@)->Some_0;
                    let k = pvk_of_bytes(pvk_bytes@)->Some_0;
                    let t0 = merlin_new("test aggregation"@);
                    &&& #[trigger] spec_decodes_to(aggregate_proof_bytes@, p)
                    &&& (r == true ==> spec_structure_ok(srs, pvk_gamma_abc(k), public_inputs@, p)
                        && spec_some_accepting_run(t0, srs, k, public_inputs@, p))
                    &&& (r == false ==> (!spec_structure_ok(srs, pvk_gamma_abc(k), public_inputs@, p)
                        || spec_sampling_exhausted(t0, public_inputs@, p)
                        || spec_some_rejecting_run(t0, srs, k, public_inputs@, p)))
                },
    {
        let ver_srs = match decode_verifier_srs(&ver_srs_bytes) {
            Some(s) => s,
            None => {
                return false;
            },
        };
        let pvk = match pvk_from_bytes(&pvk_bytes) {
            Some(k) => k,
            None => {
                return false;
            },
        };
        let agg_proof = match decode_aggregate_proof(&aggregate_proof_bytes) {
            Some(p) => p,
            None => {
                return false;
            },
        };
        proof {
            reveal_strlit("test aggregation");
        }
        let mut transcript = new_merlin_transcript("test aggregation");
        let ghost t0 = transcript;
        match verify_aggregate_proof(&ver_srs, &pvk, public_inputs, &agg_proof, &mut transcript) {
            Ok(()) => {
                proof {
                    assert(spec_structure_ok(
                        ver_srs,
                        pvk_gamma_abc(pvk),
                        public_inputs@,
                        agg_proof,
                    ));
                    assert(spec_accepting_run(
                        t0,
                        transcript,
                        ver_srs,
                        pvk,
                        public_inputs@,
                        agg_proof,
                    ));
                    assert(spec_some_accepting_run(t0, ver_srs, pvk, public_inputs@, agg_proof));
                }
                true
            },
            Err(e) => {
                proof {
                    if e == Error::MalformedInput {
                        assert(!spec_structure_ok(
                            ver_srs,
                            pvk_gamma_abc(pvk),
                            public_inputs@,
                            agg_proof,
                        ));
                    } else if e == Error::ChallengeFailure {
                        assert(spec_sampling_exhausted(t0, public_inputs@, agg_proof));
                    } else {
                        assert(e == Error::InvalidProof);
                        assert(spec_rejecting_run(
                            t0,
                            transcript,
                            ver_srs,
                            pvk,
                            public_inputs@,
                            agg_proof,
                        ));
                        assert(spec_some_rejecting_run(
                            t0,
                            ver_srs,
                            pvk,
                            public_inputs@,
                            agg_proof,
                        ));
                    }
                }
                false
            },
        }
    }
}

} // verus!
