//! Closed-form evaluation of the implicit folding polynomial.
//!
//! The recursive fold leaves behind challenges `x_1 .. x_l` (held in reverse
//! application order). The polynomial they implicitly define evaluates at a
//! point `z` under a shift `r` to `∏_{j=0..l-1} (1 + x_{j+1} * (r*z)^(2^j))`,
//! computed in `O(l)` multiplications by iterated squaring of the running
//! term.

use vstd::prelude::*;
use crate::curve::{Scalar, fr_val, fr_modulus, fr_one, fr_add, fr_mul, fr_square};

verus! {

/// The value, after processing the remaining challenges, of an evaluation
/// that has already reached running product `res` with running term `power`.
pub open spec fn spec_poly_eval_loop(chals: Seq<Scalar>, res: nat, power: nat) -> nat
    decreases chals.len(),
{
    if chals.len() == 0 {
        res
    } else {
        let sq = (power * power) % fr_modulus();
        let term = (1 + (fr_val(chals[0]) * sq) % fr_modulus()) % fr_modulus();
        spec_poly_eval_loop(
            chals.subrange(1, chals.len() as int),
            (res * term) % fr_modulus(),
            sq,
        )
    }
}

/// One step of `spec_poly_eval_loop`, spelled out.
pub proof fn lemma_poly_loop_unfold(chals: Seq<Scalar>, res: nat, power: nat)
    requires
        chals.len() >= 1,
    ensures
        spec_poly_eval_loop(chals, res, power) == ({
            let sq = (power * power) % fr_modulus();
            let term = (1 + (fr_val(chals[0]) * sq) % fr_modulus()) % fr_modulus();
            spec_poly_eval_loop(chals.subrange(1, chals.len() as int), (res * term) % fr_modulus(), sq)
        }),
{
}

/// The value of the folding polynomial defined by `chals` (in reverse
/// application order) at point `z` under shift `r_shift`.
pub open spec fn spec_poly_eval(chals: Seq<Scalar>, z: Scalar, r_shift: Scalar) -> nat
    recommends
        chals.len() >= 1,
{
    let zr = (fr_val(z) * fr_val(r_shift)) % fr_modulus();
    let head = (1 + (fr_val(chals[0]) * zr) % fr_modulus()) % fr_modulus();
    spec_poly_eval_loop(chals.subrange(1, chals.len() as int), head, zr)
}

/// Evaluates the folding polynomial at `z` under the shift `r_shift`, from
/// the challenges in reverse application order: initialize the running term
/// to `r_shift * z` and the result to `1 + x_1 * term`; for each further
/// challenge square the term, then multiply the result by `1 + x_i * term`.
pub fn polynomial_evaluation_product_form_from_transcript(
    transcript: &Vec<Scalar>,
    z: &Scalar,
    r_shift: &Scalar,
) -> (r: Scalar)
    requires
        transcript@.len() >= 1,
    ensures
        fr_val(r) == spec_poly_eval(transcript@, *z, *r_shift),
        fr_val(r) < fr_modulus(),
{
    let n: usize = transcript.len();
    let mut power_zr: Scalar = fr_mul(z, r_shift);
    let one: Scalar = fr_one();
    let mut res: Scalar = fr_add(&one, &fr_mul(&transcript[0], &power_zr));
    let mut i: usize = 1;
    while i < n
        invariant
            1 <= i <= n,
            n == transcript@.len(),
            fr_val(one) == 1,
            fr_val(res) < fr_modulus(),
            spec_poly_eval(transcript@, *z, *r_shift) == spec_poly_eval_loop(
                transcript@.subrange(i as int, n as int),
                fr_val(res),
                fr_val(power_zr),
            ),
        decreases n - i,
    {
        let ghost pre = transcript@.subrange(i as int, n as int);
        let ghost old_res = fr_val(res);
        let ghost old_pow = fr_val(power_zr);
        power_zr = fr_square(&power_zr);
        let term = fr_add(&one, &fr_mul(&transcript[i], &power_zr));
        res = fr_mul(&res, &term);
        i = i + 1;
        proof {
            assert(pre[0] == transcript@[i - 1]);
            assert(pre.subrange(1, pre.len() as int) =~= transcript@.subrange(
                i as int,
                n as int,
            ));
            lemma_poly_loop_unfold(pre, old_res, old_pow);
            assert(fr_val(power_zr) == (old_pow * old_pow) % fr_modulus());
            assert(fr_val(term) == (1 + (fr_val(pre[0]) * fr_val(power_zr)) % fr_modulus())
                % fr_modulus());
            assert(fr_val(res) == (old_res * fr_val(term)) % fr_modulus());
        }
    }
    assert(transcript@.subrange(n as int, n as int).len() == 0);
    res
}

/// The folding polynomial on a single challenge evaluates to
/// `1 + x_1 * (r*z)`.
pub proof fn lemma_poly_eval_single(chals: Seq<Scalar>, z: Scalar, r_shift: Scalar)
    requires
        chals.len() == 1,
    ensures
        spec_poly_eval(chals, z, r_shift) == (1 + (fr_val(chals[0]) * ((fr_val(z) * fr_val(
            r_shift,
        )) % fr_modulus())) % fr_modulus()) % fr_modulus(),
{
    assert(chals.subrange(1, 1).len() == 0);
}

/// The folding polynomial on two challenges (in reverse order) evaluates to
/// `(1 + x_1 * (r*z)) * (1 + x_2 * (r*z)^2)`.
pub proof fn lemma_poly_eval_double(chals: Seq<Scalar>, z: Scalar, r_shift: Scalar)
    requires
        chals.len() == 2,
    ensures
        ({
            let zr = (fr_val(z) * fr_val(r_shift)) % fr_modulus();
            let zr2 = (zr * zr) % fr_modulus();
            let t1 = (1 + (fr_val(chals[0]) * zr) % fr_modulus()) % fr_modulus();
            let t2 = (1 + (fr_val(chals[1]) * zr2) % fr_modulus()) % fr_modulus();
            spec_poly_eval(chals, z, r_shift) == (t1 * t2) % fr_modulus()
        }),
{
    let tail = chals.subrange(1, 2);
    assert(tail[0] == chals[1]);
    let zr = (fr_val(z) * fr_val(r_shift)) % fr_modulus();
    let t1 = (1 + (fr_val(chals[0]) * zr) % fr_modulus()) % fr_modulus();
    lemma_poly_loop_unfold(tail, t1, zr);
    assert(tail.subrange(1, 1).len() == 0);
}

} // verus!
