use snarkpack::prover::polynomial_evaluation_product_form_from_transcript;
use snarkpack::structured_scalar_power;
use snarkpack::curve::{fr_from_u64, fr_one, fr_add, fr_mul, fr_square, fr_eq};

#[test]
fn single_challenge_evaluates_to_linear_term() {
    // l = 1: the evaluation is exactly 1 + x1*r*z.
    let x1 = fr_from_u64(7);
    let z = fr_from_u64(5);
    let r = fr_from_u64(3);
    let got = polynomial_evaluation_product_form_from_transcript(&vec![x1], &z, &r);
    let expected = fr_add(&fr_one(), &fr_mul(&x1, &fr_mul(&z, &r)));
    assert!(fr_eq(&got, &expected));
    // 1 + 7*15 = 106.
    assert!(fr_eq(&got, &fr_from_u64(106)));
}

#[test]
fn two_challenges_evaluate_to_the_product_form() {
    // l = 2, challenges in reverse order: (1 + x1*rz) * (1 + x2*(rz)^2).
    let x1 = fr_from_u64(7);
    let x2 = fr_from_u64(11);
    let z = fr_from_u64(5);
    let r = fr_from_u64(3);
    let got = polynomial_evaluation_product_form_from_transcript(&vec![x1, x2], &z, &r);
    let zr = fr_mul(&z, &r);
    let t1 = fr_add(&fr_one(), &fr_mul(&x1, &zr));
    let t2 = fr_add(&fr_one(), &fr_mul(&x2, &fr_square(&zr)));
    let expected = fr_mul(&t1, &t2);
    assert!(fr_eq(&got, &expected));
    // (1 + 7*15) * (1 + 11*225) = 106 * 2476 = 262456.
    assert!(fr_eq(&got, &fr_from_u64(262456)));
}

#[test]
fn forward_order_differs_from_reverse_order() {
    // Handing the challenges in forward order yields a different value: the
    // evaluator demands reverse application order.
    let x1 = fr_from_u64(7);
    let x2 = fr_from_u64(11);
    let z = fr_from_u64(5);
    let r = fr_from_u64(3);
    let rev = polynomial_evaluation_product_form_from_transcript(&vec![x1, x2], &z, &r);
    let fwd = polynomial_evaluation_product_form_from_transcript(&vec![x2, x1], &z, &r);
    assert!(!fr_eq(&rev, &fwd));
}

#[test]
fn structured_powers_start_at_one() {
    let s = fr_from_u64(3);
    let powers = structured_scalar_power(4, &s);
    assert_eq!(powers.len(), 4);
    assert!(fr_eq(&powers[0], &fr_one()));
    assert!(fr_eq(&powers[1], &fr_from_u64(3)));
    assert!(fr_eq(&powers[2], &fr_from_u64(9)));
    assert!(fr_eq(&powers[3], &fr_from_u64(27)));
}
