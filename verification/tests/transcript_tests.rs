use snarkpack::transcript::new_merlin_transcript;
use snarkpack::curve::{fr_eq, fr_inverse, fr_to_bytes};

#[test]
fn identical_transcripts_derive_identical_challenges() {
    let mut t1 = new_merlin_transcript("aggregation-test");
    let mut t2 = new_merlin_transcript("aggregation-test");
    t1.domain_sep();
    t2.domain_sep();
    t1.append("data", &vec![1u8, 2, 3]);
    t2.append("data", &vec![1u8, 2, 3]);
    let c1 = t1.challenge_scalar("challenge").unwrap();
    let c2 = t2.challenge_scalar("challenge").unwrap();
    assert!(fr_eq(&c1, &c2));
    // The states advanced identically, so the next draws also agree.
    let d1 = t1.challenge_scalar("challenge").unwrap();
    let d2 = t2.challenge_scalar("challenge").unwrap();
    assert!(fr_eq(&d1, &d2));
    // Successive draws from one transcript differ.
    assert!(!fr_eq(&c1, &d1));
}

#[test]
fn different_appends_diverge() {
    let mut t1 = new_merlin_transcript("aggregation-test");
    let mut t2 = new_merlin_transcript("aggregation-test");
    t1.domain_sep();
    t2.domain_sep();
    t1.append("data", &vec![1u8, 2, 3]);
    t2.append("data", &vec![1u8, 2, 4]);
    let c1 = t1.challenge_scalar("challenge").unwrap();
    let c2 = t2.challenge_scalar("challenge").unwrap();
    assert!(!fr_eq(&c1, &c2));
}

#[test]
fn different_labels_diverge() {
    let mut t1 = new_merlin_transcript("aggregation-test");
    let mut t2 = new_merlin_transcript("aggregation-test");
    let c1 = t1.challenge_scalar("challenge-a").unwrap();
    let c2 = t2.challenge_scalar("challenge-b").unwrap();
    assert!(!fr_eq(&c1, &c2));
}

#[test]
fn challenges_are_invertible() {
    let mut t = new_merlin_transcript("aggregation-test");
    t.domain_sep();
    let c = t.challenge_scalar("challenge").unwrap();
    assert!(fr_inverse(&c).is_some());
    // A challenge is a real 32-byte field element.
    assert_eq!(fr_to_bytes(&c).len(), 32);
}
