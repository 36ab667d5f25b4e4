use sha2::{Digest, Sha256};
use swanky::block::U8x16;
use swanky::error::ErrorKind;
use swanky::f_eq::{check_commitment, salted_hash, EqualityFunctionality};
use swanky::f_rand::{check_seed, combine_seeds, commit_seed};
use swanky::party::{Prover, Verifier};

/// Both sides of the equality check; `(prover, verifier)` outcomes.
fn check_equality(input_pr: &[u8], input_vr: &[u8], salt: [u8; 32]) -> (bool, bool) {
    let mut pr = EqualityFunctionality::<Prover>::new(salt);
    pr.input(input_pr);
    let mut vr = EqualityFunctionality::<Verifier>::new([0u8; 32]);
    vr.input(input_vr);
    // Prover -> verifier: commitment; verifier -> prover: digest;
    // prover -> verifier: salt.
    let (commitment, salt) = pr.prover_commit();
    let digest_vr = vr.digest();
    let prover_ok = check_commitment(&commitment, &digest_vr, &salt).is_ok();
    let verifier_ok = check_commitment(&commitment, &digest_vr, &salt).is_ok();
    (prover_ok, verifier_ok)
}

#[test]
fn same_inputs_work() {
    for seed in 0..20u8 {
        let input = [seed; 32];
        assert_eq!(check_equality(&input, &input, [seed ^ 0x5a; 32]), (true, true));
    }
}

#[test]
fn different_inputs_fail() {
    for seed in 0..20u8 {
        let input_pr = [seed; 32];
        let mut input_vr = input_pr;
        input_vr[(seed as usize) % 32] ^= 1;
        let (p, v) = check_equality(&input_pr, &input_vr, [7u8; 32]);
        assert!(!p);
        assert!(!v);
    }
}

#[test]
fn inputs_are_concatenated() {
    let salt = [1u8; 32];
    let mut pr = EqualityFunctionality::<Prover>::new(salt);
    pr.input(b"ab");
    pr.input(b"cd");
    let mut vr = EqualityFunctionality::<Verifier>::new([0u8; 32]);
    vr.input(b"abcd");
    let (commitment, salt) = pr.prover_commit();
    assert!(check_commitment(&commitment, &vr.digest(), &salt).is_ok());
}

#[test]
fn salted_hash_is_sha256_of_digest_and_salt() {
    let digest = [3u8; 32];
    let salt = [9u8; 32];
    let mut h = Sha256::new();
    h.update(digest);
    h.update(salt);
    let expected: [u8; 32] = h.finalize().into();
    assert_eq!(salted_hash(&digest, &salt), expected);
    let mut d = Sha256::new();
    d.update(b"xyz");
    let mut vr = EqualityFunctionality::<Verifier>::new([0u8; 32]);
    vr.input(b"xyz");
    assert_eq!(vr.digest(), <[u8; 32]>::from(d.finalize()));
}

#[test]
fn failed_equality_check_reports_error() {
    let e = check_commitment(&[0u8; 32], &[1u8; 32], &[2u8; 32]).unwrap_err();
    assert_eq!(e.kind(), ErrorKind::OtherError);
    assert_eq!(e.message(), "Validation check failed");
}

#[test]
fn random_seed_works() {
    let seed_a: U8x16 = [0x11; 16];
    let seed_b: U8x16 = [0x2f; 16];
    // Sender commits, receiver answers with its seed, sender opens.
    let com = commit_seed(&seed_a);
    assert!(check_seed(&com, &seed_a).is_ok());
    let result_a = combine_seeds(&seed_a, &seed_b);
    let result_b = combine_seeds(&seed_b, &seed_a);
    assert_eq!(result_a, result_b);
    assert_eq!(result_a, [0x11 ^ 0x2f; 16]);
}

#[test]
fn malicious_sender_fails() {
    let seed_a: U8x16 = [0x11; 16];
    // The sender sends a commitment that is not the hash of its seed.
    let com = [32u8; 32];
    let e = check_seed(&com, &seed_a).unwrap_err();
    assert_eq!(e.kind(), ErrorKind::CorrelationFailure);
    assert_eq!(e.message(), "Commitment check failed");
}

#[test]
fn commitment_is_blake3_of_seed() {
    let seed: U8x16 = [5u8; 16];
    assert_eq!(commit_seed(&seed), *blake3::hash(&seed).as_bytes());
}
