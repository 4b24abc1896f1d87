//! End-to-end protocol runs through the service and the prover.

use zkp_auth::big::Big;
use zkp_auth::crypto::Consts;
use zkp_auth::prover::{Prover, ProverStage};
use zkp_auth::server::ZkpAuthService;
use zkp_auth::session::ChallengeError;

fn toy_consts() -> Consts {
    Consts {
        g: Big::from_u64(4),
        h: Big::from_u64(9),
        p: Big::from_u64(23),
        q: Big::from_u64(11),
    }
}

fn name(s: &str) -> Vec<u8> {
    s.as_bytes().to_vec()
}

#[test]
fn full_protocol_run() {
    let mut service = ZkpAuthService::new(toy_consts(), 60);
    let consts = toy_consts();
    let secret_x = Big::from_u64(6);
    let mut prover = Prover::new();

    // Registration.
    let (y1, y2) = prover.registration_commitment(&consts, &secret_x).unwrap();
    let accepted = service.register(name("alice"), y1, y2);
    assert!(accepted);
    prover.complete_registration(accepted);
    assert_eq!(prover.stage, ProverStage::Registered);

    // Challenge request with the prover's nonce commitment.
    let (r1, r2) = prover.start_authentication(&consts, &Big::from_u64(6));
    let (attempt_id, challenge_c) = service
        .create_authentication_challenge(name("alice"), r1, r2, &Big::from_u64(25), 100)
        .unwrap();

    // Honest response: the verdict is true.
    let s = prover.respond(&consts, &secret_x, &challenge_c);
    let verdict = service.verify_authentication(attempt_id, &s, 110);
    assert!(verdict);
    prover.complete(verdict);
    assert_eq!(prover.stage, ProverStage::Authenticated);

    // Replaying the same attempt identifier is already consumed.
    assert!(!service.verify_authentication(attempt_id, &s, 111));

    // An unregistered user gets a not-found error at challenge time.
    assert_eq!(
        service
            .create_authentication_challenge(
                name("bob"),
                Big::from_u64(8),
                Big::from_u64(4),
                &Big::from_u64(25),
                100,
            )
            .unwrap_err(),
        ChallengeError::UnknownUser
    );
}

#[test]
fn wrong_secret_is_rejected() {
    let mut service = ZkpAuthService::new(toy_consts(), 60);
    let consts = toy_consts();
    let mut prover = Prover::new();

    let (y1, y2) = prover
        .registration_commitment(&consts, &Big::from_u64(6))
        .unwrap();
    assert!(service.register(name("alice"), y1, y2));
    prover.complete_registration(true);

    let (r1, r2) = prover.start_authentication(&consts, &Big::from_u64(3));
    let (attempt_id, challenge_c) = service
        .create_authentication_challenge(name("alice"), r1, r2, &Big::from_u64(19), 10)
        .unwrap();

    // Responding with a different secret than the registered one fails.
    let s = prover.respond(&consts, &Big::from_u64(5), &challenge_c);
    assert!(!service.verify_authentication(attempt_id, &s, 20));
}

#[test]
fn registering_a_taken_name_is_refused() {
    let mut service = ZkpAuthService::new(toy_consts(), 60);
    let consts = toy_consts();

    let prover = Prover::new();
    let (y1, y2) = prover
        .registration_commitment(&consts, &Big::from_u64(6))
        .unwrap();
    assert!(service.register(name("alice"), y1, y2));

    let (y1b, y2b) = prover
        .registration_commitment(&consts, &Big::from_u64(9))
        .unwrap();
    assert!(!service.register(name("alice"), y1b, y2b));
}

#[test]
fn expired_attempt_fails_verification() {
    let mut service = ZkpAuthService::new(toy_consts(), 60);
    let consts = toy_consts();
    let secret_x = Big::from_u64(6);
    let mut prover = Prover::new();

    let (y1, y2) = prover.registration_commitment(&consts, &secret_x).unwrap();
    assert!(service.register(name("alice"), y1, y2));
    prover.complete_registration(true);

    let (r1, r2) = prover.start_authentication(&consts, &Big::from_u64(6));
    let (attempt_id, challenge_c) = service
        .create_authentication_challenge(name("alice"), r1, r2, &Big::from_u64(25), 100)
        .unwrap();

    // The honest response, arriving one tick past the time-to-live, is
    // refused all the same.
    let s = prover.respond(&consts, &secret_x, &challenge_c);
    assert!(!service.verify_authentication(attempt_id, &s, 161));
}
