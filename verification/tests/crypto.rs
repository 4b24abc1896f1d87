//! Tests of the proof engine: the textbook scenario, response
//! normalization, challenge and nonce derivation, and sampled
//! soundness.

use zkp_auth::big::Big;
use zkp_auth::crypto::{
    create_nonce_commitment, create_register_commits, generate_challenge, prove_authentication,
    verify_authentication, Consts, CryptoError,
};

fn toy_consts() -> Consts {
    Consts {
        g: Big::from_u64(4),
        h: Big::from_u64(9),
        p: Big::from_u64(23),
        q: Big::from_u64(11),
    }
}

fn check(consts: &Consts, x: &Big, k: &Big, ys: (u64, u64), rs: (u64, u64), c: &Big, s: u64) {
    let (y1, y2) = create_register_commits(consts, x).unwrap();
    assert!(y1.eq_value(&Big::from_u64(ys.0)));
    assert!(y2.eq_value(&Big::from_u64(ys.1)));

    let s_computed = prove_authentication(k, &consts.q, x, c);
    assert!(s_computed.eq_value(&Big::from_u64(s)));
    let r1 = Big::from_u64(rs.0);
    let r2 = Big::from_u64(rs.1);
    assert!(verify_authentication(consts, &y1, &y2, &r1, &r2, c, &s_computed));
}

#[test]
fn toy_example() {
    let consts = &toy_consts();

    let x = &Big::from_u64(6);
    let k = &Big::from_u64(7);
    let ys = (2, 3);
    let rs = (8, 4);
    let c = &Big::from_u64(4);
    let s = 5;

    check(consts, x, k, ys, rs, c, s);
}

#[test]
fn bigger_numbers() {
    // Same small generators and order over a far larger modulus.  The
    // commitments and the response carry over, but the nonce
    // commitments (8, 4) are powers modulo 23, not modulo this `p`, so
    // the verification equations reject them here.
    let consts = &Consts {
        g: Big::from_u64(4),
        h: Big::from_u64(9),
        p: Big::from_u64(22_777_933_733),
        q: Big::from_u64(11),
    };

    let x = &Big::from_u64(6);
    let k = &Big::from_u64(7);
    let c = &Big::from_u64(4);

    let (y1, y2) = create_register_commits(consts, x).unwrap();
    assert!(y1.eq_value(&Big::from_u64(4096)));
    assert!(y2.eq_value(&Big::from_u64(531441)));

    let s = prove_authentication(k, &consts.q, x, c);
    assert!(s.eq_value(&Big::from_u64(5)));

    let r1 = Big::from_u64(8);
    let r2 = Big::from_u64(4);
    assert!(!verify_authentication(consts, &y1, &y2, &r1, &r2, c, &s));
}

#[test]
fn toy_wrong_response_rejected() {
    let consts = &toy_consts();
    let y1 = Big::from_u64(2);
    let y2 = Big::from_u64(3);
    let r1 = Big::from_u64(8);
    let r2 = Big::from_u64(4);
    let c = Big::from_u64(4);
    let wrong = Big::from_u64(6);
    assert!(!verify_authentication(consts, &y1, &y2, &r1, &r2, &c, &wrong));
}

#[test]
fn toy_parameters_are_valid() {
    assert!(toy_consts().valid());
}

#[test]
fn invalid_order_is_rejected() {
    // 4^12 mod 23 == 4, so 12 is not an order of the subgroup.
    let consts = Consts {
        g: Big::from_u64(4),
        h: Big::from_u64(9),
        p: Big::from_u64(23),
        q: Big::from_u64(12),
    };
    assert!(!consts.valid());
}

#[test]
fn response_is_normalized_into_range() {
    // k - c*x = 7 - 24 is negative; the response must still land in [0, q).
    let q = Big::from_u64(11);
    let s = prove_authentication(
        &Big::from_u64(7),
        &q,
        &Big::from_u64(6),
        &Big::from_u64(4),
    );
    assert!(s.lt_value(&q));
    assert!(s.eq_value(&Big::from_u64(5)));

    // 0 - 1*1 = -1 modulo 5 is 4.
    let q5 = Big::from_u64(5);
    let s2 = prove_authentication(
        &Big::from_u64(0),
        &q5,
        &Big::from_u64(1),
        &Big::from_u64(1),
    );
    assert!(s2.lt_value(&q5));
    assert!(s2.eq_value(&Big::from_u64(4)));
}

#[test]
fn secret_out_of_range_is_rejected() {
    let consts = &toy_consts();
    let zero = Big::from_u64(0);
    let too_big = Big::from_u64(11);
    assert_eq!(
        create_register_commits(consts, &zero).unwrap_err(),
        CryptoError::InvalidSecret
    );
    assert_eq!(
        create_register_commits(consts, &too_big).unwrap_err(),
        CryptoError::InvalidSecret
    );
    assert!(create_register_commits(consts, &Big::from_u64(10)).is_ok());
}

#[test]
fn sampled_wrong_responses_all_fail() {
    // For the toy group the honest response to (k=7, c=4) is 5; every
    // candidate in a wider range passes verification exactly when it
    // falls in the residue class of 5 modulo q.
    let consts = &toy_consts();
    let y1 = Big::from_u64(2);
    let y2 = Big::from_u64(3);
    let r1 = Big::from_u64(8);
    let r2 = Big::from_u64(4);
    let c = Big::from_u64(4);
    let mut candidate: u64 = 0;
    while candidate < 50 {
        let verdict =
            verify_authentication(consts, &y1, &y2, &r1, &r2, &c, &Big::from_u64(candidate));
        assert_eq!(verdict, candidate % 11 == 5);
        candidate += 1;
    }
}

#[test]
fn challenge_is_reduced_into_range() {
    let consts = &toy_consts();
    let c = generate_challenge(&consts, &Big::from_u64(25));
    assert!(c.eq_value(&Big::from_u64(3)));
    assert!(c.lt_value(&consts.q));
}

#[test]
fn nonce_commitment_from_raw_randomness() {
    let consts = &toy_consts();
    let (k, r1, r2) = create_nonce_commitment(&consts, &Big::from_u64(9));
    // k = 1 + 9 mod (11 - 1) = 10, and the commitments are 4^10 and
    // 9^10 modulo 23.
    assert!(k.eq_value(&Big::from_u64(10)));
    assert!(r1.eq_value(&Big::from_u64(6)));
    assert!(r2.eq_value(&Big::from_u64(18)));
}

#[test]
fn leading_zeros_do_not_change_a_value() {
    let canonical = Big::from_u64(22_777_933_733);
    let padded = Big::from_bytes(vec![0, 0, 5, 77, 171, 175, 165]);
    assert!(canonical.eq_value(&padded));
    assert_eq!(canonical.bytes().as_slice(), &[5, 77, 171, 175, 165]);
}
