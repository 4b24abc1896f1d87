//! The Chaum-Pedersen proof engine.
//!
//! Pure protocol computations over [`Big`] values: registration
//! commitments, nonce commitments, challenge reduction, the normalized
//! response `(k - c*x) mod q`, and the two verification equations.
//! The completeness of the protocol — an honest prover always passes —
//! is proved in [`lemma_completeness`].

use crate::big::{big_add, big_eq, big_lt, big_modpow, big_mul, big_rem, big_sub, Big};
use vstd::arithmetic::div_mod::{
    lemma_add_mod_noop_right, lemma_div_pos_is_pos, lemma_fundamental_div_mod,
    lemma_mod_add_multiples_vanish, lemma_mod_division_less_than_divisor, lemma_mod_twice,
    lemma_mul_mod_noop_general, lemma_small_mod, lemma_sub_mod_noop,
};
use vstd::arithmetic::power::{
    lemma1_pow, lemma_pow_adds, lemma_pow_mod_noop, lemma_pow_multiplies, pow,
};
use vstd::prelude::*;

verus! {

/// The public discrete-log domain: a modulus `p`, a subgroup order `q`,
/// and two generators `g` and `h` of that subgroup.  The parameters are
/// fixed at deployment and shared read-only; that nobody knows the
/// discrete log of `h` with respect to `g` is assumed of the trusted
/// setup and is not restated here.
pub struct Consts {
    pub g: Big,
    pub h: Big,
    pub p: Big,
    pub q: Big,
}

/// `b^e mod m` over mathematical naturals.
pub open spec fn mod_exp_spec(b: nat, e: nat, m: nat) -> nat
    recommends
        m > 0,
{
    (pow(b as int, e) % (m as int)) as nat
}

/// The normalized response `(k - c*x) mod q`: the remainder is taken in
/// `[0, q)` even when the raw difference `k - c*x` is negative.
pub open spec fn response_spec(k: nat, q: nat, x: nat, c: nat) -> nat
    recommends
        q > 0,
{
    ((k - c * x) % (q as int)) as nat
}

/// Both verification equations of the proof:
/// `r1 == g^s * y1^c mod p` and `r2 == h^s * y2^c mod p`.
pub open spec fn verify_spec(
    g: nat,
    h: nat,
    p: nat,
    y1: nat,
    y2: nat,
    r1: nat,
    r2: nat,
    c: nat,
    s: nat,
) -> bool {
    &&& r1 == (pow(g as int, s) * pow(y1 as int, c)) % (p as int)
    &&& r2 == (pow(h as int, s) * pow(y2 as int, c)) % (p as int)
}

impl Consts {
    /// Well-formed group parameters: `g` and `h` lie strictly between 1
    /// and `p`, the order `q` divides `p - 1`, and raising either
    /// generator to the `q`th power yields 1 modulo `p`.  That the order
    /// of each generator is exactly `q` (and not a proper divisor of it)
    /// is part of the trusted setup and not captured here.
    pub open spec fn wf(&self) -> bool {
        &&& self.p@ > 1
        &&& 1 < self.q@ < self.p@
        &&& 1 < self.g@ < self.p@
        &&& 1 < self.h@ < self.p@
        &&& pow(self.g@ as int, self.q@) % (self.p@ as int) == 1
        &&& pow(self.h@ as int, self.q@) % (self.p@ as int) == 1
        &&& (self.p@ - 1) % (self.q@ as int) == 0
    }

    /// Decides well-formedness of the parameters.
    pub fn valid(&self) -> (r: bool)
        ensures
            r == self.wf(),
    {
        let one = Big::from_u64(1);
        if !big_lt(&one, &self.p) {
            return false;
        }
        if !(big_lt(&one, &self.q) && big_lt(&self.q, &self.p)) {
            return false;
        }
        if !(big_lt(&one, &self.g) && big_lt(&self.g, &self.p)) {
            return false;
        }
        if !(big_lt(&one, &self.h) && big_lt(&self.h, &self.p)) {
            return false;
        }
        let gq = big_modpow(&self.g, &self.q, &self.p);
        if !big_eq(&gq, &one) {
            return false;
        }
        let hq = big_modpow(&self.h, &self.q, &self.p);
        if !big_eq(&hq, &one) {
            return false;
        }
        let zero = Big::from_u64(0);
        let p_minus_1 = big_sub(&self.p, &one);
        let rem = big_rem(&p_minus_1, &self.q);
        big_eq(&rem, &zero)
    }
}

/// Rejection of a secret exponent outside `[1, q)`.
#[derive(Clone, Copy, Debug, PartialEq, Eq, Structural)]
pub enum CryptoError {
    InvalidSecret,
}

/// Computes the long-term commitment `(g^x mod p, h^x mod p)` of a
/// secret `x`, rejecting any secret outside `[1, q)` before any
/// cryptographic computation.
pub fn create_register_commits(consts: &Consts, secret_x: &Big) -> (r: Result<
    (Big, Big),
    CryptoError,
>)
    requires
        consts.wf(),
    ensures
        match r {
            Ok(ys) => {
                &&& 0 < secret_x@ < consts.q@
                &&& ys.0@ == mod_exp_spec(consts.g@, secret_x@, consts.p@)
                &&& ys.1@ == mod_exp_spec(consts.h@, secret_x@, consts.p@)
            },
            Err(e) => !(0 < secret_x@ < consts.q@) && e == CryptoError::InvalidSecret,
        },
{
    let zero = Big::from_u64(0);
    if !(big_lt(&zero, secret_x) && big_lt(secret_x, &consts.q)) {
        return Err(CryptoError::InvalidSecret);
    }
    let y1 = big_modpow(&consts.g, secret_x, &consts.p);
    let y2 = big_modpow(&consts.h, secret_x, &consts.p);
    Ok((y1, y2))
}

/// Computes the response `s = (k - c*x) mod q`, normalized into
/// `[0, q)` even when the raw difference is negative.
pub fn prove_authentication(k: &Big, q: &Big, secret_x: &Big, challenge_c: &Big) -> (s: Big)
    requires
        q@ > 0,
    ensures
        s@ == response_spec(k@, q@, secret_x@, challenge_c@),
        s@ < q@,
{
    let cx = big_mul(challenge_c, secret_x);
    let cx_mod = big_rem(&cx, q);
    let k_mod = big_rem(k, q);
    let lifted = big_add(&k_mod, q);
    let diff = big_sub(&lifted, &cx_mod);
    let s = big_rem(&diff, q);
    proof {
        let ki = k@ as int;
        let cxi = (challenge_c@ * secret_x@) as int;
        let qi = q@ as int;
        lemma_mod_division_less_than_divisor(cxi, qi);
        lemma_mod_division_less_than_divisor(ki, qi);
        lemma_mod_add_multiples_vanish(ki % qi - cxi % qi, qi);
        lemma_sub_mod_noop(ki, cxi, qi);
        lemma_mod_division_less_than_divisor(ki - cxi, qi);
    }
    s
}

/// Checks both verification equations, `r1 == g^s * y1^c mod p` and
/// `r2 == h^s * y2^c mod p`.  Both are evaluated unconditionally before
/// the results are combined, so the running time does not reveal which
/// of the two failed.
pub fn verify_authentication(
    consts: &Consts,
    y1: &Big,
    y2: &Big,
    r1: &Big,
    r2: &Big,
    challenge_c: &Big,
    answer_s: &Big,
) -> (ok: bool)
    requires
        consts.p@ > 0,
    ensures
        ok == verify_spec(
            consts.g@,
            consts.h@,
            consts.p@,
            y1@,
            y2@,
            r1@,
            r2@,
            challenge_c@,
            answer_s@,
        ),
{
    let gs = big_modpow(&consts.g, answer_s, &consts.p);
    let y1c = big_modpow(y1, challenge_c, &consts.p);
    let prod1 = big_mul(&gs, &y1c);
    let r1_calc = big_rem(&prod1, &consts.p);
    let hs = big_modpow(&consts.h, answer_s, &consts.p);
    let y2c = big_modpow(y2, challenge_c, &consts.p);
    let prod2 = big_mul(&hs, &y2c);
    let r2_calc = big_rem(&prod2, &consts.p);
    let ok1 = big_eq(r1, &r1_calc);
    let ok2 = big_eq(r2, &r2_calc);
    proof {
        let pi = consts.p@ as int;
        lemma_mul_mod_noop_general(
            pow(consts.g@ as int, answer_s@),
            pow(y1@ as int, challenge_c@),
            pi,
        );
        lemma_mul_mod_noop_general(
            pow(consts.h@ as int, answer_s@),
            pow(y2@ as int, challenge_c@),
            pi,
        );
    }
    ok1 && ok2
}

/// Reduces caller-supplied randomness into a challenge in `[0, q)`.
/// The randomness itself is a capability of the caller: a fixed or
/// attacker-predictable input here forfeits soundness, so production
/// callers must draw it from a cryptographically secure source.
pub fn generate_challenge(consts: &Consts, raw: &Big) -> (c: Big)
    requires
        consts.q@ > 0,
    ensures
        c@ == raw@ % consts.q@,
        c@ < consts.q@,
{
    let c = big_rem(raw, &consts.q);
    proof {
        lemma_mod_division_less_than_divisor(raw@ as int, consts.q@ as int);
    }
    c
}

/// Draws a fresh nonce `k` in `[1, q)` from caller-supplied randomness
/// and computes its commitment `(g^k mod p, h^k mod p)`.  The nonce must
/// be used for exactly one protocol run: reusing it across two
/// challenges leaks the secret through the linear relation between the
/// two responses.
pub fn create_nonce_commitment(consts: &Consts, raw: &Big) -> (r: (Big, Big, Big))
    requires
        consts.wf(),
    ensures
        r.0@ == 1 + (raw@ as int) % (consts.q@ - 1),
        1 <= r.0@ < consts.q@,
        r.1@ == mod_exp_spec(consts.g@, r.0@, consts.p@),
        r.2@ == mod_exp_spec(consts.h@, r.0@, consts.p@),
{
    let one = Big::from_u64(1);
    let q_minus_1 = big_sub(&consts.q, &one);
    let reduced = big_rem(raw, &q_minus_1);
    let k = big_add(&reduced, &one);
    proof {
        lemma_mod_division_less_than_divisor(raw@ as int, (consts.q@ - 1) as int);
    }
    let r1 = big_modpow(&consts.g, &k, &consts.p);
    let r2 = big_modpow(&consts.h, &k, &consts.p);
    (k, r1, r2)
}

/// When `g^q mod p == 1`, an exponent of `g` matters only modulo `q`.
pub proof fn lemma_pow_mod_exponent_reduce(g: nat, q: nat, p: nat, a: nat)
    requires
        p > 1,
        q > 0,
        pow(g as int, q) % (p as int) == 1,
    ensures
        pow(g as int, a) % (p as int) == pow(g as int, a % q) % (p as int),
{
    let gi = g as int;
    let qi = q as int;
    let pi = p as int;
    let d = (a as int) / qi;
    let r: nat = a % q;
    lemma_fundamental_div_mod(a as int, qi);
    lemma_div_pos_is_pos(a as int, qi);
    let dn: nat = d as nat;
    assert(a == q * dn + r);
    lemma_pow_adds(gi, (q * dn) as nat, r);
    assert(pow(gi, a) == pow(gi, (q * dn) as nat) * pow(gi, r));
    lemma_pow_multiplies(gi, q, dn);
    assert(pow(gi, (q * dn) as nat) == pow(pow(gi, q), dn));
    lemma_pow_mod_noop(pow(gi, q), dn, pi);
    assert(pow(pow(gi, q) % pi, dn) % pi == pow(pow(gi, q), dn) % pi);
    lemma1_pow(dn);
    lemma_small_mod(1, p);
    assert(pow(pow(gi, q), dn) % pi == 1);
    lemma_mul_mod_noop_general(pow(pow(gi, q), dn), pow(gi, r), pi);
    assert((pow(pow(gi, q), dn) * pow(gi, r)) % pi == ((pow(pow(gi, q), dn) % pi) * pow(gi, r))
        % pi);
    lemma_mod_twice(pow(gi, r), pi);
    assert((1 * pow(gi, r)) == pow(gi, r));
}

/// Completeness for one generator: an honest prover's response makes
/// `g^s * y^c mod p` equal the nonce commitment `g^k mod p`.
proof fn lemma_completeness_one(g: nat, p: nat, q: nat, x: nat, k: nat, c: nat)
    requires
        p > 1,
        q > 0,
        pow(g as int, q) % (p as int) == 1,
    ensures
        (pow(g as int, response_spec(k, q, x, c)) * pow(mod_exp_spec(g, x, p) as int, c)) % (
        p as int) == mod_exp_spec(g, k, p),
{
    let gi = g as int;
    let pi = p as int;
    let qi = q as int;
    let s: nat = response_spec(k, q, x, c);
    let y: nat = mod_exp_spec(g, x, p);
    lemma_mod_division_less_than_divisor((k - c * x) as int, qi);

    // y^c mod p == g^(x*c) mod p
    lemma_pow_mod_noop(pow(gi, x), c, pi);
    lemma_pow_multiplies(gi, x, c);
    assert(pow(y as int, c) % pi == pow(gi, (x * c) as nat) % pi);

    // (g^s * y^c) mod p == g^(s + x*c) mod p
    lemma_mul_mod_noop_general(pow(gi, s), pow(y as int, c), pi);
    lemma_mul_mod_noop_general(pow(gi, s), pow(gi, (x * c) as nat), pi);
    lemma_pow_adds(gi, s, (x * c) as nat);
    assert((pow(gi, s) * pow(y as int, c)) % pi == pow(gi, (s + x * c) as nat) % pi);

    // the exponent reduces modulo q to k % q
    lemma_pow_mod_exponent_reduce(g, q, p, (s + x * c) as nat);
    assert(s == (k - c * x) % qi);
    lemma_add_mod_noop_right((x * c) as int, k - c * x, qi);
    assert((x * c + (k - c * x) % qi) % qi == (x * c + (k - c * x)) % qi);
    assert(x * c + (k - c * x) == k as int) by (nonlinear_arith);
    assert(((s + x * c) as nat) % q == k % q);

    // and the same reduction applied to k itself finishes the proof
    lemma_pow_mod_exponent_reduce(g, q, p, k);
    assert(pow(gi, (s + x * c) as nat) % pi == pow(gi, k) % pi);
}

/// Completeness of the protocol: for well-formed parameters, any secret
/// `x`, nonce `k` and challenge `c`, the honest response
/// `s = (k - c*x) mod q` passes verification against the registration
/// commitment `(g^x, h^x)` and the nonce commitment `(g^k, h^k)`.
pub proof fn lemma_completeness(g: nat, h: nat, p: nat, q: nat, x: nat, k: nat, c: nat)
    requires
        p > 1,
        q > 0,
        pow(g as int, q) % (p as int) == 1,
        pow(h as int, q) % (p as int) == 1,
    ensures
        verify_spec(
            g,
            h,
            p,
            mod_exp_spec(g, x, p),
            mod_exp_spec(h, x, p),
            mod_exp_spec(g, k, p),
            mod_exp_spec(h, k, p),
            c,
            response_spec(k, q, x, c),
        ),
{
    lemma_completeness_one(g, p, q, x, k, c);
    lemma_completeness_one(h, p, q, x, k, c);
}

/// The verification equations read the response only through its
/// residue modulo `q`: replacing `s` by `s mod q` changes neither
/// outcome.  Together with completeness this pins the accepted
/// responses down to the residue class of the honest one, as far as the
/// stated order conditions allow; that the class contains nothing else
/// rests on the generators having order exactly `q`, which is part of
/// the trusted setup.
pub proof fn lemma_verify_depends_on_residue(
    g: nat,
    h: nat,
    p: nat,
    q: nat,
    y1: nat,
    y2: nat,
    r1: nat,
    r2: nat,
    c: nat,
    s: nat,
)
    requires
        p > 1,
        q > 0,
        pow(g as int, q) % (p as int) == 1,
        pow(h as int, q) % (p as int) == 1,
    ensures
        verify_spec(g, h, p, y1, y2, r1, r2, c, s) == verify_spec(
            g,
            h,
            p,
            y1,
            y2,
            r1,
            r2,
            c,
            s % q,
        ),
{
    let gi = g as int;
    let hi = h as int;
    let pi = p as int;
    lemma_pow_mod_exponent_reduce(g, q, p, s);
    lemma_pow_mod_exponent_reduce(h, q, p, s);
    lemma_mul_mod_noop_general(pow(gi, s), pow(y1 as int, c), pi);
    lemma_mul_mod_noop_general(pow(gi, s % q), pow(y1 as int, c), pi);
    lemma_mul_mod_noop_general(pow(hi, s), pow(y2 as int, c), pi);
    lemma_mul_mod_noop_general(pow(hi, s % q), pow(y2 as int, c), pi);
}

} // verus!
