//! Client-side orchestration: one linear protocol run.
//!
//! The prover walks the stages Idle → Registered → ChallengeRequested →
//! Responded → Authenticated or Rejected, talking to the verifier
//! through whatever boundary the caller runs.  Between the challenge
//! request and the response it holds the secret nonce `k` in memory
//! only; the nonce is consumed by the response, so it can never serve
//! two challenges — reuse would leak the secret through the linear
//! relation between the two responses.

use crate::big::Big;
use crate::crypto::{
    create_nonce_commitment, create_register_commits, mod_exp_spec, prove_authentication,
    response_spec, Consts, CryptoError,
};
use vstd::prelude::*;

verus! {

/// The stages of one protocol run on the proving side.
#[derive(Clone, Copy, Debug, PartialEq, Eq, Structural)]
pub enum ProverStage {
    Idle,
    Registered,
    ChallengeRequested,
    Responded,
    Authenticated,
    Rejected,
}

/// Client-side protocol state: the current stage and, between the
/// challenge request and the response, the secret nonce.
pub struct Prover {
    pub stage: ProverStage,
    pub nonce_k: Option<Big>,
}

impl Prover {
    /// The nonce is held exactly while a challenge is outstanding.
    pub open spec fn wf(&self) -> bool {
        self.nonce_k is Some <==> self.stage is ChallengeRequested
    }

    /// A prover at the start of its run.
    pub fn new() -> (r: Prover)
        ensures
            r.wf(),
            r.stage is Idle,
            r.nonce_k is None,
    {
        Prover { stage: ProverStage::Idle, nonce_k: None }
    }

    /// The registration message: the commitment `(g^x, h^x) mod p` to
    /// send to the verifier.  A secret outside `[1, q)` is rejected
    /// before any computation.
    pub fn registration_commitment(&self, consts: &Consts, secret_x: &Big) -> (r: Result<
        (Big, Big),
        CryptoError,
    >)
        requires
            consts.wf(),
            self.stage is Idle,
        ensures
            match r {
                Ok(ys) => {
                    &&& 0 < secret_x@ < consts.q@
                    &&& ys.0@ == mod_exp_spec(consts.g@, secret_x@, consts.p@)
                    &&& ys.1@ == mod_exp_spec(consts.h@, secret_x@, consts.p@)
                },
                Err(e) => !(0 < secret_x@ < consts.q@) && e == CryptoError::InvalidSecret,
            },
    {
        create_register_commits(consts, secret_x)
    }

    /// Records the verifier's registration outcome: an accepted
    /// registration moves to Registered, a refused one (name taken)
    /// stays Idle so another name can be tried.
    pub fn complete_registration(&mut self, accepted: bool)
        requires
            old(self).wf(),
            old(self).stage is Idle,
        ensures
            final(self).wf(),
            final(self).nonce_k is None,
            final(self).stage == (if accepted {
                ProverStage::Registered
            } else {
                ProverStage::Idle
            }),
    {
        if accepted {
            self.stage = ProverStage::Registered;
        }
    }

    /// Draws a fresh nonce `k` in `[1, q)` from caller-supplied
    /// randomness, keeps it for the response step, and returns the
    /// nonce commitment `(g^k, h^k) mod p` to send with the challenge
    /// request.  Production callers must draw the randomness from a
    /// cryptographically secure source.
    pub fn start_authentication(&mut self, consts: &Consts, raw_nonce: &Big) -> (r: (Big, Big))
        requires
            old(self).wf(),
            consts.wf(),
            old(self).stage is Registered,
        ensures
            final(self).wf(),
            final(self).stage is ChallengeRequested,
            final(self).nonce_k matches Some(k) && {
                &&& k@ == 1 + (raw_nonce@ as int) % (consts.q@ - 1)
                &&& 1 <= k@ < consts.q@
                &&& r.0@ == mod_exp_spec(consts.g@, k@, consts.p@)
                &&& r.1@ == mod_exp_spec(consts.h@, k@, consts.p@)
            },
    {
        let (k, r1, r2) = create_nonce_commitment(consts, raw_nonce);
        self.nonce_k = Some(k);
        self.stage = ProverStage::ChallengeRequested;
        (r1, r2)
    }

    /// Computes the response `s = (k - c*x) mod q` to the verifier's
    /// challenge.  The stored nonce is consumed: answering a second
    /// challenge requires a fresh run with fresh randomness.
    pub fn respond(&mut self, consts: &Consts, secret_x: &Big, challenge_c: &Big) -> (s: Big)
        requires
            old(self).wf(),
            consts.wf(),
            old(self).stage is ChallengeRequested,
        ensures
            final(self).wf(),
            final(self).stage is Responded,
            final(self).nonce_k is None,
            old(self).nonce_k matches Some(k) && s@ == response_spec(
                k@,
                consts.q@,
                secret_x@,
                challenge_c@,
            ),
            s@ < consts.q@,
    {
        let taken = self.nonce_k.take();
        let s = match taken {
            Some(k) => prove_authentication(&k, &consts.q, secret_x, challenge_c),
            None => {
                proof {
                    assert(false);
                }
                Big::from_u64(0)
            },
        };
        self.stage = ProverStage::Responded;
        s
    }

    /// Records the verifier's verdict, ending the run.
    pub fn complete(&mut self, verdict: bool)
        requires
            old(self).wf(),
            old(self).stage is Responded,
        ensures
            final(self).wf(),
            final(self).nonce_k is None,
            final(self).stage == (if verdict {
                ProverStage::Authenticated
            } else {
                ProverStage::Rejected
            }),
    {
        if verdict {
            self.stage = ProverStage::Authenticated;
        } else {
            self.stage = ProverStage::Rejected;
        }
    }
}

} // verus!
