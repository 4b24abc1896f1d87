//! Server-side orchestration of the three protocol operations.
//!
//! [`ZkpAuthService`] wires the proof engine to the session store:
//! registration stores a commitment, a challenge request creates an
//! attempt and returns a fresh challenge, and verification consumes the
//! attempt and checks the proof equations.  Business outcomes (name
//! taken, bad or replayed proof) surface as booleans, never as errors,
//! so a caller cannot distinguish an unknown attempt from a failed
//! proof.

use crate::big::Big;
use crate::crypto::{generate_challenge, verify_authentication, verify_spec, Consts};
use crate::session::{is_expired, AuthAttempt, ChallengeError, SessionStore, UserRecord};
use vstd::prelude::*;

verus! {

/// The authentication service: the fixed group parameters and the
/// mutable session state.
pub struct ZkpAuthService {
    pub consts: Consts,
    pub store: SessionStore,
}

impl ZkpAuthService {
    /// Well-formed parameters and a consistent store.
    pub open spec fn wf(&self) -> bool {
        &&& self.consts.wf()
        &&& self.store.wf()
    }

    /// A fresh service over well-formed parameters whose attempts live
    /// for `ttl` time units.
    pub fn new(consts: Consts, ttl: u64) -> (r: ZkpAuthService)
        requires
            consts.wf(),
        ensures
            r.wf(),
            r.consts == consts,
            r.store.users@.len() == 0,
            r.store.attempts@.len() == 0,
            r.store.next_attempt_id == 0,
            r.store.ttl == ttl,
    {
        ZkpAuthService { consts, store: SessionStore::new(ttl) }
    }

    /// Stores the commitment `(y1, y2)` under the username.  The result
    /// is the business outcome: `true` exactly when the username was
    /// free, `false` when it was taken, in which case nothing changes.
    pub fn register(&mut self, username: Vec<u8>, y1: Big, y2: Big) -> (result: bool)
        requires
            old(self).wf(),
        ensures
            final(self).wf(),
            final(self).consts == old(self).consts,
            final(self).store.ttl == old(self).store.ttl,
            final(self).store.next_attempt_id == old(self).store.next_attempt_id,
            final(self).store.attempts@ == old(self).store.attempts@,
            result == !old(self).store.has_user(username@),
            result ==> final(self).store.users@ == old(self).store.users@.push(
                (UserRecord { username, y1, y2 }),
            ),
            !result ==> final(self).store.users@ == old(self).store.users@,
            final(self).store.has_user(username@),
    {
        match self.store.register(username, y1, y2) {
            Ok(()) => true,
            Err(_) => false,
        }
    }

    /// For a registered user, stores an attempt holding the prover's
    /// nonce commitment `(r1, r2)` and a fresh challenge reduced from
    /// the caller-supplied randomness, and returns the attempt
    /// identifier with the challenge.  An unregistered username is
    /// reported as [`ChallengeError::UnknownUser`] and changes nothing.
    pub fn create_authentication_challenge(
        &mut self,
        username: Vec<u8>,
        r1: Big,
        r2: Big,
        raw_challenge: &Big,
        now: u64,
    ) -> (r: Result<(u64, Big), ChallengeError>)
        requires
            old(self).wf(),
            old(self).store.next_attempt_id < u64::MAX,
        ensures
            final(self).wf(),
            final(self).consts == old(self).consts,
            final(self).store.users@ == old(self).store.users@,
            final(self).store.ttl == old(self).store.ttl,
            r matches Err(_) <==> !old(self).store.has_user(username@),
            match r {
                Ok(ic) => {
                    &&& ic.1@ == raw_challenge@ % old(self).consts.q@
                    &&& ic.1@ < old(self).consts.q@
                    &&& ic.0 == old(self).store.next_attempt_id
                    &&& final(self).store.next_attempt_id == old(self).store.next_attempt_id + 1
                    &&& final(self).store.attempts@ == old(self).store.attempts@.push(
                        final(self).store.attempts@.last(),
                    )
                    &&& final(self).store.attempts@.last().attempt_id == ic.0
                    &&& final(self).store.attempts@.last().username@ == username@
                    &&& final(self).store.attempts@.last().r1 == r1
                    &&& final(self).store.attempts@.last().r2 == r2
                    &&& final(self).store.attempts@.last().challenge_c@ == ic.1@
                    &&& final(self).store.attempts@.last().created_at == now
                },
                Err(e) => e == ChallengeError::UnknownUser && *final(self) == *old(self),
            },
    {
        let c = generate_challenge(&self.consts, raw_challenge);
        let stored = c.duplicate();
        match self.store.begin_challenge(username, r1, r2, stored, now) {
            Ok(id) => Ok((id, c)),
            Err(e) => Err(e),
        }
    }

    /// Consumes the attempt and checks the proof.  The verdict is
    /// `true` exactly when a live attempt with this identifier existed
    /// and the response satisfies both verification equations against
    /// the stored commitment and challenge; an absent, consumed or
    /// expired attempt yields `false` with nothing changed, so a replay
    /// is indistinguishable from a failed proof.
    pub fn verify_authentication(&mut self, attempt_id: u64, answer_s: &Big, now: u64) -> (verdict:
        bool)
        requires
            old(self).wf(),
        ensures
            final(self).wf(),
            final(self).consts == old(self).consts,
            final(self).store.users@ == old(self).store.users@,
            final(self).store.ttl == old(self).store.ttl,
            final(self).store.next_attempt_id == old(self).store.next_attempt_id,
            !old(self).store.has_live_attempt(attempt_id, now) ==> verdict == false && *final(self)
                == *old(self),
            old(self).store.has_live_attempt(attempt_id, now) ==> !final(self).store.has_attempt(
                attempt_id,
            ) && exists|i: int, j: int|
                {
                    &&& 0 <= i < old(self).store.attempts@.len()
                    &&& 0 <= j < old(self).store.users@.len()
                    &&& old(self).store.attempts@[i].attempt_id == attempt_id
                    &&& !is_expired(
                        old(self).store.attempts@[i].created_at,
                        old(self).store.ttl,
                        now,
                    )
                    &&& old(self).store.users@[j].username@
                        == old(self).store.attempts@[i].username@
                    &&& final(self).store.attempts@ == old(self).store.attempts@.remove(i)
                    &&& verdict == verify_spec(
                        old(self).consts.g@,
                        old(self).consts.h@,
                        old(self).consts.p@,
                        old(self).store.users@[j].y1@,
                        old(self).store.users@[j].y2@,
                        old(self).store.attempts@[i].r1@,
                        old(self).store.attempts@[i].r2@,
                        old(self).store.attempts@[i].challenge_c@,
                        answer_s@,
                    )
                },
    {
        match self.store.consume_attempt(attempt_id, now) {
            Err(_) => false,
            Ok(a) => {
                match self.store.find_user(&a.username) {
                    None => {
                        proof {
                            let i = choose|i: int|
                                0 <= i < old(self).store.attempts@.len() && old(
                                    self,
                                ).store.attempts@[i] == a && final(self).store.attempts@ == old(
                                    self,
                                ).store.attempts@.remove(i);
                            assert(old(self).store.has_user(old(self).store.attempts@[i].username@));
                            let j = choose|j: int|
                                0 <= j < old(self).store.users@.len() && old(
                                    self,
                                ).store.users@[j].username@ == a.username@;
                            assert(self.store.users@[j].username@ == a.username@);
                            assert(false);
                        }
                        false
                    },
                    Some(u) => {
                        let v = verify_authentication(
                            &self.consts,
                            &u.y1,
                            &u.y2,
                            &a.r1,
                            &a.r2,
                            &a.challenge_c,
                            answer_s,
                        );
                        proof {
                            let i = choose|i: int|
                                0 <= i < old(self).store.attempts@.len() && old(
                                    self,
                                ).store.attempts@[i] == a && final(self).store.attempts@ == old(
                                    self,
                                ).store.attempts@.remove(i);
                            let j = choose|j: int|
                                0 <= j < self.store.users@.len() && self.store.users@[j] == *u
                                    && u.username@ == a.username@;
                            assert({
                                &&& 0 <= i < old(self).store.attempts@.len()
                                &&& 0 <= j < old(self).store.users@.len()
                                &&& old(self).store.attempts@[i].attempt_id == attempt_id
                                &&& !is_expired(
                                    old(self).store.attempts@[i].created_at,
                                    old(self).store.ttl,
                                    now,
                                )
                                &&& old(self).store.users@[j].username@
                                    == old(self).store.attempts@[i].username@
                                &&& final(self).store.attempts@ == old(self).store.attempts@.remove(
                                    i,
                                )
                                &&& v == verify_spec(
                                    old(self).consts.g@,
                                    old(self).consts.h@,
                                    old(self).consts.p@,
                                    old(self).store.users@[j].y1@,
                                    old(self).store.users@[j].y2@,
                                    old(self).store.attempts@[i].r1@,
                                    old(self).store.attempts@[i].r2@,
                                    old(self).store.attempts@[i].challenge_c@,
                                    answer_s@,
                                )
                            });
                        }
                        v
                    },
                }
            },
        }
    }
}

} // verus!
