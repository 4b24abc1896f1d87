//! Server-side session state: the registry of user commitments and the
//! registry of in-flight authentication attempts.
//!
//! The store exposes three atomic operations — [`SessionStore::register`],
//! [`SessionStore::begin_challenge`] and [`SessionStore::consume_attempt`]
//! — so callers never handle the collections directly.  Usernames are
//! unique, attempt identifiers are unique and handed out by a counter,
//! and an attempt is consumable at most once and only within its
//! time-to-live.

use crate::big::Big;
use vstd::prelude::*;

verus! {

/// A registered user's long-term commitment `(y1, y2)`.  One record per
/// username; immutable once registered.
#[derive(Debug)]
pub struct UserRecord {
    pub username: Vec<u8>,
    pub y1: Big,
    pub y2: Big,
}

/// The ephemeral state of one authentication attempt: the prover's
/// nonce commitment, the challenge issued for it, and the creation time
/// against which expiry is measured.
#[derive(Debug)]
pub struct AuthAttempt {
    pub attempt_id: u64,
    pub username: Vec<u8>,
    pub r1: Big,
    pub r2: Big,
    pub challenge_c: Big,
    pub created_at: u64,
}

/// The username is already taken.
#[derive(Clone, Copy, Debug, PartialEq, Eq, Structural)]
pub enum RegisterError {
    AlreadyRegistered,
}

/// No user record exists for the username.
#[derive(Clone, Copy, Debug, PartialEq, Eq, Structural)]
pub enum ChallengeError {
    UnknownUser,
}

/// The attempt is absent, already consumed, or past its time-to-live.
#[derive(Clone, Copy, Debug, PartialEq, Eq, Structural)]
pub enum ConsumeError {
    AttemptNotFound,
}

/// An attempt is expired once more than `ttl` time units have passed
/// since its creation.
pub open spec fn is_expired(created_at: u64, ttl: u64, now: u64) -> bool {
    now > created_at + ttl
}

/// Byte-string equality, used to compare usernames.
pub fn bytes_eq(a: &Vec<u8>, b: &Vec<u8>) -> (r: bool)
    ensures
        r == (a@ == b@),
{
    if a.len() != b.len() {
        return false;
    }
    let mut i: usize = 0;
    while i < a.len()
        invariant
            i <= a@.len(),
            a@.len() == b@.len(),
            forall|j: int| 0 <= j < i ==> a@[j] == b@[j],
        decreases a@.len() - i,
    {
        if a[i] != b[i] {
            return false;
        }
        i = i + 1;
    }
    proof {
        assert(a@ =~= b@);
    }
    true
}

/// The shared mutable state of the verifier: user records, in-flight
/// attempts, the attempt-identifier counter, and the attempts'
/// time-to-live.
pub struct SessionStore {
    pub users: Vec<UserRecord>,
    pub attempts: Vec<AuthAttempt>,
    pub next_attempt_id: u64,
    pub ttl: u64,
}

impl SessionStore {
    /// Some user record carries this username.
    pub open spec fn has_user(&self, name: Seq<u8>) -> bool {
        exists|i: int| 0 <= i < self.users@.len() && self.users@[i].username@ == name
    }

    /// Some attempt carries this identifier.
    pub open spec fn has_attempt(&self, id: u64) -> bool {
        exists|i: int| 0 <= i < self.attempts@.len() && self.attempts@[i].attempt_id == id
    }

    /// Some attempt carries this identifier and has not expired.
    pub open spec fn has_live_attempt(&self, id: u64, now: u64) -> bool {
        exists|i: int|
            0 <= i < self.attempts@.len() && self.attempts@[i].attempt_id == id && !is_expired(
                self.attempts@[i].created_at,
                self.ttl,
                now,
            )
    }

    /// Internal consistency: usernames are unique, attempt identifiers
    /// are unique and below the counter, and every attempt belongs to a
    /// registered user.
    pub open spec fn wf(&self) -> bool {
        &&& forall|i: int, j: int|
            #![trigger self.users@[i], self.users@[j]]
            0 <= i < j < self.users@.len() ==> self.users@[i].username@ != self.users@[j].username@
        &&& forall|i: int, j: int|
            #![trigger self.attempts@[i], self.attempts@[j]]
            0 <= i < j < self.attempts@.len() ==> self.attempts@[i].attempt_id
                != self.attempts@[j].attempt_id
        &&& forall|i: int|
            0 <= i < self.attempts@.len() ==> #[trigger] self.attempts@[i].attempt_id
                < self.next_attempt_id
        &&& forall|i: int|
            0 <= i < self.attempts@.len() ==> self.has_user(#[trigger] self.attempts@[i].username@)
    }

    /// An empty store whose attempts live for `ttl` time units.
    pub fn new(ttl: u64) -> (r: SessionStore)
        ensures
            r.wf(),
            r.users@.len() == 0,
            r.attempts@.len() == 0,
            r.next_attempt_id == 0,
            r.ttl == ttl,
    {
        SessionStore { users: Vec::new(), attempts: Vec::new(), next_attempt_id: 0, ttl }
    }

    /// Inserts a user record unless the username is taken; exactly one
    /// of two registrations of the same name can succeed.
    pub fn register(&mut self, username: Vec<u8>, y1: Big, y2: Big) -> (r: Result<
        (),
        RegisterError,
    >)
        requires
            old(self).wf(),
        ensures
            final(self).wf(),
            final(self).ttl == old(self).ttl,
            final(self).next_attempt_id == old(self).next_attempt_id,
            final(self).attempts@ == old(self).attempts@,
            r matches Err(_) <==> old(self).has_user(username@),
            final(self).has_user(username@),
            match r {
                Ok(()) => final(self).users@ == old(self).users@.push(
                    (UserRecord { username, y1, y2 }),
                ),
                Err(e) => e == RegisterError::AlreadyRegistered && final(self).users@ == old(self).users@,
            },
    {
        match find_user_index(&self.users, &username) {
            Some(i) => {
                proof {
                    assert(old(self).has_user(username@));
                }
                Err(RegisterError::AlreadyRegistered)
            },
            None => {
                let record = UserRecord { username, y1, y2 };
                self.users.push(record);
                proof {
                    let n = self.users@.len() - 1;
                    assert(self.users@[n].username@ == old(self).users@.push(
                        (UserRecord { username, y1, y2 }),
                    )[n].username@);
                    assert(self.has_user(self.users@[n].username@));
                    assert forall|i: int|
                        0 <= i < self.attempts@.len() implies self.has_user(
                        #[trigger] self.attempts@[i].username@,
                    ) by {
                        let w = choose|j: int|
                            0 <= j < old(self).users@.len() && old(self).users@[j].username@
                                == old(self).attempts@[i].username@;
                        assert(self.users@[w].username@ == self.attempts@[i].username@);
                    }
                }
                Ok(())
            },
        }
    }

    /// Creates and stores an attempt for a registered user, stamped
    /// with the creation time, and returns its fresh identifier.
    pub fn begin_challenge(
        &mut self,
        username: Vec<u8>,
        r1: Big,
        r2: Big,
        challenge_c: Big,
        now: u64,
    ) -> (r: Result<u64, ChallengeError>)
        requires
            old(self).wf(),
            old(self).next_attempt_id < u64::MAX,
        ensures
            final(self).wf(),
            final(self).ttl == old(self).ttl,
            final(self).users@ == old(self).users@,
            r matches Err(_) <==> !old(self).has_user(username@),
            match r {
                Ok(id) => {
                    &&& id == old(self).next_attempt_id
                    &&& final(self).next_attempt_id == old(self).next_attempt_id + 1
                    &&& final(self).attempts@ == old(self).attempts@.push(
                        (AuthAttempt {
                            attempt_id: id,
                            username,
                            r1,
                            r2,
                            challenge_c,
                            created_at: now,
                        }),
                    )
                },
                Err(e) => e == ChallengeError::UnknownUser && *final(self) == *old(self),
            },
    {
        match find_user_index(&self.users, &username) {
            None => Err(ChallengeError::UnknownUser),
            Some(_) => {
                proof {
                    assert(old(self).has_user(username@));
                }
                let id = self.next_attempt_id;
                let attempt = AuthAttempt {
                    attempt_id: id,
                    username,
                    r1,
                    r2,
                    challenge_c,
                    created_at: now,
                };
                self.attempts.push(attempt);
                self.next_attempt_id = id + 1;
                proof {
                    assert forall|i: int|
                        0 <= i < self.attempts@.len() implies self.has_user(
                        #[trigger] self.attempts@[i].username@,
                    ) by {
                        if i < self.attempts@.len() - 1 {
                            assert(old(self).has_user(old(self).attempts@[i].username@));
                            let w = choose|j: int|
                                0 <= j < old(self).users@.len() && old(self).users@[j].username@
                                    == old(self).attempts@[i].username@;
                            assert(self.users@[w].username@ == self.attempts@[i].username@);
                        } else {
                            let w = choose|j: int|
                                0 <= j < old(self).users@.len() && old(self).users@[j].username@
                                    == username@;
                            assert(self.users@[w].username@ == self.attempts@[i].username@);
                        }
                    }
                }
                Ok(id)
            },
        }
    }

    /// Atomically removes and returns the attempt if it is present and
    /// within its time-to-live.  After a success no attempt with this
    /// identifier remains, so a second consumption of the same
    /// identifier fails; an absent, already consumed, or expired
    /// attempt leaves the store unchanged and fails.
    pub fn consume_attempt(&mut self, attempt_id: u64, now: u64) -> (r: Result<
        AuthAttempt,
        ConsumeError,
    >)
        requires
            old(self).wf(),
        ensures
            final(self).wf(),
            final(self).ttl == old(self).ttl,
            final(self).next_attempt_id == old(self).next_attempt_id,
            final(self).users@ == old(self).users@,
            r matches Ok(_) <==> old(self).has_live_attempt(attempt_id, now),
            match r {
                Ok(a) => {
                    &&& a.attempt_id == attempt_id
                    &&& !is_expired(a.created_at, old(self).ttl, now)
                    &&& exists|i: int|
                        0 <= i < old(self).attempts@.len() && old(self).attempts@[i] == a
                            && final(self).attempts@ == old(self).attempts@.remove(i)
                    &&& !final(self).has_attempt(attempt_id)
                },
                Err(e) => e == ConsumeError::AttemptNotFound && *final(self) == *old(self),
            },
    {
        match find_attempt_index(&self.attempts, attempt_id) {
            None => {
                proof {
                    assert(!old(self).has_live_attempt(attempt_id, now));
                }
                Err(ConsumeError::AttemptNotFound)
            },
            Some(i) => {
                let created_at = self.attempts[i].created_at;
                if now > created_at && now - created_at > self.ttl {
                    proof {
                        assert forall|j: int|
                            0 <= j < old(self).attempts@.len() && old(self).attempts@[j].attempt_id == attempt_id implies is_expired(
                            old(self).attempts@[j].created_at,
                            old(self).ttl,
                            now,
                        ) by {
                            assert(j == i as int);
                        }
                    }
                    Err(ConsumeError::AttemptNotFound)
                } else {
                    let a = self.attempts.remove(i);
                    proof {
                        let ii = i as int;
                        assert(final(self).attempts@ == old(self).attempts@.remove(ii));
                        assert forall|j: int|
                            0 <= j < self.attempts@.len() implies #[trigger] self.attempts@[j].attempt_id
                            != attempt_id by {
                            if j < ii {
                                assert(self.attempts@[j] == old(self).attempts@[j]);
                            } else {
                                assert(self.attempts@[j] == old(self).attempts@[j + 1]);
                            }
                        }
                        assert forall|j: int|
                            0 <= j < self.attempts@.len() implies self.has_user(
                            #[trigger] self.attempts@[j].username@,
                        ) by {
                            let jj: int = if j < ii {
                                j
                            } else {
                                j + 1
                            };
                            assert(old(self).has_user(old(self).attempts@[jj].username@));
                            let w = choose|u: int|
                                0 <= u < old(self).users@.len() && old(self).users@[u].username@
                                    == old(self).attempts@[jj].username@;
                            assert(self.users@[w].username@ == self.attempts@[j].username@);
                        }
                    }
                    Ok(a)
                }
            },
        }
    }

    /// Lazily removes every expired attempt, keeping live ones in
    /// order; the periodic sweep that bounds memory growth.
    #[verifier::loop_isolation(false)]
    pub fn sweep_expired(&mut self, now: u64)
        requires
            old(self).wf(),
        ensures
            final(self).wf(),
            final(self).ttl == old(self).ttl,
            final(self).next_attempt_id == old(self).next_attempt_id,
            final(self).users@ == old(self).users@,
            final(self).attempts@ == old(self).attempts@.filter(
                |a: AuthAttempt| !is_expired(a.created_at, old(self).ttl, now),
            ),
    {
        let ghost pred = |a: AuthAttempt| !is_expired(a.created_at, old(self).ttl, now);
        let ghost orig = old(self).attempts@;
        let ghost mut k: int = 0;
        let mut idx: usize = 0;
        proof {
            reveal(Seq::filter);
            assert(orig.subrange(0, 0) =~= Seq::<AuthAttempt>::empty());
            assert(self.attempts@ =~= orig.subrange(0, 0).filter(pred) + orig.skip(0));
        }
        while idx < self.attempts.len()
            invariant
                0 <= k <= orig.len(),
                self.users@ == old(self).users@,
                self.next_attempt_id == old(self).next_attempt_id,
                self.ttl == old(self).ttl,
                self.attempts@ == orig.subrange(0, k).filter(pred) + orig.skip(k),
                idx as int == orig.subrange(0, k).filter(pred).len(),
            decreases orig.len() - k,
        {
            proof {
                assert(self.attempts@.len() == idx + (orig.len() - k));
                assert(k < orig.len());
                assert(self.attempts@[idx as int] == orig.skip(k)[0]);
                assert(orig.skip(k)[0] == orig[k]);
            }
            let created_at = self.attempts[idx].created_at;
            let expired = now > created_at && now - created_at > self.ttl;
            proof {
                lemma_sweep_step(orig, pred, k, idx as int, self.attempts@);
                assert(expired == !pred(orig[k]));
            }
            if expired {
                self.attempts.remove(idx);
            } else {
                idx = idx + 1;
            }
            proof {
                k = k + 1;
            }
        }
        proof {
            assert(k == orig.len());
            assert(orig.subrange(0, orig.len() as int) =~= orig);
            assert(orig.skip(orig.len() as int) =~= Seq::<AuthAttempt>::empty());
            assert(self.attempts@ =~= orig.filter(pred));
            lemma_filter_keeps_wf(old(self).attempts@, pred, self.attempts@);
            assert forall|j: int|
                0 <= j < self.attempts@.len() implies self.has_user(
                #[trigger] self.attempts@[j].username@,
            ) by {
                let orig = choose|i: int|
                    0 <= i < old(self).attempts@.len() && old(self).attempts@[i]
                        == self.attempts@[j];
                assert(old(self).has_user(old(self).attempts@[orig].username@));
                let w = choose|u: int|
                    0 <= u < old(self).users@.len() && old(self).users@[u].username@ == old(self).attempts@[orig].username@;
                assert(self.users@[w].username@ == self.attempts@[j].username@);
            }
        }
    }

    /// Borrows the user record for a username, if one exists.
    pub fn find_user(&self, username: &Vec<u8>) -> (r: Option<&UserRecord>)
        ensures
            match r {
                Some(u) => exists|i: int|
                    0 <= i < self.users@.len() && self.users@[i] == *u && u.username@ == username@,
                None => !self.has_user(username@),
            },
    {
        match find_user_index(&self.users, username) {
            Some(i) => Some(&self.users[i]),
            None => None,
        }
    }
}

/// An attempt is consumable at most once.  A successful
/// [`SessionStore::consume_attempt`] leaves no attempt with the
/// identifier; this lemma closes the chain: a store without the
/// identifier has no live attempt for it, so by the consumption
/// contract a second call with the same identifier must fail.
pub proof fn lemma_consumed_attempt_stays_dead(store: SessionStore, id: u64, now: u64)
    requires
        !store.has_attempt(id),
    ensures
        !store.has_live_attempt(id, now),
{
}

/// An attempt is not consumable past its time-to-live.  In a
/// consistent store, once more than `ttl` time units have passed since
/// an attempt's creation, no live attempt with its identifier exists,
/// so by the consumption contract consuming it fails.
pub proof fn lemma_expired_attempt_not_live(store: SessionStore, i: int, now: u64)
    requires
        store.wf(),
        0 <= i < store.attempts@.len(),
        now > store.attempts@[i].created_at + store.ttl,
    ensures
        !store.has_live_attempt(store.attempts@[i].attempt_id, now),
{
    assert forall|j: int|
        0 <= j < store.attempts@.len() && #[trigger] store.attempts@[j].attempt_id
            == store.attempts@[i].attempt_id implies is_expired(
        store.attempts@[j].created_at,
        store.ttl,
        now,
    ) by {
        assert(j == i);
    }
}

/// One step of the expiry sweep: with the first `k` entries already
/// filtered and the rest untouched, handling entry `k` either keeps the
/// sequence (a kept entry) or removes the cursor position (an expired
/// one), and in both cases re-establishes the shape with `k + 1`
/// entries handled.
proof fn lemma_sweep_step(
    orig: Seq<AuthAttempt>,
    pred: spec_fn(AuthAttempt) -> bool,
    k: int,
    idx: int,
    cur: Seq<AuthAttempt>,
)
    requires
        0 <= k < orig.len(),
        idx == orig.subrange(0, k).filter(pred).len(),
        cur == orig.subrange(0, k).filter(pred) + orig.skip(k),
    ensures
        pred(orig[k]) ==> cur =~= orig.subrange(0, k + 1).filter(pred) + orig.skip(k + 1),
        !pred(orig[k]) ==> cur.remove(idx) =~= orig.subrange(0, k + 1).filter(pred) + orig.skip(
            k + 1,
        ),
{
    reveal(Seq::filter);
    let p = orig.subrange(0, k).filter(pred);
    let ext = orig.subrange(0, k + 1);
    assert(ext.drop_last() =~= orig.subrange(0, k));
    assert(ext.last() == orig[k]);
    assert(ext.filter(pred) == if pred(orig[k]) {
        p.push(orig[k])
    } else {
        p
    });
    if pred(orig[k]) {
        assert forall|m: int| 0 <= m < cur.len() implies cur[m] == (ext.filter(pred) + orig.skip(
            k + 1,
        ))[m] by {
            if m < idx {
            } else if m == idx {
                assert(cur[m] == orig.skip(k)[0]);
                assert(orig.skip(k)[0] == orig[k]);
            } else {
                assert(cur[m] == orig.skip(k)[m - idx]);
                assert(orig.skip(k)[m - idx] == orig[k + m - idx]);
                assert(orig.skip(k + 1)[m - idx - 1] == orig[k + m - idx]);
            }
        }
        assert(cur =~= ext.filter(pred) + orig.skip(k + 1));
    } else {
        let rem = cur.remove(idx);
        assert forall|m: int| 0 <= m < rem.len() implies rem[m] == (ext.filter(pred) + orig.skip(
            k + 1,
        ))[m] by {
            if m < idx {
                assert(rem[m] == cur[m]);
            } else {
                assert(rem[m] == cur[m + 1]);
                assert(cur[m + 1] == orig.skip(k)[m + 1 - idx]);
                assert(orig.skip(k)[m + 1 - idx] == orig[k + m + 1 - idx]);
                assert(orig.skip(k + 1)[m - idx] == orig[k + 1 + m - idx]);
            }
        }
        assert(rem =~= ext.filter(pred) + orig.skip(k + 1));
    }
}

/// Every element of a filtered sequence occurs in the original, and
/// the filtered sequence keeps the original's pairwise-distinct
/// identifiers.
proof fn lemma_filter_keeps_wf(
    s: Seq<AuthAttempt>,
    pred: spec_fn(AuthAttempt) -> bool,
    out: Seq<AuthAttempt>,
)
    requires
        out == s.filter(pred),
    ensures
        forall|j: int|
            0 <= j < out.len() ==> exists|i: int| 0 <= i < s.len() && s[i] == #[trigger] out[j],
        (forall|i: int, j: int|
            #![trigger s[i], s[j]]
            0 <= i < j < s.len() ==> s[i].attempt_id != s[j].attempt_id) ==> (forall|
            i: int,
            j: int,
        |
            #![trigger out[i], out[j]]
            0 <= i < j < out.len() ==> out[i].attempt_id != out[j].attempt_id),
        forall|i: int|
            0 <= i < out.len() ==> exists|k: int|
                0 <= k < s.len() && s[k].attempt_id == #[trigger] out[i].attempt_id,
    decreases s.len(),
{
    reveal(Seq::filter);
    if s.len() > 0 {
        lemma_filter_keeps_wf(s.drop_last(), pred, s.drop_last().filter(pred));
        let sub = s.drop_last().filter(pred);
        assert forall|j: int| 0 <= j < out.len() implies exists|i: int|
            0 <= i < s.len() && s[i] == #[trigger] out[j] by {
            if pred(s.last()) && j == out.len() - 1 {
                assert(s[s.len() - 1] == out[j]);
            } else {
                let i = choose|i: int| 0 <= i < s.drop_last().len() && s.drop_last()[i] == sub[j];
                assert(s[i] == out[j]);
            }
        }
        if forall|i: int, j: int|
            #![trigger s[i], s[j]]
            0 <= i < j < s.len() ==> s[i].attempt_id != s[j].attempt_id {
            assert forall|i: int, j: int|
                #![trigger out[i], out[j]]
                0 <= i < j < out.len() implies out[i].attempt_id != out[j].attempt_id by {
                let oi = choose|k: int| 0 <= k < s.len() && s[k] == out[i];
                let oj = choose|k: int| 0 <= k < s.len() && s[k] == out[j];
                assert(out[i].attempt_id == s[oi].attempt_id);
                assert(out[j].attempt_id == s[oj].attempt_id);
                if oi != oj {
                } else {
                    lemma_filter_distinct_positions(s, pred, i, j);
                }
            }
        }
    }
}

/// Distinct positions of a filtered sequence come from distinct
/// positions of the original.
proof fn lemma_filter_distinct_positions(
    s: Seq<AuthAttempt>,
    pred: spec_fn(AuthAttempt) -> bool,
    i: int,
    j: int,
)
    requires
        0 <= i < j < s.filter(pred).len(),
    ensures
        exists|a: int, b: int|
            0 <= a < b < s.len() && s[a] == s.filter(pred)[i] && s[b] == s.filter(pred)[j],
    decreases s.len(),
{
    reveal(Seq::filter);
    let out = s.filter(pred);
    let sub = s.drop_last().filter(pred);
    if pred(s.last()) && j == out.len() - 1 {
        lemma_filter_element_position(s.drop_last(), pred, i);
        let a = choose|a: int| 0 <= a < s.drop_last().len() && s.drop_last()[a] == sub[i];
        assert(s[a] == out[i] && s[s.len() - 1] == out[j]);
    } else {
        lemma_filter_distinct_positions(s.drop_last(), pred, i, j);
        let (a, b): (int, int) = choose|a: int, b: int|
            0 <= a < b < s.drop_last().len() && s.drop_last()[a] == sub[i] && s.drop_last()[b]
                == sub[j];
        assert(s[a] == out[i] && s[b] == out[j]);
    }
}

/// Every element of a filtered sequence has a position in the
/// original.
proof fn lemma_filter_element_position(s: Seq<AuthAttempt>, pred: spec_fn(AuthAttempt) -> bool, i: int)
    requires
        0 <= i < s.filter(pred).len(),
    ensures
        exists|a: int| 0 <= a < s.len() && s[a] == s.filter(pred)[i],
    decreases s.len(),
{
    reveal(Seq::filter);
    let out = s.filter(pred);
    let sub = s.drop_last().filter(pred);
    if s.len() > 0 {
        if pred(s.last()) && i == out.len() - 1 {
            assert(s[s.len() - 1] == out[i]);
        } else {
            lemma_filter_element_position(s.drop_last(), pred, i);
            let a = choose|a: int| 0 <= a < s.drop_last().len() && s.drop_last()[a] == sub[i];
            assert(s[a] == out[i]);
        }
    }
}

/// Finds the index of the user record with this username.
fn find_user_index(users: &Vec<UserRecord>, name: &Vec<u8>) -> (r: Option<usize>)
    ensures
        match r {
            Some(i) => i < users@.len() && users@[i as int].username@ == name@,
            None => forall|j: int| 0 <= j < users@.len() ==> users@[j].username@ != name@,
        },
{
    let mut i: usize = 0;
    while i < users.len()
        invariant
            i <= users@.len(),
            forall|j: int| 0 <= j < i ==> users@[j].username@ != name@,
        decreases users@.len() - i,
    {
        if bytes_eq(&users[i].username, name) {
            return Some(i);
        }
        i = i + 1;
    }
    None
}

/// Finds the index of the attempt with this identifier.
fn find_attempt_index(attempts: &Vec<AuthAttempt>, id: u64) -> (r: Option<usize>)
    ensures
        match r {
            Some(i) => i < attempts@.len() && attempts@[i as int].attempt_id == id,
            None => forall|j: int| 0 <= j < attempts@.len() ==> attempts@[j].attempt_id != id,
        },
{
    let mut i: usize = 0;
    while i < attempts.len()
        invariant
            i <= attempts@.len(),
            forall|j: int| 0 <= j < i ==> attempts@[j].attempt_id != id,
        decreases attempts@.len() - i,
    {
        if attempts[i].attempt_id == id {
            return Some(i);
        }
        i = i + 1;
    }
    None
}

} // verus!
