//! Durable challenge records and their status.
//!
//! Records are created in `WaitingForAcceptance`, never deleted, and only
//! move forward through `update_status`, whose expected-status guard keeps a
//! transition from being applied twice.

use vstd::prelude::*;

use crate::listing::{lemma_rev_filter_prepend, rev_filter};
use crate::models::{Challenge, ChallengeStatus, Color, EscrowError};

verus! {

/// Append-only store of challenge records, keyed by insertion order.
pub struct ChallengeStore {
    pub challenges: Vec<Challenge>,
}

impl ChallengeStore {
    /// The record with the given id, if any; ids start at 1.
    pub open spec fn has_challenge(self, id: int) -> bool {
        1 <= id <= self.challenges@.len()
    }

    pub open spec fn spec_challenge(self, id: int) -> Challenge {
        self.challenges@[id - 1]
    }

    pub open spec fn wf(self) -> bool {
        &&& self.challenges@.len() < i32::MAX
        &&& forall|i: int|
            0 <= i < self.challenges@.len() ==> #[trigger] self.challenges@[i].id == i + 1
        &&& forall|i: int|
            0 <= i < self.challenges@.len() ==> #[trigger] self.challenges@[i].sats >= 0
    }

    pub fn new() -> (s: ChallengeStore)
        ensures
            s.wf(),
            s.challenges@ =~= Seq::<Challenge>::empty(),
    {
        ChallengeStore { challenges: Vec::new() }
    }

    /// Insert a fresh challenge in `WaitingForAcceptance`; the stake is
    /// fixed here and never mutated afterwards.
    pub fn create(
        &mut self,
        creator: &String,
        opp_username: &String,
        time_limit: i32,
        opponent_time_limit: i32,
        increment: i32,
        color: Color,
        sats: i64,
        created_on: i64,
        expire_after: Option<i32>,
    ) -> (id: i32)
        requires
            old(self).wf(),
            old(self).challenges@.len() + 1 < i32::MAX,
            sats >= 0,
        ensures
            final(self).wf(),
            id == old(self).challenges@.len() + 1,
            final(self).challenges@ == old(self).challenges@.push(
                (Challenge {
                    id,
                    username: *creator,
                    time_limit,
                    opponent_time_limit,
                    increment,
                    color,
                    sats,
                    opp_username: *opp_username,
                    status: ChallengeStatus::WaitingForAcceptance,
                    lichess_challenge_id: None,
                    created_on,
                    expire_after,
                }),
            ),
    {
        let id: i32 = (self.challenges.len() + 1) as i32;
        let rec = Challenge {
            id,
            username: creator.clone(),
            time_limit,
            opponent_time_limit,
            increment,
            color,
            sats,
            opp_username: opp_username.clone(),
            status: ChallengeStatus::WaitingForAcceptance,
            lichess_challenge_id: None,
            created_on,
            expire_after,
        };
        self.challenges.push(rec);
        id
    }

    /// Look a challenge up by id.
    pub fn get(&self, id: i32) -> (r: Option<&Challenge>)
        ensures
            match r {
                Some(c) => self.has_challenge(id as int) && *c == self.spec_challenge(id as int),
                None => !self.has_challenge(id as int),
            },
    {
        if id < 1 || id as usize > self.challenges.len() {
            return None;
        }
        Some(&self.challenges[id as usize - 1])
    }

    /// The challenges a user takes part in, as creator or opponent,
    /// newest first.
    pub fn challenges_for(&self, user: &String) -> (r: Vec<Challenge>)
        ensures
            r@ == rev_filter(self.challenges@, involves_user_pred(user@)),
    {
        let ghost pred = involves_user_pred(user@);
        let mut r: Vec<Challenge> = Vec::new();
        let mut i: usize = self.challenges.len();
        proof {
            assert(self.challenges@.subrange(i as int, self.challenges@.len() as int)
                =~= Seq::<Challenge>::empty());
            assert(rev_filter(Seq::<Challenge>::empty(), pred) == Seq::<Challenge>::empty());
        }
        while i > 0
            invariant
                i <= self.challenges@.len(),
                pred == involves_user_pred(user@),
                r@ == rev_filter(
                    self.challenges@.subrange(i as int, self.challenges@.len() as int),
                    pred,
                ),
            decreases i,
        {
            i = i - 1;
            let ghost tail = self.challenges@.subrange(i + 1, self.challenges@.len() as int);
            let ghost cur = self.challenges@.subrange(i as int, self.challenges@.len() as int);
            proof {
                assert(cur =~= seq![self.challenges@[i as int]] + tail);
                lemma_rev_filter_prepend(self.challenges@[i as int], tail, pred);
            }
            if self.challenges[i].username == *user || self.challenges[i].opp_username == *user {
                r.push(self.challenges[i].duplicate());
                proof {
                    assert(r@ =~= rev_filter(cur, pred));
                }
            } else {
                proof {
                    assert(r@ =~= rev_filter(cur, pred));
                }
            }
        }
        proof {
            assert(self.challenges@.subrange(0, self.challenges@.len() as int)
                =~= self.challenges@);
        }
        r
    }

    /// The `Accepted` challenges a user takes part in, newest first: the
    /// input of the settlement sweep.
    pub fn accepted_challenges_for(&self, user: &String) -> (r: Vec<Challenge>)
        ensures
            r@ == rev_filter(self.challenges@, accepted_for_pred(user@)),
    {
        let ghost pred = accepted_for_pred(user@);
        let mut r: Vec<Challenge> = Vec::new();
        let mut i: usize = self.challenges.len();
        proof {
            assert(self.challenges@.subrange(i as int, self.challenges@.len() as int)
                =~= Seq::<Challenge>::empty());
            assert(rev_filter(Seq::<Challenge>::empty(), pred) == Seq::<Challenge>::empty());
        }
        while i > 0
            invariant
                i <= self.challenges@.len(),
                pred == accepted_for_pred(user@),
                r@ == rev_filter(
                    self.challenges@.subrange(i as int, self.challenges@.len() as int),
                    pred,
                ),
            decreases i,
        {
            i = i - 1;
            let ghost tail = self.challenges@.subrange(i + 1, self.challenges@.len() as int);
            let ghost cur = self.challenges@.subrange(i as int, self.challenges@.len() as int);
            proof {
                assert(cur =~= seq![self.challenges@[i as int]] + tail);
                lemma_rev_filter_prepend(self.challenges@[i as int], tail, pred);
            }
            let involved: bool = self.challenges[i].username == *user || self.challenges[i].opp_username
                == *user;
            if involved && self.challenges[i].status == ChallengeStatus::Accepted {
                r.push(self.challenges[i].duplicate());
                proof {
                    assert(r@ =~= rev_filter(cur, pred));
                }
            } else {
                proof {
                    assert(r@ =~= rev_filter(cur, pred));
                }
            }
        }
        proof {
            assert(self.challenges@.subrange(0, self.challenges@.len() as int)
                =~= self.challenges@);
        }
        r
    }

    /// Transition a challenge's status, conditioned on the stored status
    /// still being `expected`; a mismatch changes nothing and reports
    /// `InvalidState`, which prevents double-processing of the same
    /// transition. `game_id`, when given, records the external game id.
    pub fn update_status(
        &mut self,
        id: i32,
        expected: ChallengeStatus,
        new_status: ChallengeStatus,
        game_id: Option<String>,
    ) -> (r: Result<(), EscrowError>)
        requires
            old(self).wf(),
            valid_transition(expected, new_status),
        ensures
            final(self).wf(),
            !old(self).has_challenge(id as int) ==> {
                &&& r == Err::<(), EscrowError>(EscrowError::NotFound)
                &&& final(self).challenges@ == old(self).challenges@
            },
            old(self).has_challenge(id as int) && old(self).spec_challenge(id as int).status
                != expected ==> {
                &&& r == Err::<(), EscrowError>(EscrowError::InvalidState)
                &&& final(self).challenges@ == old(self).challenges@
            },
            old(self).has_challenge(id as int) && old(self).spec_challenge(id as int).status
                == expected ==> {
                &&& r == Ok::<(), EscrowError>(())
                &&& final(self).challenges@ == old(self).challenges@.update(
                    id - 1,
                    (Challenge {
                        status: new_status,
                        lichess_challenge_id: if game_id is Some {
                            game_id
                        } else {
                            old(self).spec_challenge(id as int).lichess_challenge_id
                        },
                        ..old(self).spec_challenge(id as int)
                    }),
                )
            },
    {
        if id < 1 || id as usize > self.challenges.len() {
            return Err(EscrowError::NotFound);
        }
        let k: usize = id as usize - 1;
        if self.challenges[k].status != expected {
            return Err(EscrowError::InvalidState);
        }
        let ghost old_cs = self.challenges@;
        let ghost old_rec = self.challenges@[k as int];
        let ghost ggame = game_id;
        self.challenges[k].status = new_status;
        match game_id {
            Some(g) => {
                self.challenges[k].lichess_challenge_id = Some(g);
            },
            None => {},
        }
        proof {
            assert(self.challenges@ =~= old_cs.update(
                k as int,
                (Challenge {
                    status: new_status,
                    lichess_challenge_id: if ggame is Some {
                        ggame
                    } else {
                        old_rec.lichess_challenge_id
                    },
                    ..old_rec
                }),
            ));
        }
        Ok(())
    }
}

/// The challenge lifecycle: a challenge waits for acceptance, is
/// accepted, and completes; no other transition is valid.
pub open spec fn valid_transition(from: ChallengeStatus, to: ChallengeStatus) -> bool {
    ||| (from == ChallengeStatus::WaitingForAcceptance && to == ChallengeStatus::Accepted)
    ||| (from == ChallengeStatus::Accepted && to == ChallengeStatus::Completed)
}

/// Challenges a user takes part in, as creator or opponent.
pub open spec fn involves_user_pred(user: Seq<char>) -> spec_fn(Challenge) -> bool {
    |c: Challenge| c.username@ == user || c.opp_username@ == user
}

/// Challenges a user takes part in that await settlement.
pub open spec fn accepted_for_pred(user: Seq<char>) -> spec_fn(Challenge) -> bool {
    |c: Challenge| (c.username@ == user || c.opp_username@ == user) && c.status
        == ChallengeStatus::Accepted
}

} // verus!
