//! EscrowCoordinator: challenge creation and acceptance, orchestrated
//! against the ledger and challenge stores.
//!
//! Each operation validates first and mutates second, so a rejected call
//! leaves both stores exactly as they were. Acceptance is split around the
//! external game-creation call: the debit commits first, the routing layer
//! creates the game, and `record_game_created` then moves the challenge to
//! `Accepted`. A failure of the external call after the debit is the known
//! reconciliation gap of this design and must be surfaced by the caller,
//! not silently ignored.

use vstd::prelude::*;
use vstd::string::StringExecFns;

use crate::challenge_store::ChallengeStore;
use crate::ledger::LedgerStore;
use crate::parse::{dec_str, render_i64};
use crate::models::{
    Challenge, ChallengeAcceptRequest, ChallengeStatus, Color, EscrowError, LichessChallenge,
    LichessChallengeClock, TransactionState, TransactionType, User,
};

verus! {

/// Validated plain-value input for a new challenge, as the routing layer
/// hands it in.
pub struct ChallengeParams {
    pub time_limit: i32,
    pub opponent_time_limit: i32,
    pub increment: i32,
    pub color: Color,
    pub sats: i64,
    pub opp_username: String,
    pub expire_after: Option<i32>,
}

/// Create a challenge: validate the stake and the creator's funds, then, in
/// one atomic unit, insert the challenge, debit the creator, and append the
/// create-challenge debit record. A rejected call changes nothing.
pub fn create_challenge(
    ledger: &mut LedgerStore,
    store: &mut ChallengeStore,
    creator: &User,
    params: ChallengeParams,
    now: i64,
) -> (r: Result<i32, EscrowError>)
    requires
        old(ledger).wf(),
        old(store).wf(),
        old(ledger).transactions@.len() + 1 < i32::MAX,
        old(ledger).balances@.len() + 1 < i32::MAX,
        old(store).challenges@.len() + 1 < i32::MAX,
    ensures
        final(ledger).wf(),
        final(store).wf(),
        params.sats <= 0 ==> {
            &&& r == Err::<i32, EscrowError>(EscrowError::Validation)
            &&& final(ledger).transactions@ == old(ledger).transactions@
            &&& final(ledger).balances@ == old(ledger).balances@
            &&& final(store).challenges@ == old(store).challenges@
        },
        params.sats > 0 && old(ledger).spec_balance(creator.username@) < params.sats ==> {
            &&& r == Err::<i32, EscrowError>(EscrowError::InsufficientFunds)
            &&& final(ledger).transactions@ == old(ledger).transactions@
            &&& final(ledger).balances@ == old(ledger).balances@
            &&& final(store).challenges@ == old(store).challenges@
        },
        params.sats > 0 && old(ledger).spec_balance(creator.username@) >= params.sats ==> {
            &&& r == Ok::<i32, EscrowError>((old(store).challenges@.len() + 1) as i32)
            &&& final(store).challenges@ == old(store).challenges@.push(
                (Challenge {
                    id: (old(store).challenges@.len() + 1) as i32,
                    username: creator.username,
                    time_limit: params.time_limit,
                    opponent_time_limit: params.opponent_time_limit,
                    increment: params.increment,
                    color: params.color,
                    sats: params.sats,
                    opp_username: params.opp_username,
                    status: ChallengeStatus::WaitingForAcceptance,
                    lichess_challenge_id: None,
                    created_on: now,
                    expire_after: params.expire_after,
                }),
            )
            &&& final(ledger).spec_balance(creator.username@) == old(ledger).spec_balance(
                creator.username@,
            ) - params.sats
            &&& forall|u: Seq<char>|
                u != creator.username@ ==> final(ledger).spec_balance(u) == old(
                    ledger,
                ).spec_balance(u)
            &&& final(ledger).transactions@.len() == old(ledger).transactions@.len() + 1
            &&& final(ledger).transactions@.drop_last() == old(ledger).transactions@
            &&& ({
                let t = final(ledger).transactions@.last();
                &&& t.transaction_id == old(ledger).transactions@.len() + 1
                &&& t.username@ == creator.username@
                &&& t.ttype == TransactionType::CreateChallengeDebit
                &&& t.detail@ == "challenge vs "@ + params.opp_username@
                &&& t.amount == -params.sats
                &&& t.state == TransactionState::Settled
                &&& t.preimage is None
                &&& t.payment_addr is None
                &&& t.payment_request is None
                &&& t.payment_hash is None
                &&& t.lichess_challenge_id is None
            })
        },
{
    if params.sats <= 0 {
        return Err(EscrowError::Validation);
    }
    let bal: i64 = ledger.get_balance(&creator.username);
    if bal < params.sats {
        return Err(EscrowError::InsufficientFunds);
    }
    let id: i32 = store.create(
        &creator.username,
        &params.opp_username,
        params.time_limit,
        params.opponent_time_limit,
        params.increment,
        params.color,
        params.sats,
        now,
        params.expire_after,
    );
    let detail = String::from_str("challenge vs ").concat(params.opp_username.as_str());
    let posted = ledger.post_settled(
        &creator.username,
        -params.sats,
        TransactionType::CreateChallengeDebit,
        detail,
        None,
        None,
    );
    proof {
        assert(ledger.transactions@.drop_last() =~= old(ledger).transactions@);
    }
    match posted {
        Ok(_) => Ok(id),
        Err(e) => Err(e),
    }
}

/// Accept step one: validate that the caller is the stored opponent, that
/// the challenge still waits for acceptance, and that the caller's funds
/// cover the stake; then, in one atomic unit, debit the opponent and append
/// the accept-challenge debit record. A rejected call changes nothing.
pub fn accept_challenge_debit(
    ledger: &mut LedgerStore,
    store: &ChallengeStore,
    opponent: &User,
    req: &ChallengeAcceptRequest,
) -> (r: Result<(), EscrowError>)
    requires
        old(ledger).wf(),
        store.wf(),
        old(ledger).transactions@.len() + 1 < i32::MAX,
        old(ledger).balances@.len() + 1 < i32::MAX,
    ensures
        final(ledger).wf(),
        ({
            let rejected = {
                &&& final(ledger).transactions@ == old(ledger).transactions@
                &&& final(ledger).balances@ == old(ledger).balances@
            };
            if !store.has_challenge(req.id as int) {
                r == Err::<(), EscrowError>(EscrowError::NotFound) && rejected
            } else {
                let c = store.spec_challenge(req.id as int);
                if c.opp_username@ != opponent.username@ {
                    r == Err::<(), EscrowError>(EscrowError::Unauthorized) && rejected
                } else if c.status != ChallengeStatus::WaitingForAcceptance {
                    r == Err::<(), EscrowError>(EscrowError::InvalidState) && rejected
                } else if old(ledger).spec_balance(opponent.username@) < c.sats {
                    r == Err::<(), EscrowError>(EscrowError::InsufficientFunds) && rejected
                } else {
                    &&& r == Ok::<(), EscrowError>(())
                    &&& final(ledger).spec_balance(opponent.username@) == old(
                        ledger,
                    ).spec_balance(opponent.username@) - c.sats
                    &&& forall|u: Seq<char>|
                        u != opponent.username@ ==> final(ledger).spec_balance(u) == old(
                            ledger,
                        ).spec_balance(u)
                    &&& final(ledger).transactions@.len() == old(ledger).transactions@.len() + 1
                    &&& final(ledger).transactions@.drop_last() == old(ledger).transactions@
                    &&& ({
                        let t = final(ledger).transactions@.last();
                        &&& t.transaction_id == old(ledger).transactions@.len() + 1
                        &&& t.username@ == opponent.username@
                        &&& t.ttype == TransactionType::AcceptChallengeDebit
                        &&& t.detail@ == "challenge vs "@ + c.username@
                        &&& t.amount == -c.sats
                        &&& t.state == TransactionState::Settled
                        &&& t.preimage is None
                        &&& t.payment_addr is None
                        &&& t.payment_request is None
                        &&& t.payment_hash is None
                        &&& t.lichess_challenge_id is None
                    })
                }
            }
        }),
{
    let challenge = match store.get(req.id) {
        Some(c) => c,
        None => {
            return Err(EscrowError::NotFound);
        },
    };
    if challenge.opp_username != opponent.username {
        return Err(EscrowError::Unauthorized);
    }
    if challenge.status != ChallengeStatus::WaitingForAcceptance {
        return Err(EscrowError::InvalidState);
    }
    let bal: i64 = ledger.get_balance(&opponent.username);
    if bal < challenge.sats {
        return Err(EscrowError::InsufficientFunds);
    }
    let detail = String::from_str("challenge vs ").concat(challenge.username.as_str());
    let posted = ledger.post_settled(
        &opponent.username,
        -challenge.sats,
        TransactionType::AcceptChallengeDebit,
        detail,
        None,
        None,
    );
    proof {
        assert(ledger.transactions@.drop_last() =~= old(ledger).transactions@);
    }
    match posted {
        Ok(_) => Ok(()),
        Err(e) => Err(e),
    }
}

/// Accept step two, run only after the external game exists: move the
/// challenge from `WaitingForAcceptance` to `Accepted` and record the
/// external game id. The expected-status guard keeps a repeated call from
/// re-processing the transition.
pub fn record_game_created(
    store: &mut ChallengeStore,
    challenge_id: i32,
    game_id: String,
) -> (r: Result<(), EscrowError>)
    requires
        old(store).wf(),
    ensures
        final(store).wf(),
        !old(store).has_challenge(challenge_id as int) ==> r == Err::<(), EscrowError>(
            EscrowError::NotFound,
        ) && final(store).challenges@ == old(store).challenges@,
        old(store).has_challenge(challenge_id as int) && old(store).spec_challenge(
            challenge_id as int,
        ).status != ChallengeStatus::WaitingForAcceptance ==> r == Err::<(), EscrowError>(
            EscrowError::InvalidState,
        ) && final(store).challenges@ == old(store).challenges@,
        old(store).has_challenge(challenge_id as int) && old(store).spec_challenge(
            challenge_id as int,
        ).status == ChallengeStatus::WaitingForAcceptance ==> {
            &&& r == Ok::<(), EscrowError>(())
            &&& final(store).challenges@ == old(store).challenges@.update(
                challenge_id - 1,
                (Challenge {
                    status: ChallengeStatus::Accepted,
                    lichess_challenge_id: Some(game_id),
                    ..old(store).spec_challenge(challenge_id as int)
                }),
            )
        },
{
    store.update_status(
        challenge_id,
        ChallengeStatus::WaitingForAcceptance,
        ChallengeStatus::Accepted,
        Some(game_id),
    )
}

/// Look a challenge up for a caller; only its two participants may see it.
pub fn lookup_challenge<'a>(store: &'a ChallengeStore, user: &User, challenge_id: i32) -> (r:
    Result<&'a Challenge, EscrowError>)
    ensures
        !store.has_challenge(challenge_id as int) ==> r == Err::<&'a Challenge, EscrowError>(
            EscrowError::NotFound,
        ),
        store.has_challenge(challenge_id as int) ==> {
            let c = store.spec_challenge(challenge_id as int);
            if c.username@ != user.username@ && c.opp_username@ != user.username@ {
                r == Err::<&'a Challenge, EscrowError>(EscrowError::Unauthorized)
            } else {
                r matches Ok(rc) && *rc == c
            }
        },
{
    let challenge = match store.get(challenge_id) {
        Some(c) => c,
        None => {
            return Err(EscrowError::NotFound);
        },
    };
    if challenge.username != user.username && challenge.opp_username != user.username {
        return Err(EscrowError::Unauthorized);
    }
    Ok(challenge)
}

/// The challenge the acceptor posts to the external game service: rated,
/// standard rules, and the creator's stored color handed to the creator by
/// flipping the color the acceptor asks for.
pub fn parse_to_lichess_challenge(challenge: &Challenge) -> (r: LichessChallenge)
    ensures
        r.rated == true,
        challenge.color == Color::White ==> r.color@ == "black"@,
        challenge.color == Color::Black ==> r.color@ == "white"@,
        r.clock.limit@ == dec_str(challenge.time_limit as int),
        r.clock.increment@ == dec_str(challenge.increment as int),
        r.variant@ == "standard"@,
        r.rules@ == "noClaimWin"@,
{
    let color = match challenge.color {
        Color::White => String::from_str("black"),
        Color::Black => String::from_str("white"),
    };
    LichessChallenge {
        rated: true,
        clock: LichessChallengeClock {
            limit: render_i64(challenge.time_limit as i64),
            increment: render_i64(challenge.increment as i64),
        },
        color,
        variant: String::from_str("standard"),
        rules: String::from_str("noClaimWin"),
    }
}

} // verus!
