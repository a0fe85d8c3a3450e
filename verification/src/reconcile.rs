//! Challenge settlement: the read-triggered sweep that turns a finished
//! game into ledger credits and completes the challenge.
//!
//! The caller walks the `Accepted` challenges of a user, asks the game
//! result provider for each game's outcome, and hands the plain outcome to
//! `settle_challenge`, which applies all ledger effects and the status
//! transition in one atomic unit. The `Accepted` expected-status guard is
//! the idempotency barrier: a completed challenge is never swept again.

use vstd::prelude::*;
use vstd::string::StringExecFns;

use crate::challenge_store::ChallengeStore;
use crate::listing::{lemma_rev_filter_prepend, rev_filter};
use crate::ledger::LedgerStore;
use crate::models::{
    Challenge, ChallengeStatus, Color, EscrowError, GameOutcome, InvoiceState,
    LichessExportGameResponse, LookupInvoiceResponse, Transaction, TransactionState,
    TransactionType,
};
use crate::parse::{dec_str, parse_i64, render_i64, spec_parse_i64};

verus! {

/// The house fee for one challenge: two percent of the stake, rounded down,
/// then rounded down again to the nearest even number.
pub open spec fn spec_fee(stake: int) -> int {
    let f = stake / 50;
    f - f % 2
}

/// The username owed the pot for a decisive result: the creator stored the
/// color they play, so the reported winning color picks the side.
pub open spec fn winner_username(c: Challenge, w: Color) -> Seq<char> {
    if c.color == w {
        c.username@
    } else {
        c.opp_username@
    }
}

/// What one settlement credits to `u`: the fee to the admin account, and
/// either the pot minus the fee to the winner, or half the pot minus half
/// the fee to each player on a draw. Coinciding identities simply add up.
pub open spec fn settlement_credit(
    c: Challenge,
    admin: Seq<char>,
    outcome: GameOutcome,
    u: Seq<char>,
) -> int {
    let fee = spec_fee(c.sats as int);
    let to_admin: int = if u == admin {
        fee
    } else {
        0
    };
    match outcome {
        GameOutcome::InProgress => 0,
        GameOutcome::Winner(w) => to_admin + if u == winner_username(c, w) {
            2 * c.sats - fee
        } else {
            0
        },
        GameOutcome::Draw => to_admin + (if u == c.username@ {
            c.sats - spec_fee(c.sats as int) / 2
        } else {
            0
        }) + (if u == c.opp_username@ {
            c.sats - spec_fee(c.sats as int) / 2
        } else {
            0
        }),
    }
}

/// Settlement conserves the pot: the fee plus what the winner receives, or
/// the fee plus the two draw refunds, is exactly the two stakes; and the
/// fee is even and never exceeds one stake.
pub proof fn lemma_settlement_conserves(stake: int)
    requires
        stake >= 0,
    ensures
        0 <= spec_fee(stake) <= stake,
        spec_fee(stake) % 2 == 0,
        spec_fee(stake) + (2 * stake - spec_fee(stake)) == 2 * stake,
        spec_fee(stake) + 2 * (stake - spec_fee(stake) / 2) == 2 * stake,
{
    let q = stake / 50;
    assert(stake == 50 * q + stake % 50);
    assert(0 <= stake % 50 < 50);
    assert(q >= 0);
    assert(q <= 50 * q);
    let f = spec_fee(stake);
    assert(f == q - q % 2);
    assert(0 <= q % 2 < 2);
    assert(f % 2 == 0) by {
        assert(q == 2 * (q / 2) + q % 2);
        assert(f == 2 * (q / 2));
    }
    assert(f == 2 * (f / 2)) by {
        assert(f == 2 * (f / 2) + f % 2);
    }
}

/// Two percent of the stake, rounded down to the nearest even number.
pub fn fee_for(stake: i64) -> (f: i64)
    requires
        stake >= 0,
    ensures
        f == spec_fee(stake as int),
        0 <= f <= stake,
        f % 2 == 0,
{
    proof {
        lemma_settlement_conserves(stake as int);
    }
    let q: u64 = (stake as u64) / 50;
    let f: u64 = q - q % 2;
    f as i64
}

/// Classify what the game service reported: a game not yet finished, a
/// decisive result with the winning color, or no winner at all.
pub open spec fn spec_game_outcome(resp: LichessExportGameResponse) -> GameOutcome {
    if resp.status@ == "created"@ || resp.status@ == "started"@ {
        GameOutcome::InProgress
    } else {
        match resp.winner {
            Some(w) => if w@ == "white"@ {
                GameOutcome::Winner(Color::White)
            } else if w@ == "black"@ {
                GameOutcome::Winner(Color::Black)
            } else {
                GameOutcome::Draw
            },
            None => GameOutcome::Draw,
        }
    }
}

pub fn game_outcome_of(resp: &LichessExportGameResponse) -> (r: GameOutcome)
    ensures
        r == spec_game_outcome(*resp),
{
    if resp.status == String::from_str("created") || resp.status == String::from_str("started") {
        return GameOutcome::InProgress;
    }
    match &resp.winner {
        Some(w) => {
            if *w == String::from_str("white") {
                GameOutcome::Winner(Color::White)
            } else if *w == String::from_str("black") {
                GameOutcome::Winner(Color::Black)
            } else {
                GameOutcome::Draw
            }
        },
        None => GameOutcome::Draw,
    }
}

/// The invoice state the gateway's lookup response denotes, if any.
pub open spec fn spec_invoice_state(s: Seq<char>) -> Option<InvoiceState> {
    if s == "OPEN"@ {
        Some(InvoiceState::Open)
    } else if s == "ACCEPTED"@ {
        Some(InvoiceState::Accepted)
    } else if s == "SETTLED"@ {
        Some(InvoiceState::Settled)
    } else if s == "CANCELED"@ {
        Some(InvoiceState::Canceled)
    } else {
        None
    }
}

/// What an invoice lookup observed: the reported state and the amount
/// paid, or `None` for an unrecognized state or a malformed or negative
/// amount.
pub open spec fn spec_invoice_observation(resp: LookupInvoiceResponse) -> Option<(
    InvoiceState,
    i64,
)> {
    match spec_invoice_state(resp.state@) {
        Some(st) => match spec_parse_i64(vstd::utf8::encode_utf8(resp.amt_paid_sat@)) {
            Some(a) => if a >= 0 {
                Some((st, a))
            } else {
                None
            },
            None => None,
        },
        None => None,
    }
}

pub fn invoice_observation(resp: &LookupInvoiceResponse) -> (r: Option<(InvoiceState, i64)>)
    ensures
        r == spec_invoice_observation(*resp),
{
    let st: InvoiceState = if resp.state == String::from_str("OPEN") {
        InvoiceState::Open
    } else if resp.state == String::from_str("ACCEPTED") {
        InvoiceState::Accepted
    } else if resp.state == String::from_str("SETTLED") {
        InvoiceState::Settled
    } else if resp.state == String::from_str("CANCELED") {
        InvoiceState::Canceled
    } else {
        return None;
    };
    match parse_i64(resp.amt_paid_sat.as_str()) {
        Some(a) => {
            if a >= 0 {
                Some((st, a))
            } else {
                None
            }
        },
        None => None,
    }
}

/// The records the invoice sweep visits: `Open` invoices of the user that
/// carry a payment address.
pub open spec fn open_invoice_pred(user: Seq<char>) -> spec_fn(Transaction) -> bool {
    |t: Transaction|
        t.username@ == user && t.state == TransactionState::Open && t.ttype
            == TransactionType::Invoice && t.payment_addr is Some
}

/// One sweep entry against the record it stands for: the record's id and
/// its stored payment address.
pub open spec fn sweep_entry_ok(e: (i32, String), t: Transaction) -> bool {
    &&& e.0 == t.transaction_id
    &&& t.payment_addr is Some
    &&& e.1@ == t.payment_addr->Some_0@
}

/// Every sweep entry stands for the record at its position.
pub open spec fn sweep_entries_ok(r: Seq<(i32, String)>, f: Seq<Transaction>) -> bool {
    &&& r.len() == f.len()
    &&& forall|k: int| 0 <= k < f.len() ==> sweep_entry_ok(#[trigger] r[k], f[k])
}

/// The ids and payment addresses of the user's pending invoices, newest
/// first: what the invoice sweep looks up at the gateway.
pub fn open_invoices(ledger: &LedgerStore, user: &String) -> (r: Vec<(i32, String)>)
    ensures
        sweep_entries_ok(r@, rev_filter(ledger.transactions@, open_invoice_pred(user@))),
{
    let ghost pred = open_invoice_pred(user@);
    let mut r: Vec<(i32, String)> = Vec::new();
    let mut i: usize = ledger.transactions.len();
    proof {
        assert(ledger.transactions@.subrange(i as int, ledger.transactions@.len() as int)
            =~= Seq::<Transaction>::empty());
        assert(rev_filter(Seq::<Transaction>::empty(), pred) == Seq::<Transaction>::empty());
    }
    while i > 0
        invariant
            i <= ledger.transactions@.len(),
            pred == open_invoice_pred(user@),
            sweep_entries_ok(
                r@,
                rev_filter(
                    ledger.transactions@.subrange(i as int, ledger.transactions@.len() as int),
                    pred,
                ),
            ),
        decreases i,
    {
        i = i - 1;
        let ghost tail = ledger.transactions@.subrange(i + 1, ledger.transactions@.len() as int);
        let ghost cur = ledger.transactions@.subrange(i as int, ledger.transactions@.len() as int);
        proof {
            assert(cur =~= seq![ledger.transactions@[i as int]] + tail);
            lemma_rev_filter_prepend(ledger.transactions@[i as int], tail, pred);
        }
        let t = &ledger.transactions[i];
        let selected: bool = t.username == *user && t.state == TransactionState::Open && t.ttype
            == TransactionType::Invoice;
        if selected {
            match &t.payment_addr {
                Some(a) => {
                    let ghost r0 = r@;
                    r.push((t.transaction_id, a.clone()));
                    proof {
                        let f_cur = rev_filter(cur, pred);
                        let f_tail = rev_filter(tail, pred);
                        assert(f_cur =~= f_tail + seq![ledger.transactions@[i as int]]);
                        assert(r@.len() == f_cur.len());
                        assert forall|k: int| 0 <= k < f_cur.len() implies sweep_entry_ok(
                            #[trigger] r@[k],
                            f_cur[k],
                        ) by {
                            if k < f_tail.len() {
                                assert(f_cur[k] == f_tail[k]);
                                assert(r@[k] == r0[k]);
                                assert(sweep_entry_ok(r0[k], f_tail[k]));
                            } else {
                                assert(f_cur[k] == ledger.transactions@[i as int]);
                                assert(r@[k] == r@.last());
                            }
                        }
                    }
                },
                None => {
                    proof {
                        assert(rev_filter(cur, pred) =~= rev_filter(tail, pred));
                    }
                },
            }
        } else {
            proof {
                assert(rev_filter(cur, pred) =~= rev_filter(tail, pred));
            }
        }
    }
    proof {
        assert(ledger.transactions@.subrange(0, ledger.transactions@.len() as int)
            =~= ledger.transactions@);
    }
    r
}

/// Apply what an invoice lookup observed to the user's `Open` invoice
/// record. If the gateway reports the invoice settled, the record settles
/// with the paid amount and the owner is credited, in one atomic unit; a
/// canceled invoice fails the record without moving funds; a still-pending
/// invoice changes nothing. The update is conditioned on the record still
/// being `Open`: a repeated sweep finds the record no longer `Open`,
/// performs no credit, and returns `Ok(false)`.
pub fn apply_invoice_update(
    ledger: &mut LedgerStore,
    transaction_id: i32,
    observed: InvoiceState,
    amount_paid: i64,
) -> (r: Result<bool, EscrowError>)
    requires
        old(ledger).wf(),
        old(ledger).balances@.len() + 1 < i32::MAX,
        amount_paid >= 0,
        old(ledger).has_tx(transaction_id as int) ==> old(ledger).spec_balance(
            old(ledger).spec_tx(transaction_id as int).username@,
        ) + amount_paid <= i64::MAX,
    ensures
        final(ledger).wf(),
        final(ledger).balances@.len() <= old(ledger).balances@.len() + 1,
        ({
            let unchanged = {
                &&& final(ledger).transactions@ == old(ledger).transactions@
                &&& final(ledger).balances@ == old(ledger).balances@
            };
            if !old(ledger).has_tx(transaction_id as int) {
                r == Err::<bool, EscrowError>(EscrowError::NotFound) && unchanged
            } else {
                let t = old(ledger).spec_tx(transaction_id as int);
                if t.state != TransactionState::Open {
                    r == Ok::<bool, EscrowError>(false) && unchanged
                } else if t.ttype != TransactionType::Invoice {
                    r == Err::<bool, EscrowError>(EscrowError::InvalidState) && unchanged
                } else if observed == InvoiceState::Open || observed == InvoiceState::Accepted {
                    r == Ok::<bool, EscrowError>(false) && unchanged
                } else if observed == InvoiceState::Settled {
                    &&& r == Ok::<bool, EscrowError>(true)
                    &&& final(ledger).transactions@ == old(ledger).transactions@.update(
                        transaction_id - 1,
                        (Transaction {
                            amount: amount_paid,
                            state: TransactionState::Settled,
                            ..t
                        }),
                    )
                    &&& final(ledger).spec_balance(t.username@) == old(ledger).spec_balance(
                        t.username@,
                    ) + amount_paid
                    &&& forall|u: Seq<char>|
                        u != t.username@ ==> final(ledger).spec_balance(u) == old(
                            ledger,
                        ).spec_balance(u)
                } else {
                    &&& r == Ok::<bool, EscrowError>(true)
                    &&& final(ledger).transactions@ == old(ledger).transactions@.update(
                        transaction_id - 1,
                        (Transaction { amount: amount_paid, state: TransactionState::Failed, ..t }),
                    )
                    &&& final(ledger).balances@ == old(ledger).balances@
                }
            }
        }),
{
    let (state, ttype): (TransactionState, TransactionType) = match ledger.transaction_by_id(
        transaction_id,
    ) {
        Some(t) => (t.state, t.ttype),
        None => {
            return Err(EscrowError::NotFound);
        },
    };
    match state {
        TransactionState::Open => {},
        _ => {
            return Ok(false);
        },
    }
    if ttype != TransactionType::Invoice {
        return Err(EscrowError::InvalidState);
    }
    match observed {
        InvoiceState::Open | InvoiceState::Accepted => Ok(false),
        InvoiceState::Settled => {
            proof {
                crate::ledger::lemma_balance_in_nonneg(ledger.balances@, old(ledger).spec_tx(transaction_id as int).username@);
            }
            ledger.settle_open(transaction_id, amount_paid)
        },
        InvoiceState::Canceled => ledger.fail_open(transaction_id, amount_paid),
    }
}

/// Apply a game outcome to an `Accepted` challenge: credit the fee to the
/// admin account and the pot to the winner — or half the pot less half the
/// fee to each player on a draw — and complete the challenge, all in one
/// atomic unit. Returns `Ok(false)` without any change while the game is
/// still in progress; a challenge not in `Accepted` reports `InvalidState`
/// and is never swept twice.
pub fn settle_challenge(
    ledger: &mut LedgerStore,
    store: &mut ChallengeStore,
    admin: &String,
    challenge_id: i32,
    outcome: GameOutcome,
) -> (r: Result<bool, EscrowError>)
    requires
        old(ledger).wf(),
        old(store).wf(),
        old(ledger).transactions@.len() + 3 < i32::MAX,
        old(ledger).balances@.len() + 3 < i32::MAX,
        old(store).has_challenge(challenge_id as int) ==> ({
            let c = old(store).spec_challenge(challenge_id as int);
            &&& 2 * c.sats <= i64::MAX
            &&& old(ledger).spec_balance(admin@) + 2 * c.sats <= i64::MAX
            &&& old(ledger).spec_balance(c.username@) + 2 * c.sats <= i64::MAX
            &&& old(ledger).spec_balance(c.opp_username@) + 2 * c.sats <= i64::MAX
        }),
    ensures
        final(ledger).wf(),
        final(store).wf(),
        final(ledger).balances@.len() <= old(ledger).balances@.len() + 3,
        ({
            let unchanged = {
                &&& final(ledger).transactions@ == old(ledger).transactions@
                &&& final(ledger).balances@ == old(ledger).balances@
                &&& final(store).challenges@ == old(store).challenges@
            };
            if !old(store).has_challenge(challenge_id as int) {
                r == Err::<bool, EscrowError>(EscrowError::NotFound) && unchanged
            } else {
                let c = old(store).spec_challenge(challenge_id as int);
                let fee = spec_fee(c.sats as int);
                if c.status != ChallengeStatus::Accepted {
                    r == Err::<bool, EscrowError>(EscrowError::InvalidState) && unchanged
                } else if outcome == GameOutcome::InProgress {
                    r == Ok::<bool, EscrowError>(false) && unchanged
                } else {
                    &&& r == Ok::<bool, EscrowError>(true)
                    &&& final(store).challenges@ == old(store).challenges@.update(
                        challenge_id - 1,
                        (Challenge { status: ChallengeStatus::Completed, ..c }),
                    )
                    &&& forall|u: Seq<char>|
                        #[trigger] final(ledger).spec_balance(u) == old(ledger).spec_balance(u)
                            + settlement_credit(c, admin@, outcome, u)
                    &&& forall|k: int|
                        0 <= k < old(ledger).transactions@.len()
                            ==> #[trigger] final(ledger).transactions@[k] == old(
                            ledger,
                        ).transactions@[k]
                    &&& ({
                        let ft = final(ledger).transactions@[old(ledger).transactions@.len() as int];
                        &&& ft.username@ == admin@
                        &&& ft.ttype == TransactionType::Fee
                        &&& ft.detail@ == "fee from challenge "@ + dec_str(challenge_id as int)
                        &&& ft.amount == fee
                        &&& ft.state == TransactionState::Settled
                        &&& ft.lichess_challenge_id == c.lichess_challenge_id
                    })
                    &&& (outcome matches GameOutcome::Winner(w) ==> {
                        &&& final(ledger).transactions@.len() == old(ledger).transactions@.len()
                            + 2
                        &&& ({
                            let wt = final(ledger).transactions@.last();
                            &&& wt.username@ == winner_username(c, w)
                            &&& wt.ttype == TransactionType::Winnings
                            &&& wt.detail@ == Seq::<char>::empty()
                            &&& wt.amount == 2 * c.sats - fee
                            &&& wt.state == TransactionState::Settled
                        })
                    })
                    &&& (outcome == GameOutcome::Draw ==> {
                        &&& final(ledger).transactions@.len() == old(ledger).transactions@.len()
                            + 3
                        &&& ({
                            let d1 = final(ledger).transactions@[old(
                                ledger,
                            ).transactions@.len() as int + 1];
                            &&& d1.username@ == c.username@
                            &&& d1.ttype == TransactionType::DrawRefund
                            &&& d1.detail@ == "initial sats amount minus 2% fee"@
                            &&& d1.amount == c.sats - fee / 2
                            &&& d1.state == TransactionState::Settled
                        })
                        &&& ({
                            let d2 = final(ledger).transactions@.last();
                            &&& d2.username@ == c.opp_username@
                            &&& d2.ttype == TransactionType::DrawRefund
                            &&& d2.detail@ == "initial sats amount minus 2% fee"@
                            &&& d2.amount == c.sats - fee / 2
                            &&& d2.state == TransactionState::Settled
                        })
                    })
                }
            }
        }),
{
    let (sats, color, status, username, opp_username, linked): (
        i64,
        Color,
        ChallengeStatus,
        String,
        String,
        Option<String>,
    ) = match store.get(challenge_id) {
        Some(c) => (
            c.sats,
            c.color,
            c.status,
            c.username.clone(),
            c.opp_username.clone(),
            match &c.lichess_challenge_id {
                Some(g) => Some(g.clone()),
                None => None,
            },
        ),
        None => {
            return Err(EscrowError::NotFound);
        },
    };
    if status != ChallengeStatus::Accepted {
        return Err(EscrowError::InvalidState);
    }
    match outcome {
        GameOutcome::InProgress => {
            return Ok(false);
        },
        _ => {},
    }
    let fee: i64 = fee_for(sats);
    proof {
        lemma_settlement_conserves(sats as int);
    }
    let mut fee_detail = String::from_str("fee from challenge ");
    fee_detail.append(render_i64(challenge_id as i64).as_str());
    proof {
        crate::ledger::lemma_balance_in_nonneg(ledger.balances@, admin@);
    }
    let posted_fee = ledger.post_settled(
        admin,
        fee,
        TransactionType::Fee,
        fee_detail,
        None,
        linked,
    );
    match posted_fee {
        Ok(_) => {},
        Err(e) => {
            return Err(e);
        },
    }
    match outcome {
        GameOutcome::Winner(w) => {
            let winner_name: &String = if color == w {
                &username
            } else {
                &opp_username
            };
            let winnings: i64 = 2 * sats - fee;
            proof {
                crate::ledger::lemma_balance_in_nonneg(ledger.balances@, winner_name@);
            }
            let posted_win = ledger.post_settled(
                winner_name,
                winnings,
                TransactionType::Winnings,
                String::new(),
                None,
                None,
            );
            match posted_win {
                Ok(_) => {},
                Err(e) => {
                    return Err(e);
                },
            }
        },
        _ => {
            let half_fee: i64 = ((fee as u64) / 2) as i64;
            let refund: i64 = sats - half_fee;
            proof {
                crate::ledger::lemma_balance_in_nonneg(ledger.balances@, username@);
            }
            let posted_d1 = ledger.post_settled(
                &username,
                refund,
                TransactionType::DrawRefund,
                String::from_str("initial sats amount minus 2% fee"),
                None,
                None,
            );
            match posted_d1 {
                Ok(_) => {},
                Err(e) => {
                    return Err(e);
                },
            }
            proof {
                crate::ledger::lemma_balance_in_nonneg(ledger.balances@, opp_username@);
            }
            let posted_d2 = ledger.post_settled(
                &opp_username,
                refund,
                TransactionType::DrawRefund,
                String::from_str("initial sats amount minus 2% fee"),
                None,
                None,
            );
            match posted_d2 {
                Ok(_) => {},
                Err(e) => {
                    return Err(e);
                },
            }
        },
    }
    let updated = store.update_status(
        challenge_id,
        ChallengeStatus::Accepted,
        ChallengeStatus::Completed,
        None,
    );
    match updated {
        Ok(_) => Ok(true),
        Err(e) => Err(e),
    }
}

} // verus!
