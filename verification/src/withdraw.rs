//! WithdrawalCoordinator: outbound payments anchored by a crash-safe
//! intent record.
//!
//! `begin_withdrawal` inserts the `Open` withdrawal record strictly before
//! the routing layer issues the external payment, so the intent survives a
//! crash; `complete_withdrawal` then settles the record and debits the
//! balance in one atomic unit, and repeating it is a no-op.

use vstd::prelude::*;

use crate::ledger::LedgerStore;
use crate::models::{DecodedPayment, EscrowError, Transaction, TransactionState, TransactionType, User};
use crate::parse::{parse_i64, spec_parse_i64};

verus! {

/// The amount a decoded payment request asks for, as the gateway reports
/// it; `None` when the reported field is not a decimal number.
pub fn withdrawal_amount(dp: &DecodedPayment) -> (r: Option<i64>)
    ensures
        r == spec_parse_i64(vstd::utf8::encode_utf8(dp.num_satoshis@)),
{
    parse_i64(dp.num_satoshis.as_str())
}

/// Withdrawal step one: validate the amount and the caller's funds, then
/// insert the `Open` withdrawal record — the crash-recovery anchor — and
/// return its id. The caller issues the external payment only after this
/// has returned. A rejected call changes nothing.
pub fn begin_withdrawal(
    ledger: &mut LedgerStore,
    user: &User,
    amount: i64,
    payment_hash: String,
) -> (r: Result<i32, EscrowError>)
    requires
        old(ledger).wf(),
        old(ledger).transactions@.len() + 1 < i32::MAX,
    ensures
        final(ledger).wf(),
        final(ledger).balances@ == old(ledger).balances@,
        amount < 0 ==> {
            &&& r == Err::<i32, EscrowError>(EscrowError::Validation)
            &&& final(ledger).transactions@ == old(ledger).transactions@
        },
        amount >= 0 && old(ledger).spec_balance(user.username@) <= amount ==> {
            &&& r == Err::<i32, EscrowError>(EscrowError::InsufficientFunds)
            &&& final(ledger).transactions@ == old(ledger).transactions@
        },
        amount >= 0 && old(ledger).spec_balance(user.username@) > amount ==> {
            &&& r == Ok::<i32, EscrowError>((old(ledger).transactions@.len() + 1) as i32)
            &&& final(ledger).transactions@.len() == old(ledger).transactions@.len() + 1
            &&& final(ledger).transactions@.drop_last() == old(ledger).transactions@
            &&& ({
                let t = final(ledger).transactions@.last();
                &&& t.transaction_id == old(ledger).transactions@.len() + 1
                &&& t.username@ == user.username@
                &&& t.ttype == TransactionType::Withdrawal
                &&& t.detail@ == Seq::<char>::empty()
                &&& t.amount == -amount
                &&& t.state == TransactionState::Open
                &&& t.payment_hash == Some(payment_hash)
                &&& t.preimage is None
                &&& t.payment_addr is None
                &&& t.payment_request is None
            })
        },
{
    if amount < 0 {
        return Err(EscrowError::Validation);
    }
    let bal: i64 = ledger.get_balance(&user.username);
    if bal <= amount {
        return Err(EscrowError::InsufficientFunds);
    }
    let id: i32 = ledger.append_open(
        &user.username,
        TransactionType::Withdrawal,
        String::new(),
        -amount,
        None,
        None,
        None,
        Some(payment_hash),
    );
    proof {
        assert(ledger.transactions@.drop_last() =~= old(ledger).transactions@);
    }
    Ok(id)
}

/// Withdrawal step two, run only after the external payment succeeded: in
/// one atomic unit, transition the withdrawal record `Open -> Settled` and
/// debit the amount. A record no longer `Open` is left untouched and
/// `Ok(false)` is returned, so repeating the settle step is a no-op.
pub fn complete_withdrawal(ledger: &mut LedgerStore, transaction_id: i32) -> (r: Result<
    bool,
    EscrowError,
>)
    requires
        old(ledger).wf(),
        old(ledger).balances@.len() + 1 < i32::MAX,
        old(ledger).has_tx(transaction_id as int) ==> old(ledger).spec_balance(
            old(ledger).spec_tx(transaction_id as int).username@,
        ) + old(ledger).spec_tx(transaction_id as int).amount <= i64::MAX,
    ensures
        final(ledger).wf(),
        final(ledger).balances@.len() <= old(ledger).balances@.len() + 1,
        ({
            let unchanged = {
                &&& final(ledger).transactions@ == old(ledger).transactions@
                &&& final(ledger).balances@ == old(ledger).balances@
            };
            if !old(ledger).has_tx(transaction_id as int) {
                r == Err::<bool, EscrowError>(EscrowError::NotFound) && unchanged
            } else {
                let t = old(ledger).spec_tx(transaction_id as int);
                if t.state != TransactionState::Open {
                    r == Ok::<bool, EscrowError>(false) && unchanged
                } else if t.ttype != TransactionType::Withdrawal {
                    r == Err::<bool, EscrowError>(EscrowError::InvalidState) && unchanged
                } else if old(ledger).spec_balance(t.username@) + t.amount >= 0 {
                    &&& r == Ok::<bool, EscrowError>(true)
                    &&& final(ledger).transactions@ == old(ledger).transactions@.update(
                        transaction_id - 1,
                        (Transaction { state: TransactionState::Settled, ..t }),
                    )
                    &&& final(ledger).spec_balance(t.username@) == old(ledger).spec_balance(
                        t.username@,
                    ) + t.amount
                    &&& forall|u: Seq<char>|
                        u != t.username@ ==> final(ledger).spec_balance(u) == old(
                            ledger,
                        ).spec_balance(u)
                } else {
                    r == Err::<bool, EscrowError>(EscrowError::InsufficientFunds) && unchanged
                }
            }
        }),
{
    let (state, ttype, amt): (TransactionState, TransactionType, i64) = match ledger
        .transaction_by_id(transaction_id) {
        Some(t) => (t.state, t.ttype, t.amount),
        None => {
            return Err(EscrowError::NotFound);
        },
    };
    match state {
        TransactionState::Open => {},
        _ => {
            return Ok(false);
        },
    }
    if ttype != TransactionType::Withdrawal {
        return Err(EscrowError::InvalidState);
    }
    ledger.settle_open(transaction_id, amt)
}

} // verus!
