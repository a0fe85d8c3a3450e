//! The balance ledger: one balance row per user, justified by an append-only
//! transaction log.
//!
//! The store's well-formedness ties the two together: every user's balance
//! equals the sum of the amounts of that user's `Settled` records, and no
//! committed balance is ever negative. Every mutating operation preserves
//! well-formedness or leaves the store untouched and reports an error.

use vstd::prelude::*;

use crate::listing::{lemma_rev_filter_prepend, rev_filter};
use crate::models::{Balance, EscrowError, Transaction, TransactionState, TransactionType, User};

verus! {

/// Contribution of one log record to a user's settled total.
pub open spec fn tx_settled_amount(t: Transaction, user: Seq<char>) -> int {
    if t.username@ == user && t.state == TransactionState::Settled {
        t.amount as int
    } else {
        0
    }
}

/// Sum of the amounts of all `Settled` records belonging to `user`.
pub open spec fn settled_sum(ts: Seq<Transaction>, user: Seq<char>) -> int
    decreases ts.len(),
{
    if ts.len() == 0 {
        0
    } else {
        settled_sum(ts.drop_last(), user) + tx_settled_amount(ts.last(), user)
    }
}

/// The balance recorded for `user` in a row sequence; 0 if no row exists.
pub open spec fn balance_in(bs: Seq<Balance>, user: Seq<char>) -> int
    decreases bs.len(),
{
    if bs.len() == 0 {
        0
    } else if bs.last().username@ == user {
        bs.last().balance as int
    } else {
        balance_in(bs.drop_last(), user)
    }
}

pub proof fn lemma_settled_sum_push(ts: Seq<Transaction>, t: Transaction, user: Seq<char>)
    ensures
        settled_sum(ts.push(t), user) == settled_sum(ts, user) + tx_settled_amount(t, user),
{
    assert(ts.push(t).drop_last() =~= ts);
    assert(ts.push(t).last() == t);
}

pub proof fn lemma_settled_sum_update(ts: Seq<Transaction>, k: int, t: Transaction, user: Seq<char>)
    requires
        0 <= k < ts.len(),
    ensures
        settled_sum(ts.update(k, t), user) == settled_sum(ts, user) - tx_settled_amount(
            ts[k],
            user,
        ) + tx_settled_amount(t, user),
    decreases ts.len(),
{
    let ts2 = ts.update(k, t);
    if k == ts.len() - 1 {
        assert(ts2.drop_last() =~= ts.drop_last());
        assert(ts2.last() == t);
    } else {
        assert(ts2.drop_last() =~= ts.drop_last().update(k, t));
        assert(ts2.last() == ts.last());
        lemma_settled_sum_update(ts.drop_last(), k, t, user);
    }
}

pub proof fn lemma_balance_in_push(bs: Seq<Balance>, b: Balance, user: Seq<char>)
    ensures
        balance_in(bs.push(b), user) == if b.username@ == user {
            b.balance as int
        } else {
            balance_in(bs, user)
        },
{
    assert(bs.push(b).drop_last() =~= bs);
    assert(bs.push(b).last() == b);
}

/// Updating the last row that carries a username changes only that
/// username's recorded balance.
pub proof fn lemma_balance_in_update(bs: Seq<Balance>, k: int, b: Balance, user: Seq<char>)
    requires
        0 <= k < bs.len(),
        b.username@ == bs[k].username@,
        forall|j: int| k < j < bs.len() ==> bs[j].username@ != bs[k].username@,
    ensures
        balance_in(bs.update(k, b), user) == if bs[k].username@ == user {
            b.balance as int
        } else {
            balance_in(bs, user)
        },
    decreases bs.len(),
{
    let bs2 = bs.update(k, b);
    if k == bs.len() - 1 {
        assert(bs2.drop_last() =~= bs.drop_last());
        assert(bs2.last() == b);
    } else {
        assert(bs2.drop_last() =~= bs.drop_last().update(k, b));
        assert(bs2.last() == bs.last());
        lemma_balance_in_update(bs.drop_last(), k, b, user);
    }
}

/// With every row non-negative, every recorded balance is non-negative.
pub proof fn lemma_balance_in_nonneg(bs: Seq<Balance>, user: Seq<char>)
    requires
        forall|i: int| 0 <= i < bs.len() ==> #[trigger] bs[i].balance >= 0,
    ensures
        balance_in(bs, user) >= 0,
    decreases bs.len(),
{
    if bs.len() > 0 && !(bs.last().username@ == user) {
        lemma_balance_in_nonneg(bs.drop_last(), user);
    }
}

/// Every recorded balance fits a 64-bit signed integer: a row holds one,
/// and a user without a row has 0.
pub proof fn lemma_balance_in_fits(bs: Seq<Balance>, user: Seq<char>)
    ensures
        balance_in(bs, user) <= i64::MAX,
    decreases bs.len(),
{
    if bs.len() > 0 && !(bs.last().username@ == user) {
        lemma_balance_in_fits(bs.drop_last(), user);
    }
}

/// Durable balance-per-user rows and the append-only transaction log.
pub struct LedgerStore {
    pub balances: Vec<Balance>,
    pub transactions: Vec<Transaction>,
}

impl LedgerStore {
    /// The balance the store reports for `user` (0 without a row).
    pub open spec fn spec_balance(self, user: Seq<char>) -> int {
        balance_in(self.balances@, user)
    }

    /// The record with the given id, if any; ids start at 1.
    pub open spec fn has_tx(self, id: int) -> bool {
        1 <= id <= self.transactions@.len()
    }

    pub open spec fn spec_tx(self, id: int) -> Transaction {
        self.transactions@[id - 1]
    }

    /// At most one balance row per username.
    pub open spec fn balances_unique(self) -> bool {
        forall|i: int, j: int|
            0 <= i < j < self.balances@.len() ==> self.balances@[i].username@
                != self.balances@[j].username@
    }

    /// No committed balance is ever negative.
    pub open spec fn non_negative(self) -> bool {
        forall|i: int|
            0 <= i < self.balances@.len() ==> #[trigger] self.balances@[i].balance >= 0
    }

    /// Every user's balance equals the sum of that user's settled amounts.
    pub open spec fn conserves_log(self) -> bool {
        forall|u: Seq<char>| #[trigger] self.spec_balance(u) == settled_sum(self.transactions@, u)
    }

    /// Row and record ids follow insertion order, starting at 1.
    pub open spec fn ids_sequential(self) -> bool {
        &&& self.transactions@.len() < i32::MAX
        &&& forall|i: int|
            0 <= i < self.transactions@.len() ==> #[trigger] self.transactions@[i].transaction_id
                == i + 1
        &&& self.balances@.len() < i32::MAX
        &&& forall|i: int|
            0 <= i < self.balances@.len() ==> #[trigger] self.balances@[i].balance_id == i + 1
    }

    pub open spec fn wf(self) -> bool {
        &&& self.balances_unique()
        &&& self.non_negative()
        &&& self.conserves_log()
        &&& self.ids_sequential()
    }

    pub fn new() -> (s: LedgerStore)
        ensures
            s.wf(),
            s.transactions@ =~= Seq::<Transaction>::empty(),
            s.balances@ =~= Seq::<Balance>::empty(),
    {
        let s = LedgerStore { balances: Vec::new(), transactions: Vec::new() };
        proof {
            assert forall|u: Seq<char>| #[trigger] s.spec_balance(u) == settled_sum(
                s.transactions@,
                u,
            ) by {
                assert(balance_in(s.balances@, u) == 0);
                assert(settled_sum(s.transactions@, u) == 0);
            }
        }
        s
    }

    /// Index of the row holding `user`'s balance, scanning newest first.
    fn find_row(&self, user: &String) -> (r: Option<usize>)
        ensures
            match r {
                Some(i) => {
                    &&& i < self.balances@.len()
                    &&& self.balances@[i as int].username@ == user@
                    &&& forall|j: int|
                        i < j < self.balances@.len() ==> self.balances@[j].username@ != user@
                    &&& self.spec_balance(user@) == self.balances@[i as int].balance
                },
                None => {
                    &&& self.spec_balance(user@) == 0
                    &&& forall|j: int|
                        0 <= j < self.balances@.len() ==> self.balances@[j].username@ != user@
                },
            },
    {
        let mut i: usize = self.balances.len();
        proof {
            assert(self.balances@.subrange(0, i as int) =~= self.balances@);
        }
        while i > 0
            invariant
                i <= self.balances@.len(),
                balance_in(self.balances@, user@) == balance_in(
                    self.balances@.subrange(0, i as int),
                    user@,
                ),
                forall|j: int| i <= j < self.balances@.len() ==> self.balances@[j].username@ != user@,
            decreases i,
        {
            i = i - 1;
            proof {
                assert(self.balances@.subrange(0, i + 1).drop_last() =~= self.balances@.subrange(
                    0,
                    i as int,
                ));
                assert(self.balances@.subrange(0, i + 1).last() == self.balances@[i as int]);
            }
            if self.balances[i].username == *user {
                return Some(i);
            }
        }
        proof {
            assert(self.balances@.subrange(0, 0) =~= Seq::<Balance>::empty());
        }
        None
    }

    /// The balance for `user`, defaulting to 0 if no row exists.
    pub fn get_balance(&self, user: &String) -> (r: i64)
        requires
            self.wf(),
        ensures
            r == self.spec_balance(user@),
            r >= 0,
    {
        match self.find_row(user) {
            Some(i) => self.balances[i].balance,
            None => 0,
        }
    }

    /// Post a settled movement of `amount` for `user` and record it, both in
    /// one atomic unit: the new record and the balance change commit
    /// together, or — when the result would be negative — nothing changes
    /// and `InsufficientFunds` is reported.
    pub fn post_settled(
        &mut self,
        user: &String,
        amount: i64,
        ttype: TransactionType,
        detail: String,
        payment_hash: Option<String>,
        lichess_challenge_id: Option<String>,
    ) -> (r: Result<i64, EscrowError>)
        requires
            old(self).wf(),
            old(self).transactions@.len() + 1 < i32::MAX,
            old(self).balances@.len() + 1 < i32::MAX,
            old(self).spec_balance(user@) + amount <= i64::MAX,
        ensures
            final(self).wf(),
            final(self).balances@.len() <= old(self).balances@.len() + 1,
            old(self).spec_balance(user@) + amount >= 0 ==> {
                &&& r == Ok::<i64, EscrowError>((old(self).spec_balance(user@) + amount) as i64)
                &&& final(self).transactions@ == old(self).transactions@.push(
                    (Transaction {
                        transaction_id: (old(self).transactions@.len() + 1) as i32,
                        username: *user,
                        ttype,
                        detail,
                        amount,
                        state: TransactionState::Settled,
                        preimage: None,
                        payment_addr: None,
                        payment_request: None,
                        payment_hash,
                        lichess_challenge_id,
                    }),
                )
                &&& final(self).spec_balance(user@) == old(self).spec_balance(user@) + amount
                &&& forall|u: Seq<char>|
                    u != user@ ==> final(self).spec_balance(u) == old(self).spec_balance(u)
            },
            old(self).spec_balance(user@) + amount < 0 ==> {
                &&& r == Err::<i64, EscrowError>(EscrowError::InsufficientFunds)
                &&& final(self).transactions@ == old(self).transactions@
                &&& final(self).balances@ == old(self).balances@
            },
    {
        let row = self.find_row(user);
        let cur: i64 = match row {
            Some(i) => self.balances[i].balance,
            None => 0,
        };
        if amount < 0 && cur + amount < 0 {
            return Err(EscrowError::InsufficientFunds);
        }
        let nb: i64 = cur + amount;
        let rec = Transaction {
            transaction_id: (self.transactions.len() + 1) as i32,
            username: user.clone(),
            ttype,
            detail,
            amount,
            state: TransactionState::Settled,
            preimage: None,
            payment_addr: None,
            payment_request: None,
            payment_hash,
            lichess_challenge_id,
        };
        let ghost old_ts = self.transactions@;
        let ghost old_bs = self.balances@;
        let ghost grec = rec;
        self.transactions.push(rec);
        match row {
            Some(i) => {
                let ghost old_row = self.balances@[i as int];
                self.balances[i].balance = nb;
                proof {
                    lemma_balance_in_update(old_bs, i as int, self.balances@[i as int], user@);
                }
            },
            None => {
                let new_row = Balance {
                    balance_id: (self.balances.len() + 1) as i32,
                    username: user.clone(),
                    balance: nb,
                };
                let ghost grow = new_row;
                self.balances.push(new_row);
                proof {
                    lemma_balance_in_push(old_bs, grow, user@);
                }
            },
        }
        proof {
            assert forall|u: Seq<char>| #[trigger] self.spec_balance(u) == settled_sum(
                self.transactions@,
                u,
            ) by {
                lemma_settled_sum_push(old_ts, grec, u);
                if u != user@ {
                    match row {
                        Some(i) => {
                            lemma_balance_in_update(
                                old_bs,
                                i as int,
                                self.balances@[i as int],
                                u,
                            );
                        },
                        None => {
                            lemma_balance_in_push(old_bs, self.balances@.last(), u);
                        },
                    }
                }
                assert(old(self).spec_balance(u) == settled_sum(old_ts, u));
            }
            assert forall|u: Seq<char>| u != user@ implies self.spec_balance(u) == old(
                self,
            ).spec_balance(u) by {
                match row {
                    Some(i) => {
                        lemma_balance_in_update(
                            old_bs,
                            i as int,
                            self.balances@[i as int],
                            u,
                        );
                    },
                    None => {
                        lemma_balance_in_push(old_bs, self.balances@.last(), u);
                    },
                }
            }
        }
        Ok(nb)
    }

    /// Append an `Open` record: it reserves a log id but moves no funds
    /// until it settles.
    pub fn append_open(
        &mut self,
        user: &String,
        ttype: TransactionType,
        detail: String,
        amount: i64,
        preimage: Option<String>,
        payment_addr: Option<String>,
        payment_request: Option<String>,
        payment_hash: Option<String>,
    ) -> (id: i32)
        requires
            old(self).wf(),
            old(self).transactions@.len() + 1 < i32::MAX,
        ensures
            final(self).wf(),
            id == old(self).transactions@.len() + 1,
            final(self).transactions@ == old(self).transactions@.push(
                (Transaction {
                    transaction_id: id,
                    username: *user,
                    ttype,
                    detail,
                    amount,
                    state: TransactionState::Open,
                    preimage,
                    payment_addr,
                    payment_request,
                    payment_hash,
                    lichess_challenge_id: None,
                }),
            ),
            final(self).balances@ == old(self).balances@,
    {
        let id: i32 = (self.transactions.len() + 1) as i32;
        let rec = Transaction {
            transaction_id: id,
            username: user.clone(),
            ttype,
            detail,
            amount,
            state: TransactionState::Open,
            preimage,
            payment_addr,
            payment_request,
            payment_hash,
            lichess_challenge_id: None,
        };
        let ghost old_ts = self.transactions@;
        let ghost grec = rec;
        self.transactions.push(rec);
        proof {
            assert forall|u: Seq<char>| #[trigger] self.spec_balance(u) == settled_sum(
                self.transactions@,
                u,
            ) by {
                lemma_settled_sum_push(old_ts, grec, u);
                assert(old(self).spec_balance(u) == settled_sum(old_ts, u));
            }
        }
        id
    }

    /// Transition an `Open` record to `Settled` with `new_amount` and apply
    /// that amount to the owner's balance, in one atomic unit. The update is
    /// conditioned on the stored state still being `Open`: a record already
    /// settled or failed is left untouched and `Ok(false)` is returned,
    /// which is what makes repeated reconciliation sweeps idempotent.
    pub fn settle_open(&mut self, tx_id: i32, new_amount: i64) -> (r: Result<bool, EscrowError>)
        requires
            old(self).wf(),
            old(self).balances@.len() + 1 < i32::MAX,
            old(self).has_tx(tx_id as int) ==> old(self).spec_balance(
                old(self).spec_tx(tx_id as int).username@,
            ) + new_amount <= i64::MAX,
        ensures
            final(self).wf(),
            final(self).balances@.len() <= old(self).balances@.len() + 1,
            !old(self).has_tx(tx_id as int) ==> {
                &&& r == Err::<bool, EscrowError>(EscrowError::NotFound)
                &&& final(self).transactions@ == old(self).transactions@
                &&& final(self).balances@ == old(self).balances@
            },
            old(self).has_tx(tx_id as int) && !(old(self).spec_tx(tx_id as int).state
                == TransactionState::Open) ==> {
                &&& r == Ok::<bool, EscrowError>(false)
                &&& final(self).transactions@ == old(self).transactions@
                &&& final(self).balances@ == old(self).balances@
            },
            old(self).has_tx(tx_id as int) && old(self).spec_tx(tx_id as int).state
                == TransactionState::Open ==> {
                let owner = old(self).spec_tx(tx_id as int).username@;
                let nb = old(self).spec_balance(owner) + new_amount;
                if nb >= 0 {
                    &&& r == Ok::<bool, EscrowError>(true)
                    &&& final(self).transactions@ == old(self).transactions@.update(
                        tx_id - 1,
                        (Transaction {
                            amount: new_amount,
                            state: TransactionState::Settled,
                            ..old(self).spec_tx(tx_id as int)
                        }),
                    )
                    &&& final(self).spec_balance(owner) == nb
                    &&& forall|u: Seq<char>|
                        u != owner ==> final(self).spec_balance(u) == old(self).spec_balance(u)
                } else {
                    &&& r == Err::<bool, EscrowError>(EscrowError::InsufficientFunds)
                    &&& final(self).transactions@ == old(self).transactions@
                    &&& final(self).balances@ == old(self).balances@
                }
            },
    {
        if tx_id < 1 || tx_id as usize > self.transactions.len() {
            return Err(EscrowError::NotFound);
        }
        let k: usize = tx_id as usize - 1;
        match self.transactions[k].state {
            TransactionState::Open => {},
            _ => {
                return Ok(false);
            },
        }
        let owner = self.transactions[k].username.clone();
        let row = self.find_row(&owner);
        let cur: i64 = match row {
            Some(i) => self.balances[i].balance,
            None => 0,
        };
        if new_amount < 0 && cur + new_amount < 0 {
            return Err(EscrowError::InsufficientFunds);
        }
        let nb: i64 = cur + new_amount;
        let ghost old_ts = self.transactions@;
        let ghost old_bs = self.balances@;
        let ghost old_rec = self.transactions@[k as int];
        self.transactions[k].state = TransactionState::Settled;
        self.transactions[k].amount = new_amount;
        proof {
            assert(self.transactions@ =~= old_ts.update(
                k as int,
                (Transaction {
                    amount: new_amount,
                    state: TransactionState::Settled,
                    ..old_rec
                }),
            ));
        }
        let ghost new_rec = self.transactions@[k as int];
        match row {
            Some(i) => {
                self.balances[i].balance = nb;
                proof {
                    lemma_balance_in_update(old_bs, i as int, self.balances@[i as int], owner@);
                }
            },
            None => {
                let new_row = Balance {
                    balance_id: (self.balances.len() + 1) as i32,
                    username: owner.clone(),
                    balance: nb,
                };
                let ghost grow = new_row;
                self.balances.push(new_row);
                proof {
                    lemma_balance_in_push(old_bs, grow, owner@);
                }
            },
        }
        proof {
            assert forall|u: Seq<char>| #[trigger] self.spec_balance(u) == settled_sum(
                self.transactions@,
                u,
            ) by {
                lemma_settled_sum_update(old_ts, k as int, new_rec, u);
                if u != owner@ {
                    match row {
                        Some(i) => {
                            lemma_balance_in_update(
                                old_bs,
                                i as int,
                                self.balances@[i as int],
                                u,
                            );
                        },
                        None => {
                            lemma_balance_in_push(old_bs, self.balances@.last(), u);
                        },
                    }
                }
                assert(old(self).spec_balance(u) == settled_sum(old_ts, u));
            }
            assert forall|u: Seq<char>| u != owner@ implies self.spec_balance(u) == old(
                self,
            ).spec_balance(u) by {
                match row {
                    Some(i) => {
                        lemma_balance_in_update(
                            old_bs,
                            i as int,
                            self.balances@[i as int],
                            u,
                        );
                    },
                    None => {
                        lemma_balance_in_push(old_bs, self.balances@.last(), u);
                    },
                }
            }
        }
        Ok(true)
    }

    /// Transition an `Open` record to `Failed` with the amount the external
    /// lookup reported. No funds move. Conditioned on the stored state still
    /// being `Open`, like `settle_open`.
    pub fn fail_open(&mut self, tx_id: i32, new_amount: i64) -> (r: Result<bool, EscrowError>)
        requires
            old(self).wf(),
        ensures
            final(self).wf(),
            final(self).balances@ == old(self).balances@,
            !old(self).has_tx(tx_id as int) ==> {
                &&& r == Err::<bool, EscrowError>(EscrowError::NotFound)
                &&& final(self).transactions@ == old(self).transactions@
            },
            old(self).has_tx(tx_id as int) && !(old(self).spec_tx(tx_id as int).state
                == TransactionState::Open) ==> {
                &&& r == Ok::<bool, EscrowError>(false)
                &&& final(self).transactions@ == old(self).transactions@
            },
            old(self).has_tx(tx_id as int) && old(self).spec_tx(tx_id as int).state
                == TransactionState::Open ==> {
                &&& r == Ok::<bool, EscrowError>(true)
                &&& final(self).transactions@ == old(self).transactions@.update(
                    tx_id - 1,
                    (Transaction {
                        amount: new_amount,
                        state: TransactionState::Failed,
                        ..old(self).spec_tx(tx_id as int)
                    }),
                )
            },
    {
        if tx_id < 1 || tx_id as usize > self.transactions.len() {
            return Err(EscrowError::NotFound);
        }
        let k: usize = tx_id as usize - 1;
        match self.transactions[k].state {
            TransactionState::Open => {},
            _ => {
                return Ok(false);
            },
        }
        let ghost old_ts = self.transactions@;
        let ghost old_rec = self.transactions@[k as int];
        self.transactions[k].state = TransactionState::Failed;
        self.transactions[k].amount = new_amount;
        proof {
            assert(self.transactions@ =~= old_ts.update(
                k as int,
                (Transaction {
                    amount: new_amount,
                    state: TransactionState::Failed,
                    ..old_rec
                }),
            ));
        }
        let ghost new_rec = self.transactions@[k as int];
        proof {
            assert forall|u: Seq<char>| #[trigger] self.spec_balance(u) == settled_sum(
                self.transactions@,
                u,
            ) by {
                lemma_settled_sum_update(old_ts, k as int, new_rec, u);
                assert(old(self).spec_balance(u) == settled_sum(old_ts, u));
            }
        }
        Ok(true)
    }

    /// The records that belong to `user`, newest first.
    pub fn transactions_for(&self, user: &String) -> (r: Vec<Transaction>)
        ensures
            r@ == rev_filter(self.transactions@, user_tx_pred(user@)),
    {
        let ghost pred = user_tx_pred(user@);
        let mut r: Vec<Transaction> = Vec::new();
        let mut i: usize = self.transactions.len();
        proof {
            assert(self.transactions@.subrange(i as int, self.transactions@.len() as int)
                =~= Seq::<Transaction>::empty());
            assert(rev_filter(Seq::<Transaction>::empty(), pred) == Seq::<Transaction>::empty());
        }
        while i > 0
            invariant
                i <= self.transactions@.len(),
                pred == user_tx_pred(user@),
                r@ == rev_filter(
                    self.transactions@.subrange(i as int, self.transactions@.len() as int),
                    pred,
                ),
            decreases i,
        {
            i = i - 1;
            let ghost tail = self.transactions@.subrange(
                i + 1,
                self.transactions@.len() as int,
            );
            let ghost cur = self.transactions@.subrange(
                i as int,
                self.transactions@.len() as int,
            );
            proof {
                assert(cur =~= seq![self.transactions@[i as int]] + tail);
                lemma_rev_filter_prepend(self.transactions@[i as int], tail, pred);
            }
            if self.transactions[i].username == *user {
                r.push(self.transactions[i].duplicate());
                proof {
                    assert(r@ =~= rev_filter(cur, pred));
                }
            } else {
                proof {
                    assert(r@ =~= rev_filter(cur, pred));
                }
            }
        }
        proof {
            assert(self.transactions@.subrange(0, self.transactions@.len() as int)
                =~= self.transactions@);
        }
        r
    }

    /// The caller's balance row, or a zero row when none exists yet.
    pub fn balance_response(&self, user: &User) -> (b: Balance)
        requires
            self.wf(),
        ensures
            b.username@ == user.username@,
            b.balance == self.spec_balance(user.username@),
            forall|i: int|
                0 <= i < self.balances@.len() && self.balances@[i].username@ == user.username@
                    ==> b == self.balances@[i],
            (forall|i: int|
                0 <= i < self.balances@.len() ==> self.balances@[i].username@ != user.username@)
                ==> b == (Balance { balance_id: 0, username: user.username, balance: 0 }),
    {
        match self.find_row(&user.username) {
            Some(i) => self.balances[i].duplicate(),
            None => Balance { balance_id: 0, username: user.username.clone(), balance: 0 },
        }
    }

    /// Look a record up by id.
    pub fn transaction_by_id(&self, tx_id: i32) -> (r: Option<&Transaction>)
        ensures
            match r {
                Some(t) => self.has_tx(tx_id as int) && *t == self.spec_tx(tx_id as int),
                None => !self.has_tx(tx_id as int),
            },
    {
        if tx_id < 1 || tx_id as usize > self.transactions.len() {
            return None;
        }
        Some(&self.transactions[tx_id as usize - 1])
    }
}

/// The records of `user`, newest first: what one log record contributes.
pub open spec fn user_tx_pred(user: Seq<char>) -> spec_fn(Transaction) -> bool {
    |t: Transaction| t.username@ == user
}

/// Look a record up for a caller; only its owner may see it.
pub fn lookup_transaction<'a>(ledger: &'a LedgerStore, user: &User, transaction_id: i32) -> (r:
    Result<&'a Transaction, EscrowError>)
    ensures
        !ledger.has_tx(transaction_id as int) ==> r == Err::<&'a Transaction, EscrowError>(
            EscrowError::NotFound,
        ),
        ledger.has_tx(transaction_id as int) ==> {
            let t = ledger.spec_tx(transaction_id as int);
            if t.username@ != user.username@ {
                r == Err::<&'a Transaction, EscrowError>(EscrowError::Unauthorized)
            } else {
                r matches Ok(rt) && *rt == t
            }
        },
{
    let t = match ledger.transaction_by_id(transaction_id) {
        Some(t) => t,
        None => {
            return Err(EscrowError::NotFound);
        },
    };
    if t.username != user.username {
        return Err(EscrowError::Unauthorized);
    }
    Ok(t)
}

/// The two ledger invariants, for every user of a well-formed store: the
/// balance equals the sum of the amounts of that user's settled records,
/// and is never negative; and, the balance being a machine integer, it
/// never exceeds `i64::MAX` either.
pub proof fn lemma_ledger_invariants(l: LedgerStore, user: Seq<char>)
    requires
        l.wf(),
    ensures
        l.spec_balance(user) == settled_sum(l.transactions@, user),
        0 <= l.spec_balance(user) <= i64::MAX,
{
    assert(l.spec_balance(user) == settled_sum(l.transactions@, user));
    lemma_balance_in_nonneg(l.balances@, user);
    lemma_balance_in_fits(l.balances@, user);
}

} // verus!
