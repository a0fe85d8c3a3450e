use lightningchess::challenge_store::ChallengeStore;
use lightningchess::escrow::{accept_challenge_debit, create_challenge, record_game_created, ChallengeParams};
use lightningchess::ledger::{lookup_transaction, LedgerStore};
use lightningchess::models::{ChallengeAcceptRequest, Color, GameOutcome};
use lightningchess::reconcile::settle_challenge;
use lightningchess::withdraw::{begin_withdrawal, complete_withdrawal};
use lightningchess::models::{EscrowError, TransactionState, TransactionType, User};

fn user(name: &str) -> User {
    User { access_token: String::from("token"), username: String::from(name) }
}

#[test]
fn empty_ledger_reports_zero() {
    let ledger = LedgerStore::new();
    assert_eq!(ledger.get_balance(&String::from("alice")), 0);
}

#[test]
fn post_settled_credits_and_logs() {
    let mut ledger = LedgerStore::new();
    let r = ledger.post_settled(
        &String::from("alice"),
        700,
        TransactionType::Invoice,
        String::from("deposit"),
        None,
        None,
    );
    assert_eq!(r, Ok(700));
    assert_eq!(ledger.get_balance(&String::from("alice")), 700);
    assert_eq!(ledger.transactions.len(), 1);
    assert_eq!(ledger.transactions[0].transaction_id, 1);
    assert_eq!(ledger.transactions[0].amount, 700);
    assert_eq!(ledger.transactions[0].state, TransactionState::Settled);
}

#[test]
fn post_settled_rejects_overdraft() {
    let mut ledger = LedgerStore::new();
    let r = ledger.post_settled(
        &String::from("alice"),
        -1,
        TransactionType::Withdrawal,
        String::new(),
        None,
        None,
    );
    assert_eq!(r, Err(EscrowError::InsufficientFunds));
    assert_eq!(ledger.get_balance(&String::from("alice")), 0);
    assert_eq!(ledger.transactions.len(), 0);
    assert_eq!(ledger.balances.len(), 0);
}

#[test]
fn balance_equals_sum_of_settled_records() {
    let mut ledger = LedgerStore::new();
    let alice = String::from("alice");
    ledger
        .post_settled(&alice, 1000, TransactionType::Invoice, String::new(), None, None)
        .unwrap();
    ledger
        .post_settled(&alice, -300, TransactionType::Withdrawal, String::new(), None, None)
        .unwrap();
    ledger
        .post_settled(&alice, 50, TransactionType::Winnings, String::new(), None, None)
        .unwrap();
    // An Open record moves no funds and does not count as settled.
    ledger.append_open(
        &alice,
        TransactionType::Invoice,
        String::new(),
        0,
        None,
        None,
        None,
        None,
    );
    let sum: i64 = ledger
        .transactions
        .iter()
        .filter(|t| t.username == alice && t.state == TransactionState::Settled)
        .map(|t| t.amount)
        .sum();
    assert_eq!(sum, 750);
    assert_eq!(ledger.get_balance(&alice), 750);
    assert!(ledger.get_balance(&alice) >= 0);
}

#[test]
fn balances_stay_separate_per_user() {
    let mut ledger = LedgerStore::new();
    ledger
        .post_settled(&String::from("alice"), 10, TransactionType::Invoice, String::new(), None, None)
        .unwrap();
    ledger
        .post_settled(&String::from("bob"), 20, TransactionType::Invoice, String::new(), None, None)
        .unwrap();
    assert_eq!(ledger.get_balance(&String::from("alice")), 10);
    assert_eq!(ledger.get_balance(&String::from("bob")), 20);
    assert_eq!(ledger.balances.len(), 2);
}

#[test]
fn transactions_for_lists_newest_first() {
    let mut ledger = LedgerStore::new();
    let alice = String::from("alice");
    ledger.post_settled(&alice, 1, TransactionType::Invoice, String::new(), None, None).unwrap();
    ledger
        .post_settled(&String::from("bob"), 5, TransactionType::Invoice, String::new(), None, None)
        .unwrap();
    ledger.post_settled(&alice, 2, TransactionType::Invoice, String::new(), None, None).unwrap();
    let list = ledger.transactions_for(&alice);
    assert_eq!(list.len(), 2);
    assert_eq!(list[0].transaction_id, 3);
    assert_eq!(list[1].transaction_id, 1);
}

#[test]
fn lookup_transaction_guards_owner() {
    let mut ledger = LedgerStore::new();
    ledger
        .post_settled(&String::from("alice"), 5, TransactionType::Invoice, String::new(), None, None)
        .unwrap();
    let r = lookup_transaction(&ledger, &user("alice"), 1);
    assert!(r.is_ok());
    assert_eq!(r.unwrap().amount, 5);
    let r2 = lookup_transaction(&ledger, &user("mallory"), 1);
    assert!(matches!(r2, Err(EscrowError::Unauthorized)));
    let r3 = lookup_transaction(&ledger, &user("alice"), 9);
    assert!(matches!(r3, Err(EscrowError::NotFound)));
}

#[test]
fn balance_response_defaults_to_zero_row() {
    let mut ledger = LedgerStore::new();
    let b = ledger.balance_response(&user("alice"));
    assert_eq!(b.balance_id, 0);
    assert_eq!(b.username, "alice");
    assert_eq!(b.balance, 0);
    ledger
        .post_settled(&String::from("alice"), 42, TransactionType::Invoice, String::new(), None, None)
        .unwrap();
    let b2 = ledger.balance_response(&user("alice"));
    assert_eq!(b2.balance_id, 1);
    assert_eq!(b2.balance, 42);
}

fn settled_sum_for(ledger: &LedgerStore, name: &str) -> i64 {
    ledger
        .transactions
        .iter()
        .filter(|t| t.username == name && t.state == TransactionState::Settled)
        .map(|t| t.amount)
        .sum()
}

#[test]
fn ledger_conserves_across_a_full_flow() {
    let mut ledger = LedgerStore::new();
    let mut store = ChallengeStore::new();
    let alice = user("alice");
    let bob = user("bob");
    ledger
        .post_settled(&alice.username, 2000, TransactionType::Invoice, String::new(), None, None)
        .unwrap();
    ledger
        .post_settled(&bob.username, 1500, TransactionType::Invoice, String::new(), None, None)
        .unwrap();
    let params = ChallengeParams {
        time_limit: 300,
        opponent_time_limit: 300,
        increment: 0,
        color: Color::Black,
        sats: 1000,
        opp_username: String::from("bob"),
        expire_after: None,
    };
    create_challenge(&mut ledger, &mut store, &alice, params, 1).unwrap();
    accept_challenge_debit(&mut ledger, &store, &bob, &ChallengeAcceptRequest { id: 1 }).unwrap();
    record_game_created(&mut store, 1, String::from("g1")).unwrap();
    settle_challenge(&mut ledger, &mut store, &String::from("admin"), 1, GameOutcome::Winner(Color::White))
        .unwrap();
    // alice created with Black; White won, so bob takes the pot.
    let wid = begin_withdrawal(&mut ledger, &bob, 700, String::from("h1")).unwrap();
    complete_withdrawal(&mut ledger, wid).unwrap();
    for name in ["alice", "bob", "admin"] {
        let bal = ledger.get_balance(&String::from(name));
        assert!(bal >= 0);
        assert_eq!(bal, settled_sum_for(&ledger, name));
    }
    assert_eq!(ledger.get_balance(&String::from("alice")), 1000);
    assert_eq!(ledger.get_balance(&String::from("bob")), 500 + 1980 - 700);
    assert_eq!(ledger.get_balance(&String::from("admin")), 20);
}
