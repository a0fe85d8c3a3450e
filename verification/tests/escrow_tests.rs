use lightningchess::challenge_store::ChallengeStore;
use lightningchess::escrow::{
    accept_challenge_debit, create_challenge, lookup_challenge, parse_to_lichess_challenge,
    record_game_created, ChallengeParams,
};
use lightningchess::ledger::LedgerStore;
use lightningchess::models::{
    Challenge, ChallengeAcceptRequest, ChallengeStatus, Color, EscrowError, TransactionType, User,
};

fn user(name: &str) -> User {
    User { access_token: String::from("token"), username: String::from(name) }
}

fn fund(ledger: &mut LedgerStore, name: &str, sats: i64) {
    ledger
        .post_settled(
            &String::from(name),
            sats,
            TransactionType::Invoice,
            String::from("deposit"),
            None,
            None,
        )
        .unwrap();
}

fn params(opponent: &str, stake: i64) -> ChallengeParams {
    ChallengeParams {
        time_limit: 300,
        opponent_time_limit: 300,
        increment: 0,
        color: Color::White,
        sats: stake,
        opp_username: String::from(opponent),
        expire_after: Some(3600),
    }
}

#[test]
fn create_challenge_debits_creator() {
    let mut ledger = LedgerStore::new();
    let mut store = ChallengeStore::new();
    fund(&mut ledger, "alice", 1500);
    let r = create_challenge(&mut ledger, &mut store, &user("alice"), params("bob", 1000), 7);
    assert_eq!(r, Ok(1));
    assert_eq!(ledger.get_balance(&String::from("alice")), 500);
    assert_eq!(store.challenges.len(), 1);
    assert_eq!(store.challenges[0].status, ChallengeStatus::WaitingForAcceptance);
    assert_eq!(store.challenges[0].sats, 1000);
    assert_eq!(store.challenges[0].username, "alice");
    assert_eq!(store.challenges[0].opp_username, "bob");
    let debit = &ledger.transactions[ledger.transactions.len() - 1];
    assert_eq!(debit.ttype, TransactionType::CreateChallengeDebit);
    assert_eq!(debit.amount, -1000);
    assert_eq!(debit.detail, "challenge vs bob");
}

#[test]
fn create_challenge_insufficient_funds_changes_nothing() {
    let mut ledger = LedgerStore::new();
    let mut store = ChallengeStore::new();
    fund(&mut ledger, "alice", 500);
    let r = create_challenge(&mut ledger, &mut store, &user("alice"), params("bob", 1000), 7);
    assert_eq!(r, Err(EscrowError::InsufficientFunds));
    assert_eq!(store.challenges.len(), 0);
    assert_eq!(ledger.get_balance(&String::from("alice")), 500);
    assert_eq!(ledger.transactions.len(), 1);
}

#[test]
fn create_challenge_rejects_non_positive_stake() {
    let mut ledger = LedgerStore::new();
    let mut store = ChallengeStore::new();
    fund(&mut ledger, "alice", 500);
    let r = create_challenge(&mut ledger, &mut store, &user("alice"), params("bob", 0), 7);
    assert_eq!(r, Err(EscrowError::Validation));
    let r2 = create_challenge(&mut ledger, &mut store, &user("alice"), params("bob", -5), 7);
    assert_eq!(r2, Err(EscrowError::Validation));
    assert_eq!(store.challenges.len(), 0);
    assert_eq!(ledger.get_balance(&String::from("alice")), 500);
}

#[test]
fn accept_by_stranger_is_unauthorized() {
    let mut ledger = LedgerStore::new();
    let mut store = ChallengeStore::new();
    fund(&mut ledger, "alice", 1000);
    fund(&mut ledger, "mallory", 5000);
    create_challenge(&mut ledger, &mut store, &user("alice"), params("bob", 1000), 7).unwrap();
    let before_txs = ledger.transactions.len();
    let r = accept_challenge_debit(&mut ledger, &store, &user("mallory"), &ChallengeAcceptRequest { id: 1 });
    assert_eq!(r, Err(EscrowError::Unauthorized));
    assert_eq!(ledger.transactions.len(), before_txs);
    assert_eq!(ledger.get_balance(&String::from("mallory")), 5000);
    assert_eq!(store.challenges[0].status, ChallengeStatus::WaitingForAcceptance);
}

#[test]
fn accept_flow_debits_and_records_game() {
    let mut ledger = LedgerStore::new();
    let mut store = ChallengeStore::new();
    fund(&mut ledger, "alice", 1000);
    fund(&mut ledger, "bob", 1200);
    create_challenge(&mut ledger, &mut store, &user("alice"), params("bob", 1000), 7).unwrap();
    let r = accept_challenge_debit(&mut ledger, &store, &user("bob"), &ChallengeAcceptRequest { id: 1 });
    assert_eq!(r, Ok(()));
    assert_eq!(ledger.get_balance(&String::from("bob")), 200);
    let debit = &ledger.transactions[ledger.transactions.len() - 1];
    assert_eq!(debit.ttype, TransactionType::AcceptChallengeDebit);
    assert_eq!(debit.amount, -1000);
    // The external game exists only after the debit committed.
    let r2 = record_game_created(&mut store, 1, String::from("game77"));
    assert_eq!(r2, Ok(()));
    assert_eq!(store.challenges[0].status, ChallengeStatus::Accepted);
    assert_eq!(store.challenges[0].lichess_challenge_id, Some(String::from("game77")));
    // The expected-status guard refuses a second transition.
    let r3 = record_game_created(&mut store, 1, String::from("game78"));
    assert_eq!(r3, Err(EscrowError::InvalidState));
    assert_eq!(store.challenges[0].lichess_challenge_id, Some(String::from("game77")));
}

#[test]
fn accept_with_poor_opponent_fails() {
    let mut ledger = LedgerStore::new();
    let mut store = ChallengeStore::new();
    fund(&mut ledger, "alice", 1000);
    fund(&mut ledger, "bob", 999);
    create_challenge(&mut ledger, &mut store, &user("alice"), params("bob", 1000), 7).unwrap();
    let r = accept_challenge_debit(&mut ledger, &store, &user("bob"), &ChallengeAcceptRequest { id: 1 });
    assert_eq!(r, Err(EscrowError::InsufficientFunds));
    assert_eq!(ledger.get_balance(&String::from("bob")), 999);
}

#[test]
fn accept_missing_challenge_is_not_found() {
    let mut ledger = LedgerStore::new();
    let store = ChallengeStore::new();
    let r = accept_challenge_debit(&mut ledger, &store, &user("bob"), &ChallengeAcceptRequest { id: 4 });
    assert_eq!(r, Err(EscrowError::NotFound));
}

#[test]
fn lookup_challenge_guards_participants() {
    let mut ledger = LedgerStore::new();
    let mut store = ChallengeStore::new();
    fund(&mut ledger, "alice", 1000);
    create_challenge(&mut ledger, &mut store, &user("alice"), params("bob", 1000), 7).unwrap();
    assert!(lookup_challenge(&store, &user("alice"), 1).is_ok());
    assert!(lookup_challenge(&store, &user("bob"), 1).is_ok());
    assert!(matches!(
        lookup_challenge(&store, &user("mallory"), 1),
        Err(EscrowError::Unauthorized)
    ));
    assert!(matches!(lookup_challenge(&store, &user("alice"), 2), Err(EscrowError::NotFound)));
}

#[test]
fn challenges_for_lists_both_sides_newest_first() {
    let mut ledger = LedgerStore::new();
    let mut store = ChallengeStore::new();
    fund(&mut ledger, "alice", 3000);
    fund(&mut ledger, "carol", 3000);
    create_challenge(&mut ledger, &mut store, &user("alice"), params("bob", 100), 1).unwrap();
    create_challenge(&mut ledger, &mut store, &user("carol"), params("dave", 100), 2).unwrap();
    create_challenge(&mut ledger, &mut store, &user("carol"), params("bob", 100), 3).unwrap();
    let list = store.challenges_for(&String::from("bob"));
    assert_eq!(list.len(), 2);
    assert_eq!(list[0].id, 3);
    assert_eq!(list[1].id, 1);
}

#[test]
fn lichess_challenge_flips_color() {
    let c = Challenge {
        id: 1,
        username: String::from("alice"),
        time_limit: 300,
        opponent_time_limit: 300,
        increment: 5,
        color: Color::White,
        sats: 100,
        opp_username: String::from("bob"),
        status: ChallengeStatus::WaitingForAcceptance,
        lichess_challenge_id: None,
        created_on: 7,
        expire_after: None,
    };
    let l = parse_to_lichess_challenge(&c);
    assert!(l.rated);
    assert_eq!(l.color, "black");
    assert_eq!(l.variant, "standard");
    assert_eq!(l.rules, "noClaimWin");
    assert_eq!(l.clock.limit, "300");
    assert_eq!(l.clock.increment, "5");
}
