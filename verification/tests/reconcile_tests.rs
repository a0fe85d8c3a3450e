use lightningchess::challenge_store::ChallengeStore;
use lightningchess::escrow::{accept_challenge_debit, create_challenge, record_game_created, ChallengeParams};
use lightningchess::invoice::record_invoice;
use lightningchess::ledger::LedgerStore;
use lightningchess::models::{
    AddInvoiceResponse, ChallengeAcceptRequest, ChallengeStatus, Color, EscrowError, GameOutcome, InvoiceState,
    LichessExportGameResponse, LookupInvoiceResponse, TransactionState, TransactionType, User,
};
use lightningchess::reconcile::{
    apply_invoice_update, fee_for, game_outcome_of, invoice_observation, open_invoices,
    settle_challenge,
};

fn user(name: &str) -> User {
    User { access_token: String::from("token"), username: String::from(name) }
}

fn fund(ledger: &mut LedgerStore, name: &str, sats: i64) {
    ledger
        .post_settled(
            &String::from(name),
            sats,
            TransactionType::Invoice,
            String::from("deposit"),
            None,
            None,
        )
        .unwrap();
}

fn export(status: &str, winner: Option<&str>) -> LichessExportGameResponse {
    LichessExportGameResponse {
        id: String::from("game77"),
        rated: true,
        variant: String::from("standard"),
        speed: String::from("blitz"),
        perf: String::from("blitz"),
        status: String::from(status),
        winner: winner.map(String::from),
    }
}

fn lookup(state: &str, amt: &str) -> LookupInvoiceResponse {
    LookupInvoiceResponse {
        memo: String::from("m"),
        value: String::from("0"),
        settled: state == "SETTLED",
        creation_date: String::from("0"),
        settle_date: String::from("0"),
        payment_request: String::from("req"),
        expiry: String::from("1800"),
        amt_paid_sat: String::from(amt),
        state: String::from(state),
    }
}

/// A fully accepted challenge between alice (White, creator) and bob,
/// stake 1000 each, both starting from the given balance.
fn accepted_game(start: i64) -> (LedgerStore, ChallengeStore) {
    let mut ledger = LedgerStore::new();
    let mut store = ChallengeStore::new();
    fund(&mut ledger, "alice", start);
    fund(&mut ledger, "bob", start);
    let params = ChallengeParams {
        time_limit: 300,
        opponent_time_limit: 300,
        increment: 0,
        color: Color::White,
        sats: 1000,
        opp_username: String::from("bob"),
        expire_after: None,
    };
    create_challenge(&mut ledger, &mut store, &user("alice"), params, 7).unwrap();
    accept_challenge_debit(&mut ledger, &store, &user("bob"), &ChallengeAcceptRequest { id: 1 }).unwrap();
    record_game_created(&mut store, 1, String::from("game77")).unwrap();
    (ledger, store)
}

#[test]
fn fee_is_two_percent_rounded_to_even() {
    assert_eq!(fee_for(1000), 20);
    assert_eq!(fee_for(0), 0);
    assert_eq!(fee_for(49), 0);
    assert_eq!(fee_for(50), 0); // 1 rounded down to even
    assert_eq!(fee_for(100), 2);
    assert_eq!(fee_for(149), 2);
    assert_eq!(fee_for(150), 2); // 3 rounded down to even
    assert_eq!(fee_for(200), 4);
}

#[test]
fn decisive_game_pays_winner_and_admin() {
    let (mut ledger, mut store) = accepted_game(1000);
    // Pot is 2000; both players are at 0 after the two debits.
    let r = settle_challenge(
        &mut ledger,
        &mut store,
        &String::from("admin"),
        1,
        GameOutcome::Winner(Color::White),
    );
    assert_eq!(r, Ok(true));
    // alice created with White and White won: 2*1000 - 20.
    assert_eq!(ledger.get_balance(&String::from("alice")), 1980);
    assert_eq!(ledger.get_balance(&String::from("bob")), 0);
    assert_eq!(ledger.get_balance(&String::from("admin")), 20);
    assert_eq!(store.challenges[0].status, ChallengeStatus::Completed);
    // Total credited equals the pot.
    assert_eq!(1980 + 20, 2000);
    let fee_rec = &ledger.transactions[4];
    assert_eq!(fee_rec.ttype, TransactionType::Fee);
    assert_eq!(fee_rec.amount, 20);
    assert_eq!(fee_rec.username, "admin");
    assert_eq!(fee_rec.detail, "fee from challenge 1");
    assert_eq!(fee_rec.lichess_challenge_id, Some(String::from("game77")));
    let win_rec = &ledger.transactions[5];
    assert_eq!(win_rec.ttype, TransactionType::Winnings);
    assert_eq!(win_rec.amount, 1980);
    assert_eq!(win_rec.username, "alice");
    assert_eq!(win_rec.detail, "");
}

#[test]
fn decisive_game_black_pays_opponent() {
    let (mut ledger, mut store) = accepted_game(1000);
    settle_challenge(
        &mut ledger,
        &mut store,
        &String::from("admin"),
        1,
        GameOutcome::Winner(Color::Black),
    )
    .unwrap();
    assert_eq!(ledger.get_balance(&String::from("alice")), 0);
    assert_eq!(ledger.get_balance(&String::from("bob")), 1980);
    assert_eq!(ledger.get_balance(&String::from("admin")), 20);
}

#[test]
fn draw_refunds_both_sides() {
    let (mut ledger, mut store) = accepted_game(1000);
    let r = settle_challenge(&mut ledger, &mut store, &String::from("admin"), 1, GameOutcome::Draw);
    assert_eq!(r, Ok(true));
    assert_eq!(ledger.get_balance(&String::from("alice")), 990);
    assert_eq!(ledger.get_balance(&String::from("bob")), 990);
    assert_eq!(ledger.get_balance(&String::from("admin")), 20);
    assert_eq!(990 * 2 + 20, 2000);
    assert_eq!(store.challenges[0].status, ChallengeStatus::Completed);
    let d1 = &ledger.transactions[5];
    assert_eq!(d1.ttype, TransactionType::DrawRefund);
    assert_eq!(d1.detail, "initial sats amount minus 2% fee");
}

#[test]
fn settle_skips_game_in_progress_and_never_runs_twice() {
    let (mut ledger, mut store) = accepted_game(1000);
    let skipped = settle_challenge(
        &mut ledger,
        &mut store,
        &String::from("admin"),
        1,
        GameOutcome::InProgress,
    );
    assert_eq!(skipped, Ok(false));
    assert_eq!(store.challenges[0].status, ChallengeStatus::Accepted);
    settle_challenge(&mut ledger, &mut store, &String::from("admin"), 1, GameOutcome::Draw)
        .unwrap();
    let again =
        settle_challenge(&mut ledger, &mut store, &String::from("admin"), 1, GameOutcome::Draw);
    assert_eq!(again, Err(EscrowError::InvalidState));
    assert_eq!(ledger.get_balance(&String::from("alice")), 990);
    assert_eq!(ledger.get_balance(&String::from("admin")), 20);
}

#[test]
fn game_outcome_classification() {
    assert_eq!(game_outcome_of(&export("created", None)), GameOutcome::InProgress);
    assert_eq!(game_outcome_of(&export("started", Some("white"))), GameOutcome::InProgress);
    assert_eq!(game_outcome_of(&export("mate", Some("white"))), GameOutcome::Winner(Color::White));
    assert_eq!(game_outcome_of(&export("resign", Some("black"))), GameOutcome::Winner(Color::Black));
    assert_eq!(game_outcome_of(&export("draw", None)), GameOutcome::Draw);
    assert_eq!(game_outcome_of(&export("stalemate", Some("none"))), GameOutcome::Draw);
}

#[test]
fn invoice_observation_reads_state_and_amount() {
    assert_eq!(invoice_observation(&lookup("SETTLED", "700")), Some((InvoiceState::Settled, 700)));
    assert_eq!(invoice_observation(&lookup("OPEN", "0")), Some((InvoiceState::Open, 0)));
    assert_eq!(invoice_observation(&lookup("ACCEPTED", "5")), Some((InvoiceState::Accepted, 5)));
    assert_eq!(invoice_observation(&lookup("CANCELED", "0")), Some((InvoiceState::Canceled, 0)));
    assert_eq!(invoice_observation(&lookup("UNKNOWN", "0")), None);
    assert_eq!(invoice_observation(&lookup("SETTLED", "7x0")), None);
    assert_eq!(invoice_observation(&lookup("SETTLED", "-1")), None);
}

#[test]
fn invoice_sweep_credits_exactly_once() {
    let mut ledger = LedgerStore::new();
    let resp = AddInvoiceResponse {
        payment_request: String::from("lnbc1..."),
        add_index: String::from("1"),
        payment_addr: String::from("addr=="),
    };
    let id = record_invoice(
        &mut ledger,
        &user("alice"),
        String::from("funding account alice on lightningchess.io"),
        String::from("preimage=="),
        &resp,
    );
    assert_eq!(id, 1);
    assert_eq!(ledger.get_balance(&String::from("alice")), 0);
    // First sweep: the gateway still reports the invoice open - no effect.
    assert_eq!(apply_invoice_update(&mut ledger, id, InvoiceState::Open, 0), Ok(false));
    assert_eq!(ledger.get_balance(&String::from("alice")), 0);
    // The payment settles externally; the next sweep credits exactly once.
    assert_eq!(apply_invoice_update(&mut ledger, id, InvoiceState::Settled, 700), Ok(true));
    assert_eq!(ledger.get_balance(&String::from("alice")), 700);
    assert_eq!(ledger.transactions[0].state, TransactionState::Settled);
    assert_eq!(ledger.transactions[0].amount, 700);
    // A repeated sweep finds the record settled and is a no-op.
    assert_eq!(apply_invoice_update(&mut ledger, id, InvoiceState::Settled, 700), Ok(false));
    assert_eq!(ledger.get_balance(&String::from("alice")), 700);
    assert_eq!(ledger.transactions.len(), 1);
}

#[test]
fn canceled_invoice_fails_without_credit() {
    let mut ledger = LedgerStore::new();
    let resp = AddInvoiceResponse {
        payment_request: String::from("lnbc1..."),
        add_index: String::from("1"),
        payment_addr: String::from("addr=="),
    };
    let id = record_invoice(&mut ledger, &user("alice"), String::from("m"), String::from("p"), &resp);
    assert_eq!(apply_invoice_update(&mut ledger, id, InvoiceState::Canceled, 0), Ok(true));
    assert_eq!(ledger.transactions[0].state, TransactionState::Failed);
    assert_eq!(ledger.get_balance(&String::from("alice")), 0);
    assert_eq!(apply_invoice_update(&mut ledger, id, InvoiceState::Settled, 700), Ok(false));
    assert_eq!(ledger.get_balance(&String::from("alice")), 0);
}

#[test]
fn invoice_sweep_rejects_non_invoice_records() {
    let mut ledger = LedgerStore::new();
    fund(&mut ledger, "alice", 100);
    let id = ledger.append_open(
        &String::from("alice"),
        TransactionType::Withdrawal,
        String::new(),
        -50,
        None,
        None,
        None,
        Some(String::from("hash")),
    );
    assert_eq!(
        apply_invoice_update(&mut ledger, id, InvoiceState::Settled, 50),
        Err(EscrowError::InvalidState)
    );
    assert_eq!(
        apply_invoice_update(&mut ledger, 9, InvoiceState::Settled, 50),
        Err(EscrowError::NotFound)
    );
}

#[test]
fn open_invoices_lists_pending_records_newest_first() {
    let mut ledger = LedgerStore::new();
    let mk = |addr: &str| AddInvoiceResponse {
        payment_request: String::from("req"),
        add_index: String::from("1"),
        payment_addr: String::from(addr),
    };
    let a = record_invoice(&mut ledger, &user("alice"), String::from("m"), String::from("p"), &mk("a1"));
    let _b = record_invoice(&mut ledger, &user("bob"), String::from("m"), String::from("p"), &mk("b1"));
    let c = record_invoice(&mut ledger, &user("alice"), String::from("m"), String::from("p"), &mk("a2"));
    apply_invoice_update(&mut ledger, a, InvoiceState::Settled, 10).unwrap();
    let pending = open_invoices(&ledger, &String::from("alice"));
    assert_eq!(pending.len(), 1);
    assert_eq!(pending[0].0, c);
    assert_eq!(pending[0].1, "a2");
}
