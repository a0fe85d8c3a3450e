//! Data model of the escrow core: enumerated statuses, ledger rows, and the
//! plain-value records exchanged with the routing layer and the external
//! collaborators.

use vstd::prelude::*;

verus! {

/// Lifecycle of a challenge. The only valid transitions are
/// `WaitingForAcceptance -> Accepted -> Completed`; `Completed` is terminal.
#[derive(Clone, Copy, Debug, PartialEq, Eq, Structural)]
pub enum ChallengeStatus {
    WaitingForAcceptance,
    Accepted,
    Completed,
}

/// State of a ledger transaction record. Records are created `Open` or
/// `Settled`; an `Open` record may later transition to `Settled` or `Failed`,
/// and only balance-neutral records stay `Open` or become `Failed`.
#[derive(Clone, Copy, Debug, PartialEq, Eq, Structural)]
pub enum TransactionState {
    Open,
    Settled,
    Failed,
}

/// Kind of a ledger transaction record.
#[derive(Clone, Copy, Debug, PartialEq, Eq, Structural)]
pub enum TransactionType {
    Invoice,
    Withdrawal,
    CreateChallengeDebit,
    AcceptChallengeDebit,
    Fee,
    Winnings,
    DrawRefund,
}

/// Chess color; a challenge stores the creator's color.
#[derive(Clone, Copy, Debug, PartialEq, Eq, Structural)]
pub enum Color {
    White,
    Black,
}

/// State of an invoice as reported by the payment gateway.
#[derive(Clone, Copy, Debug, PartialEq, Eq, Structural)]
pub enum InvoiceState {
    Open,
    Accepted,
    Settled,
    Canceled,
}

/// Outcome of a game as reported by the game result provider.
#[derive(Clone, Copy, Debug, PartialEq, Eq, Structural)]
pub enum GameOutcome {
    InProgress,
    Winner(Color),
    Draw,
}

/// Failure taxonomy of the coordinators. Every error is reported before any
/// state change: an operation either commits completely or not at all.
#[derive(Clone, Copy, Debug, PartialEq, Eq, Structural)]
pub enum EscrowError {
    Validation,
    InsufficientFunds,
    Unauthorized,
    InvalidState,
    NotFound,
    ExternalService,
}

/// A wager between a creator and an opponent. The stake is fixed at creation
/// and never mutated; `lichess_challenge_id` is set once the challenge is
/// accepted and the external game exists.
pub struct Challenge {
    pub id: i32,
    pub username: String,
    pub time_limit: i32,
    pub opponent_time_limit: i32,
    pub increment: i32,
    pub color: Color,
    pub sats: i64,
    pub opp_username: String,
    pub status: ChallengeStatus,
    pub lichess_challenge_id: Option<String>,
    pub created_on: i64,
    pub expire_after: Option<i32>,
}

/// One row of the append-only transaction log. Every balance mutation is
/// justified by exactly one `Settled` record of the same signed amount.
pub struct Transaction {
    pub transaction_id: i32,
    pub username: String,
    pub ttype: TransactionType,
    pub detail: String,
    pub amount: i64,
    pub state: TransactionState,
    pub preimage: Option<String>,
    pub payment_addr: Option<String>,
    pub payment_request: Option<String>,
    pub payment_hash: Option<String>,
    pub lichess_challenge_id: Option<String>,
}

/// Current balance of one user, in the smallest unit.
pub struct Balance {
    pub balance_id: i32,
    pub username: String,
    pub balance: i64,
}

/// Verified principal: the authentication collaborator validates a bearer
/// credential and hands this value into every coordinator call.
pub struct User {
    pub access_token: String,
    pub username: String,
}

/// Request to accept an existing challenge by id.
pub struct ChallengeAcceptRequest {
    pub id: i32,
}

/// Request to fund the caller's account with a fresh invoice.
pub struct AddInvoiceRequest {
    pub sats: i64,
}

/// Request to withdraw funds against an encoded payment request.
pub struct SendPaymentRequest {
    pub payment_request: String,
}

/// Acknowledgement returned once an outbound payment settles locally.
pub struct SendPaymentResponse {
    pub complete: bool,
}

/// What the payment gateway returns for a freshly created invoice.
pub struct AddInvoiceResponse {
    pub payment_request: String,
    pub add_index: String,
    pub payment_addr: String,
}

/// A decoded payment request, all fields as the gateway reports them.
pub struct DecodedPayment {
    pub destination: String,
    pub payment_hash: String,
    pub num_satoshis: String,
    pub timestamp: String,
    pub expiry: String,
    pub description: String,
    pub description_hash: String,
    pub fallback_addr: String,
    pub cltv_expiry: String,
    pub payment_addr: String,
    pub num_msat: String,
}

/// Request to look an invoice up by its payment address.
pub struct LookupInvoice {
    pub payment_addr: String,
}

/// What the payment gateway returns for an invoice lookup.
pub struct LookupInvoiceResponse {
    pub memo: String,
    pub value: String,
    pub settled: bool,
    pub creation_date: String,
    pub settle_date: String,
    pub payment_request: String,
    pub expiry: String,
    pub amt_paid_sat: String,
    pub state: String,
}

/// What the game service reports for an exported game.
pub struct LichessExportGameResponse {
    pub id: String,
    pub rated: bool,
    pub variant: String,
    pub speed: String,
    pub perf: String,
    pub status: String,
    pub winner: Option<String>,
}

/// Profile of the calling user as shown by the routing layer.
pub struct UserProfile {
    pub username: String,
}

/// A challenge to be posted to the external game service.
pub struct LichessChallenge {
    pub rated: bool,
    pub clock: LichessChallengeClock,
    pub color: String,
    pub variant: String,
    pub rules: String,
}

/// Clock settings of a posted challenge, as decimal strings.
pub struct LichessChallengeClock {
    pub limit: String,
    pub increment: String,
}

/// A field-by-field copy of an optional string, equal in value.
fn clone_opt_string(o: &Option<String>) -> (r: Option<String>)
    ensures
        r == *o,
{
    match o {
        Some(s) => Some(s.clone()),
        None => None,
    }
}

impl Transaction {
    /// A copy equal to this record.
    pub fn duplicate(&self) -> (c: Transaction)
        ensures
            c == *self,
    {
        Transaction {
            transaction_id: self.transaction_id,
            username: self.username.clone(),
            ttype: self.ttype,
            detail: self.detail.clone(),
            amount: self.amount,
            state: self.state,
            preimage: clone_opt_string(&self.preimage),
            payment_addr: clone_opt_string(&self.payment_addr),
            payment_request: clone_opt_string(&self.payment_request),
            payment_hash: clone_opt_string(&self.payment_hash),
            lichess_challenge_id: clone_opt_string(&self.lichess_challenge_id),
        }
    }
}

impl Challenge {
    /// A copy equal to this record.
    pub fn duplicate(&self) -> (c: Challenge)
        ensures
            c == *self,
    {
        Challenge {
            id: self.id,
            username: self.username.clone(),
            time_limit: self.time_limit,
            opponent_time_limit: self.opponent_time_limit,
            increment: self.increment,
            color: self.color,
            sats: self.sats,
            opp_username: self.opp_username.clone(),
            status: self.status,
            lichess_challenge_id: clone_opt_string(&self.lichess_challenge_id),
            created_on: self.created_on,
            expire_after: self.expire_after,
        }
    }
}

impl Balance {
    /// A copy equal to this row.
    pub fn duplicate(&self) -> (c: Balance)
        ensures
            c == *self,
    {
        Balance {
            balance_id: self.balance_id,
            username: self.username.clone(),
            balance: self.balance,
        }
    }
}

pub fn default_string() -> (r: String)
    ensures
        r@ == Seq::<char>::empty(),
{
    String::new()
}

pub fn default_i32() -> (r: i32)
    ensures
        r == 0,
{
    0
}

/// The profile shown for a verified principal: just the username.
pub fn profile(user: &User) -> (p: UserProfile)
    ensures
        p.username@ == user.username@,
{
    UserProfile { username: user.username.clone() }
}

} // verus!
