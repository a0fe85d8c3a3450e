//! Funding invoices: the random preimage, the memo, the `Open` invoice
//! record that waits for the payment, and the payment-address form the
//! gateway's lookup endpoint expects.

use vstd::prelude::*;
use vstd::string::StringExecFns;

use crate::encoding::{
    b64_decode, b64_encode, b64_encode_url_safe, base64_std_decoded, base64_std_of, base64_url_of,
    is_alphanumeric_byte, random_alphanumeric32,
};
use crate::ledger::LedgerStore;
use crate::models::{AddInvoiceResponse, TransactionState, TransactionType, User};

verus! {

/// A fresh invoice preimage: 32 random alphanumeric bytes, together with
/// their base64 form as the gateway and the ledger record carry it.
pub fn make_preimage() -> (p: (Vec<u8>, String))
    ensures
        p.0@.len() == 32,
        forall|i: int| 0 <= i < p.0@.len() ==> is_alphanumeric_byte(#[trigger] p.0@[i]),
        p.1@ == base64_std_of(p.0@),
{
    let bytes = random_alphanumeric32();
    let b64 = b64_encode(&bytes);
    (bytes, b64)
}

/// The memo a funding invoice carries.
pub fn funding_memo(username: &String) -> (r: String)
    ensures
        r@ == "funding account "@ + username@ + " on lightningchess.io"@,
{
    let mut m = String::from_str("funding account ");
    m.append(username.as_str());
    m.append(" on lightningchess.io");
    proof {
        assert(("funding account "@ + username@) + " on lightningchess.io"@ =~= "funding account "@
            + username@ + " on lightningchess.io"@);
    }
    m
}

/// Record a freshly created invoice: an `Open` record with amount 0 — the
/// amount stays zero until the payment settles — holding the preimage and
/// the gateway's payment address and payment request.
pub fn record_invoice(
    ledger: &mut LedgerStore,
    user: &User,
    memo: String,
    preimage_b64: String,
    resp: &AddInvoiceResponse,
) -> (id: i32)
    requires
        old(ledger).wf(),
        old(ledger).transactions@.len() + 1 < i32::MAX,
    ensures
        final(ledger).wf(),
        final(ledger).balances@ == old(ledger).balances@,
        id == old(ledger).transactions@.len() + 1,
        final(ledger).transactions@.len() == old(ledger).transactions@.len() + 1,
        final(ledger).transactions@.drop_last() == old(ledger).transactions@,
        ({
            let t = final(ledger).transactions@.last();
            &&& t.transaction_id == id
            &&& t.username@ == user.username@
            &&& t.ttype == TransactionType::Invoice
            &&& t.detail == memo
            &&& t.amount == 0
            &&& t.state == TransactionState::Open
            &&& t.preimage == Some(preimage_b64)
            &&& t.payment_addr matches Some(a) && a@ == resp.payment_addr@
            &&& t.payment_request matches Some(q) && q@ == resp.payment_request@
            &&& t.payment_hash is None
        }),
{
    let id: i32 = ledger.append_open(
        &user.username,
        TransactionType::Invoice,
        memo,
        0,
        Some(preimage_b64),
        Some(resp.payment_addr.clone()),
        Some(resp.payment_request.clone()),
        None,
    );
    proof {
        assert(ledger.transactions@.drop_last() =~= old(ledger).transactions@);
    }
    id
}

/// The payment address in the URL-safe base64 form the gateway's lookup
/// endpoint expects: the stored standard-base64 address, decoded and
/// re-encoded. Success is owed whenever the stored address is a standard
/// base64 encoding of a size the encoder accepts: `None` comes only when
/// the address encodes nothing, or what it encodes is absurdly large.
pub fn payment_addr_url_safe(addr: &str) -> (r: Option<String>)
    ensures
        r matches Some(u) ==> u@ == base64_url_of(base64_std_decoded(addr@)),
        r is None ==> ((forall|b: Seq<u8>| addr@ != base64_std_of(b)) || base64_std_decoded(
            addr@,
        ).len() > 0x0fff_ffff),
{
    match b64_decode(addr) {
        Some(v) => {
            if v.len() <= 0x0fff_ffff {
                Some(b64_encode_url_safe(&v))
            } else {
                None
            }
        },
        None => None,
    }
}

} // verus!
