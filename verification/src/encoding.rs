//! The outside calls the invoice flow computes with: base64 encoding and
//! decoding, and the random preimage bytes. Each call stands behind one
//! trusted wrapper; the encodings are named functions of the bytes alone.

use vstd::prelude::*;

use rand::Rng;

verus! {

/// What `base64::encode` returns for the given bytes.
pub uninterp spec fn base64_std_of(b: Seq<u8>) -> Seq<char>;

/// What `base64::encode_config` with the URL-safe alphabet returns.
pub uninterp spec fn base64_url_of(b: Seq<u8>) -> Seq<char>;

/// What `base64::decode` returns for input it accepts.
pub uninterp spec fn base64_std_decoded(s: Seq<char>) -> Seq<u8>;

/// An ASCII letter or digit.
pub open spec fn is_alphanumeric_byte(b: u8) -> bool {
    ||| 65 <= b <= 90
    ||| 97 <= b <= 122
    ||| 48 <= b <= 57
}

/// Relies on rand's thread rng with the `Alphanumeric` distribution: every
/// sampled byte is an ASCII letter or digit. The values depend on the rng;
/// nothing is assumed about which bytes come back.
#[verifier::external_body]
pub(crate) fn random_alphanumeric32() -> (r: Vec<u8>)
    ensures
        r@.len() == 32,
        forall|i: int| 0 <= i < r@.len() ==> is_alphanumeric_byte(#[trigger] r@[i]),
{
    rand::thread_rng().sample_iter(&rand::distributions::Alphanumeric).take(32).collect()
}

/// Relies on base64::encode: the standard alphabet with padding, four
/// characters for every started group of three bytes, and a result that is
/// a function of the bytes alone. The length bound keeps the call away
/// from the crate's overflow panic on absurd input sizes.
#[verifier::external_body]
pub(crate) fn b64_encode(b: &Vec<u8>) -> (r: String)
    requires
        b@.len() <= 0x0fff_ffff,
    ensures
        r@ == base64_std_of(b@),
        r@.len() == ((b@.len() + 2) / 3) * 4,
{
    base64::encode(b)
}

/// Relies on base64::encode_config with the URL-safe alphabet (padded),
/// under the same length bound as the standard encoder.
#[verifier::external_body]
pub(crate) fn b64_encode_url_safe(b: &Vec<u8>) -> (r: String)
    requires
        b@.len() <= 0x0fff_ffff,
    ensures
        r@ == base64_url_of(b@),
        r@.len() == ((b@.len() + 2) / 3) * 4,
{
    base64::encode_config(b, base64::URL_SAFE)
}

/// Relies on base64::decode: the decoded bytes are a function of the input
/// alone, and decoding what `base64::encode` produced gives back exactly
/// the encoded bytes.
#[verifier::external_body]
pub(crate) fn b64_decode(s: &str) -> (r: Option<Vec<u8>>)
    ensures
        r matches Some(v) ==> v@ == base64_std_decoded(s@) && (forall|b: Seq<u8>|
            s@ == base64_std_of(b) ==> v@ == b),
        r is None ==> (forall|b: Seq<u8>| s@ != base64_std_of(b)),
{
    match base64::decode(s) {
        Ok(v) => Some(v),
        Err(_) => None,
    }
}

} // verus!
