use vstd::prelude::*;
use vstd::string::StringSliceAdditionalSpecFns;
use vstd::utf8::decode_utf8;
use vstd::utf8::valid_utf8;

use crate::bitcoin::utf8_text;
use crate::hashes::hmac_sha256;
use crate::hashes::hmac_sha256_of;
use crate::server::Method;
use crate::token::validate_token;
use crate::wire::copy_range;

verus! {

/// Seconds a payment request stays valid.
pub const PAYMENT_VALID_SECS: u64 = 30;

/// Why a payment, or a write that should have been paid for, is refused.
#[derive(Clone, Copy, Debug, PartialEq, Eq, Structural)]
pub enum PaymentError {
    Content,
    Accept,
    Decode,
    Payload,
    NoMerchantDat,
    InvalidMerchantDat,
    InvalidAuth,
    NoToken,
    URIMalformed,
    NoTx,
    TxDeserialize,
    InvalidOutputs,
    InvalidTx,
    MismatchedNetwork,
    AddrFetchFailed,
}

/// The URL-safe, unpadded Base64 text of a byte string.
pub uninterp spec fn base64url_of(data: Seq<u8>) -> Seq<char>;

/// The bytes that URL-safe, unpadded Base64 reads from a text, if any.
pub uninterp spec fn base64url_read(s: Seq<char>) -> Option<Seq<u8>>;

/// Relies on base64's `URL_SAFE_NO_PAD` engine, `encode`: the text depends
/// on the bytes alone.
#[verifier::external_body]
fn base64url_encode(data: &[u8]) -> (r: String)
    ensures
        r@ == base64url_of(data@),
{
    base64::Engine::encode(&base64::engine::general_purpose::URL_SAFE_NO_PAD, data)
}

/// Relies on base64's `URL_SAFE_NO_PAD` engine, `decode`: it depends on the
/// text alone, and reads back exactly the bytes that `encode` wrote.
#[verifier::external_body]
fn base64url_decode(s: &str) -> (r: Option<Vec<u8>>)
    ensures
        r is None <==> base64url_read(s@) is None,
        r matches Some(v) ==> base64url_read(s@) == Some(v@),
        r is None ==> forall|b: Seq<u8>| #[trigger] base64url_of(b) != s@,
        r matches Some(v) ==> forall|b: Seq<u8>| #[trigger] base64url_of(b) == s@ ==> v@ == b,
{
    base64::Engine::decode(&base64::engine::general_purpose::URL_SAFE_NO_PAD, s).ok()
}

/// The proof of payment handed out for a paid write: the Base64 text of the
/// HMAC of the merchant data under the server's secret.
pub fn issue_token(merchant_data: &[u8], secret: &[u8]) -> (r: String)
    ensures
        r@ == base64url_of(hmac_sha256_of(merchant_data@, secret@)),
{
    let tag = hmac_sha256(merchant_data, secret);
    base64url_encode(tag.as_slice())
}

/// Whether a token text proves payment for `merchant_url`. A token that
/// `issue_token` made for the same URL and secret always does.
pub fn check_token(merchant_url: &[u8], secret: &[u8], token: &str) -> (r: bool)
    ensures
        r == (base64url_read(token@) is Some && base64url_read(token@).unwrap() == hmac_sha256_of(
            merchant_url@,
            secret@,
        )),
        token@ == base64url_of(hmac_sha256_of(merchant_url@, secret@)) ==> r,
{
    match base64url_decode(token) {
        Some(t) => validate_token(merchant_url, secret, t.as_slice()),
        None => false,
    }
}

/// The bytes of "POP ", the scheme of a proof-of-payment authorization.
pub open spec fn pop_prefix() -> Seq<u8> {
    seq![80u8, 79, 80, 32]
}

/// The token of a `POP <token>` authorization header.
pub open spec fn pop_token_spec(auth: Seq<u8>) -> Option<Seq<char>> {
    if auth.len() >= 4 && auth.take(4) == pop_prefix() && valid_utf8(auth.skip(4)) {
        Some(decode_utf8(auth.skip(4)))
    } else {
        None
    }
}

/// Reads the token out of a `POP <token>` authorization header.
pub fn pop_token(auth: &str) -> (r: Option<String>)
    ensures
        match pop_token_spec(auth.spec_bytes()) {
            Some(t) => r matches Some(s) && s@ == t,
            None => r is None,
        },
{
    let b = auth.as_bytes();
    if b.len() < 4 {
        return None;
    }
    if b[0] != 80 || b[1] != 79 || b[2] != 80 || b[3] != 32 {
        assert(b@.take(4) != pop_prefix()) by {
            if b@.take(4) == pop_prefix() {
                assert(b@.take(4)[0] == b@[0]);
                assert(b@.take(4)[1] == b@[1]);
                assert(b@.take(4)[2] == b@[2]);
                assert(b@.take(4)[3] == b@[3]);
            }
        }
        return None;
    }
    assert(b@.take(4) =~= pop_prefix());
    let rest = copy_range(b, 4, b.len());
    assert(rest@ =~= b@.skip(4));
    utf8_text(rest.as_slice())
}

/// What the payment gate does with a request.
#[derive(Clone, Copy, Debug, PartialEq, Eq, Structural)]
pub enum Gate {
    /// Let the request through.
    Pass,
    /// No proof of payment: answer with a payment request.
    Invoice,
    /// Refuse the request.
    Refuse(PaymentError),
}

/// The payment gate: only writes are paid for; a write without an
/// authorization gets an invoice; one with a `POP` token for
/// `merchant_url` passes; any other is refused as `InvalidAuth`.
/// `authorization` is `Some` of the header's text, `Some("")` where the
/// header is not text.
pub fn check_payment(method: Method, authorization: Option<&str>, merchant_url: &str, secret: &[u8]) -> (r:
    Gate)
    ensures
        method != Method::Put ==> r == Gate::Pass,
        method == Method::Put && authorization is None ==> r == Gate::Invoice,
        method == Method::Put && authorization is Some ==> (r == Gate::Pass <==> (match pop_token_spec(
            authorization.unwrap().spec_bytes(),
        ) {
            Some(t) => base64url_read(t) == Some(hmac_sha256_of(merchant_url.spec_bytes(), secret@)),
            None => false,
        })),
        method == Method::Put && authorization is Some && r != Gate::Pass ==> r == Gate::Refuse(
            PaymentError::InvalidAuth,
        ),
{
    if method != Method::Put {
        return Gate::Pass;
    }
    let auth = match authorization {
        Some(a) => a,
        None => return Gate::Invoice,
    };
    let token = match pop_token(auth) {
        Some(t) => t,
        None => return Gate::Refuse(PaymentError::InvalidAuth),
    };
    if check_token(merchant_url.as_bytes(), secret, token.as_str()) {
        Gate::Pass
    } else {
        Gate::Refuse(PaymentError::InvalidAuth)
    }
}

/// The URL a payment for a write of `path` is bound to: `{scheme}://{host}{path}`.
pub fn merchant_url(scheme: &str, host: &str, path: &str) -> (r: String)
    ensures
        r@ == scheme@ + "://"@ + host@ + path@,
{
    let mut url = String::from_str(scheme);
    url.append("://");
    url.append(host);
    url.append(path);
    url
}

} // verus!
