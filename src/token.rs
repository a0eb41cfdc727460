use vstd::prelude::*;

use crate::authentication::bytes_eq;
use crate::hashes::hmac_sha256;
use crate::hashes::hmac_sha256_of;

verus! {

/// Relies on rand's `random::<u8>` (through secp256k1's re-export): a byte
/// drawn from the thread's generator. Nothing is promised of its value.
#[verifier::external_body]
fn random_byte() -> (r: u8) {
    secp256k1::rand::random::<u8>()
}

/// A fresh random secret of `len` bytes.
pub fn generate_secret(len: usize) -> (r: Vec<u8>)
    ensures
        r@.len() == len,
{
    let mut r: Vec<u8> = Vec::new();
    let mut i: usize = 0;
    while i < len
        invariant
            i <= len,
            r@.len() == i,
        decreases len - i,
    {
        r.push(random_byte());
        i = i + 1;
    }
    r
}

/// The token that proves payment for `msg`: its HMAC-SHA256 under `secret`.
pub fn generate_token(msg: &[u8], secret: &[u8]) -> (r: Vec<u8>)
    ensures
        r@ == hmac_sha256_of(msg@, secret@),
{
    hmac_sha256(msg, secret)
}

/// Whether `expected` is the token for `msg` under `secret`.
pub fn validate_token(msg: &[u8], secret: &[u8], expected: &[u8]) -> (r: bool)
    ensures
        r == (hmac_sha256_of(msg@, secret@) == expected@),
{
    let token = generate_token(msg, secret);
    bytes_eq(token.as_slice(), expected)
}

} // verus!
