use bitcoin_hashes::hash160;
use bitcoin_hashes::hmac;
use bitcoin_hashes::sha256;
use bitcoin_hashes::sha256d;
use vstd::prelude::*;

verus! {

/// SHA-256 of a byte string.
pub uninterp spec fn sha256_of(data: Seq<u8>) -> Seq<u8>;

/// SHA-256 applied twice to a byte string.
pub uninterp spec fn sha256d_of(data: Seq<u8>) -> Seq<u8>;

/// RIPEMD-160 of the SHA-256 of a byte string.
pub uninterp spec fn hash160_of(data: Seq<u8>) -> Seq<u8>;

/// HMAC-SHA256 of a message under a key.
pub uninterp spec fn hmac_sha256_of(msg: Seq<u8>, key: Seq<u8>) -> Seq<u8>;

/// Relies on bitcoin_hashes' `sha256::Hash::hash`: a 32-byte digest that
/// depends on the input alone.
#[verifier::external_body]
pub(crate) fn sha256(data: &[u8]) -> (r: Vec<u8>)
    ensures
        r@ == sha256_of(data@),
        r@.len() == 32,
{
    bitcoin_hashes::Hash::to_byte_array(<sha256::Hash as bitcoin_hashes::Hash>::hash(data)).to_vec()
}

/// Relies on bitcoin_hashes' `sha256d::Hash::hash`: a 32-byte digest that
/// depends on the input alone.
#[verifier::external_body]
pub(crate) fn sha256d(data: &[u8]) -> (r: Vec<u8>)
    ensures
        r@ == sha256d_of(data@),
        r@.len() == 32,
{
    bitcoin_hashes::Hash::to_byte_array(<sha256d::Hash as bitcoin_hashes::Hash>::hash(data)).to_vec()
}

/// Relies on bitcoin_hashes' `hash160::Hash::hash`: a 20-byte digest that
/// depends on the input alone.
#[verifier::external_body]
pub(crate) fn hash160(data: &[u8]) -> (r: Vec<u8>)
    ensures
        r@ == hash160_of(data@),
        r@.len() == 20,
{
    bitcoin_hashes::Hash::to_byte_array(<hash160::Hash as bitcoin_hashes::Hash>::hash(data)).to_vec()
}

/// Relies on bitcoin_hashes' HMAC engine over SHA-256 (`HmacEngine::new`,
/// `input`, `Hmac::from_engine`): a 32-byte tag that depends on the message
/// and the key alone.
#[verifier::external_body]
pub(crate) fn hmac_sha256(msg: &[u8], key: &[u8]) -> (r: Vec<u8>)
    ensures
        r@ == hmac_sha256_of(msg@, key@),
        r@.len() == 32,
{
    let mut engine = hmac::HmacEngine::<sha256::Hash>::new(key);
    bitcoin_hashes::HashEngine::input(&mut engine, msg);
    let tag = <hmac::Hmac<sha256::Hash> as bitcoin_hashes::Hash>::from_engine(engine);
    bitcoin_hashes::Hash::to_byte_array(tag).to_vec()
}

} // verus!
