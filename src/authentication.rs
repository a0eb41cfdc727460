use vstd::prelude::*;

use crate::address::Address;
use crate::crypto::ecdsa_verifies;
use crate::crypto::pubkey_parses;
use crate::crypto::raw_address_of;
use crate::crypto::signature_parses;
use crate::crypto::CryptoError;
use crate::crypto::Secp256k1;
use crate::crypto::Secp256k1PublicKey;
use crate::crypto::Secp256k1Sig;
use crate::crypto::SigScheme;
use crate::hashes::sha256;
use crate::hashes::sha256_of;
use crate::record::MetadataRecord;
use crate::record::MetadataView;

verus! {

/// Why a record is refused.
#[derive(Clone, Copy, Debug, PartialEq, Eq, Structural)]
pub enum ValidationError {
    /// The record names a signature scheme this server does not know.
    UnsupportedSigScheme,
    /// The public key does not hash to the address it is written for.
    Preimage,
    /// The record carries no payload.
    EmptyPayload,
    /// The payload is older than the one already stored.
    Outdated,
    /// The payload's lifetime has already run out.
    ExpiredTTL,
    /// A key or signature could not be read, or the signature does not verify.
    Crypto(CryptoError),
}

/// The outcome of authenticating a record for an address, step by step: the
/// scheme, the key, the ownership of the address, the payload, the
/// signature's form, and the signature over the payload's SHA-256.
pub open spec fn validate_spec(addr: Seq<u8>, m: MetadataView) -> Result<(), ValidationError> {
    if SigScheme::spec_from_tag(m.scheme) is None {
        Err(ValidationError::UnsupportedSigScheme)
    } else if !pubkey_parses(m.pub_key) {
        Err(ValidationError::Crypto(CryptoError::PubkeyDeserialization))
    } else if raw_address_of(m.pub_key) != addr {
        Err(ValidationError::Preimage)
    } else if m.serialized_payload.len() == 0 {
        Err(ValidationError::EmptyPayload)
    } else if !signature_parses(m.signature) {
        Err(ValidationError::Crypto(CryptoError::SigDeserialization))
    } else if !ecdsa_verifies(sha256_of(m.serialized_payload), m.pub_key, m.signature) {
        Err(ValidationError::Crypto(CryptoError::Verification))
    } else {
        Ok(())
    }
}

/// Decides whether `metadata` may be published for `addr`. Reads nothing
/// but its arguments and changes nothing.
pub fn validate(addr: &Address, metadata: &MetadataRecord) -> (r: Result<(), ValidationError>)
    ensures
        r == validate_spec(addr@, metadata@),
{
    let scheme = match SigScheme::from_tag(metadata.scheme) {
        Some(s) => s,
        None => return Err(ValidationError::UnsupportedSigScheme),
    };
    match scheme {
        SigScheme::Ecdsa => {
            let key = match Secp256k1PublicKey::deserialize(metadata.pub_key.as_slice()) {
                Ok(k) => k,
                Err(e) => return Err(ValidationError::Crypto(e)),
            };
            let key_addr = key.to_raw_address();
            if !bytes_eq(key_addr.as_slice(), addr.as_bytes()) {
                return Err(ValidationError::Preimage);
            }
            if metadata.serialized_payload.len() == 0 {
                return Err(ValidationError::EmptyPayload);
            }
            let digest = sha256(metadata.serialized_payload.as_slice());
            let sig = match Secp256k1Sig::deserialize(metadata.signature.as_slice()) {
                Ok(s) => s,
                Err(e) => return Err(ValidationError::Crypto(e)),
            };
            match Secp256k1::verify(digest.as_slice(), &key, &sig) {
                Ok(()) => Ok(()),
                Err(e) => Err(ValidationError::Crypto(e)),
            }
        },
    }
}

/// Whether two byte strings are equal.
pub fn bytes_eq(a: &[u8], b: &[u8]) -> (r: bool)
    ensures
        r == (a@ == b@),
{
    if a.len() != b.len() {
        return false;
    }
    let mut i: usize = 0;
    while i < a.len()
        invariant
            i <= a@.len(),
            a@.len() == b@.len(),
            a@.subrange(0, i as int) == b@.subrange(0, i as int),
        decreases a@.len() - i,
    {
        if a[i] != b[i] {
            assert(a@[i as int] != b@[i as int]);
            return false;
        }
        i = i + 1;
        assert(a@.subrange(0, i as int) =~= b@.subrange(0, i as int)) by {
            assert(a@.subrange(0, i as int) =~= a@.subrange(0, i - 1).push(a@[i - 1]));
            assert(b@.subrange(0, i as int) =~= b@.subrange(0, i - 1).push(b@[i - 1]));
        }
    }
    assert(a@ =~= a@.subrange(0, i as int));
    assert(b@ =~= b@.subrange(0, i as int));
    true
}

/// A record signed by the key it carries, over a non-empty payload and under
/// a supported scheme, authenticates for the address that key owns.
pub proof fn lemma_signed_record_authenticates(m: MetadataView)
    requires
        SigScheme::spec_from_tag(m.scheme) is Some,
        pubkey_parses(m.pub_key),
        signature_parses(m.signature),
        m.serialized_payload.len() > 0,
        ecdsa_verifies(sha256_of(m.serialized_payload), m.pub_key, m.signature),
    ensures
        validate_spec(raw_address_of(m.pub_key), m) is Ok,
{
}

/// A record that authenticates for one address fails with `Preimage` for
/// every other address.
pub proof fn lemma_other_address_rejected(addr: Seq<u8>, other: Seq<u8>, m: MetadataView)
    requires
        validate_spec(addr, m) is Ok,
        other != addr,
    ensures
        validate_spec(other, m) == Err::<(), ValidationError>(ValidationError::Preimage),
{
}

} // verus!
