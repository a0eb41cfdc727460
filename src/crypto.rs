use vstd::prelude::*;

use crate::hashes::hash160;
use crate::hashes::hash160_of;

verus! {

#[verifier::external_type_specification]
#[verifier::external_body]
pub struct ExSecpPublicKey(secp256k1::PublicKey);

#[verifier::external_type_specification]
#[verifier::external_body]
pub struct ExSecpSignature(secp256k1::ecdsa::Signature);

/// Whether secp256k1 accepts a byte string as a public key.
pub uninterp spec fn pubkey_parses(raw: Seq<u8>) -> bool;

/// The 65-byte uncompressed form of the public key that a byte string encodes.
pub uninterp spec fn uncompressed_of(raw: Seq<u8>) -> Seq<u8>;

/// Whether secp256k1 accepts a byte string as a compact ECDSA signature.
pub uninterp spec fn signature_parses(raw: Seq<u8>) -> bool;

/// Whether an ECDSA signature (compact bytes) over a 32-byte digest verifies
/// under a public key (its encoded bytes).
pub uninterp spec fn ecdsa_verifies(digest: Seq<u8>, pubkey: Seq<u8>, sig: Seq<u8>) -> bool;

/// Failures of the signature primitives and of the address codecs.
#[derive(Clone, Copy, Debug, PartialEq, Eq, Structural)]
pub enum CryptoError {
    PubkeyDeserialization,
    SigDeserialization,
    Verification,
    Decoding,
    Encoding,
}

/// A secp256k1 public key, kept together with the bytes it was parsed from.
/// `key` is only ever set by `deserialize`, from `raw`.
pub struct Secp256k1PublicKey {
    key: secp256k1::PublicKey,
    raw: Vec<u8>,
}

/// A compact ECDSA signature, kept together with the bytes it was parsed from.
/// `sig` is only ever set by `deserialize`, from `raw`.
pub struct Secp256k1Sig {
    sig: secp256k1::ecdsa::Signature,
    raw: Vec<u8>,
}

impl View for Secp256k1PublicKey {
    type V = Seq<u8>;

    closed spec fn view(&self) -> Seq<u8> {
        self.raw@
    }
}

impl View for Secp256k1Sig {
    type V = Seq<u8>;

    closed spec fn view(&self) -> Seq<u8> {
        self.raw@
    }
}

/// The address that a public key (given by its encoded bytes) owns: the
/// HASH160 of its uncompressed form.
pub open spec fn raw_address_of(pubkey: Seq<u8>) -> Seq<u8> {
    hash160_of(uncompressed_of(pubkey))
}

/// Relies on secp256k1's `PublicKey::from_slice`: whether it accepts the
/// bytes depends on them alone.
#[verifier::external_body]
fn parse_secp_pubkey(raw: &[u8]) -> (r: Option<Secp256k1PublicKey>)
    ensures
        r.is_some() == pubkey_parses(raw@),
        r matches Some(k) ==> k@ == raw@,
{
    match secp256k1::PublicKey::from_slice(raw) {
        Ok(key) => Some(Secp256k1PublicKey { key, raw: raw.to_vec() }),
        Err(_) => None,
    }
}

/// Relies on secp256k1's `ecdsa::Signature::from_compact`: whether it
/// accepts the bytes depends on them alone.
#[verifier::external_body]
fn parse_secp_signature(raw: &[u8]) -> (r: Option<Secp256k1Sig>)
    ensures
        r.is_some() == signature_parses(raw@),
        r matches Some(s) ==> s@ == raw@,
{
    match secp256k1::ecdsa::Signature::from_compact(raw) {
        Ok(sig) => Some(Secp256k1Sig { sig, raw: raw.to_vec() }),
        Err(_) => None,
    }
}

/// Relies on secp256k1's `PublicKey::serialize_uncompressed` of the key that
/// `from_slice` made of `key@`.
#[verifier::external_body]
fn serialize_secp_pubkey(key: &Secp256k1PublicKey) -> (r: Vec<u8>)
    ensures
        r@ == uncompressed_of(key@),
{
    key.key.serialize_uncompressed().to_vec()
}

/// Relies on secp256k1's `Secp256k1::verify_ecdsa` (the digest taken as a
/// `Message` by `Message::from_slice`, which accepts any 32 bytes): whether
/// it accepts depends on the digest and on the bytes of the key and of the
/// signature alone.
#[verifier::external_body]
fn verify_secp(digest: &[u8], key: &Secp256k1PublicKey, sig: &Secp256k1Sig) -> (r: bool)
    requires
        digest@.len() == 32,
    ensures
        r == ecdsa_verifies(digest@, key@, sig@),
{
    let msg = secp256k1::Message::from_slice(digest).unwrap();
    secp256k1::Secp256k1::verification_only().verify_ecdsa(&msg, &sig.sig, &key.key).is_ok()
}

impl Secp256k1PublicKey {
    /// Parses a public key; fails with `PubkeyDeserialization` exactly when
    /// secp256k1 refuses the bytes.
    pub fn deserialize(raw: &[u8]) -> (r: Result<Secp256k1PublicKey, CryptoError>)
        ensures
            r is Ok <==> pubkey_parses(raw@),
            r matches Ok(k) ==> k@ == raw@,
            r matches Err(e) ==> e == CryptoError::PubkeyDeserialization,
    {
        match parse_secp_pubkey(raw) {
            Some(k) => Ok(k),
            None => Err(CryptoError::PubkeyDeserialization),
        }
    }

    /// The key in uncompressed form.
    pub fn serialize(&self) -> (r: Vec<u8>)
        ensures
            r@ == uncompressed_of(self@),
    {
        serialize_secp_pubkey(self)
    }

    /// The raw address this key owns: HASH160 of its uncompressed form.
    pub fn to_raw_address(&self) -> (r: Vec<u8>)
        ensures
            r@ == raw_address_of(self@),
            r@.len() == 20,
    {
        let ser = self.serialize();
        hash160(ser.as_slice())
    }
}

impl Secp256k1Sig {
    /// Parses a compact signature; fails with `SigDeserialization` exactly
    /// when secp256k1 refuses the bytes.
    pub fn deserialize(raw: &[u8]) -> (r: Result<Secp256k1Sig, CryptoError>)
        ensures
            r is Ok <==> signature_parses(raw@),
            r matches Ok(s) ==> s@ == raw@,
            r matches Err(e) ==> e == CryptoError::SigDeserialization,
    {
        match parse_secp_signature(raw) {
            Some(s) => Ok(s),
            None => Err(CryptoError::SigDeserialization),
        }
    }
}

/// The ECDSA-over-secp256k1 signature scheme.
pub struct Secp256k1;

impl Secp256k1 {
    /// Checks a signature over a 32-byte digest; fails with `Verification`
    /// exactly when secp256k1 rejects it.
    pub fn verify(msg: &[u8], key: &Secp256k1PublicKey, sig: &Secp256k1Sig) -> (r: Result<(), CryptoError>)
        requires
            msg@.len() == 32,
        ensures
            r is Ok <==> ecdsa_verifies(msg@, key@, sig@),
            r matches Err(e) ==> e == CryptoError::Verification,
    {
        if verify_secp(msg, key, sig) {
            Ok(())
        } else {
            Err(CryptoError::Verification)
        }
    }
}

/// The signature schemes a metadata record may name by its tag.
#[derive(Clone, Copy, Debug, PartialEq, Eq, Structural)]
pub enum SigScheme {
    /// ECDSA over secp256k1, tag 1.
    Ecdsa,
}

impl SigScheme {
    pub open spec fn spec_from_tag(tag: i32) -> Option<SigScheme> {
        if tag == 1 {
            Some(SigScheme::Ecdsa)
        } else {
            None
        }
    }

    /// The scheme a tag names, if it is supported.
    pub fn from_tag(tag: i32) -> (r: Option<SigScheme>)
        ensures
            r == Self::spec_from_tag(tag),
    {
        if tag == 1 {
            Some(SigScheme::Ecdsa)
        } else {
            None
        }
    }
}

} // verus!
