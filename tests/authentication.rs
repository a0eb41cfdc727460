use keyserver::address::Address;
use keyserver::address::AddressScheme;
use keyserver::authentication::validate;
use keyserver::authentication::ValidationError;
use keyserver::crypto::CryptoError;
use keyserver::crypto::Secp256k1PublicKey;
use keyserver::record::MetadataRecord;
use keyserver::record::Payload;

struct Signed {
    address: Address,
    record: MetadataRecord,
}

fn sha256(data: &[u8]) -> Vec<u8> {
    bitcoin_hashes::Hash::to_byte_array(<bitcoin_hashes::sha256::Hash as bitcoin_hashes::Hash>::hash(
        data,
    ))
    .to_vec()
}

fn sample_payload() -> Payload {
    Payload {
        timestamp: 1_700_000_000,
        ttl: 3000,
        entries: vec![b"text_utf8 entry".to_vec()],
    }
}

/// A record signed by `signer` but carrying `holder`'s public key.
fn sign_with(
    holder: &secp256k1::PublicKey,
    signer: &secp256k1::SecretKey,
    payload: &Payload,
) -> Signed {
    let secp = secp256k1::Secp256k1::new();
    let pub_key = holder.serialize_uncompressed().to_vec();
    let serialized_payload = payload.encode();
    let digest = sha256(&serialized_payload);
    let msg = secp256k1::Message::from_slice(&digest).unwrap();
    let signature = secp.sign_ecdsa(&msg, signer).serialize_compact().to_vec();
    let key = Secp256k1PublicKey::deserialize(&pub_key).unwrap();
    let address = Address::new(key.to_raw_address(), AddressScheme::Base58);
    Signed {
        address,
        record: MetadataRecord { pub_key, serialized_payload, scheme: 1, signature },
    }
}

fn keypair() -> (secp256k1::SecretKey, secp256k1::PublicKey) {
    let secp = secp256k1::Secp256k1::new();
    secp.generate_keypair(&mut secp256k1::rand::thread_rng())
}

#[test]
fn signed_record_authenticates() {
    for _ in 0..4 {
        let (sk, pk) = keypair();
        let s = sign_with(&pk, &sk, &sample_payload());
        assert_eq!(validate(&s.address, &s.record), Ok(()));
    }
}

#[test]
fn other_address_is_a_preimage_error() {
    let (sk, pk) = keypair();
    let s = sign_with(&pk, &sk, &sample_payload());
    let mut other = s.address.as_bytes().to_vec();
    other[0] ^= 1;
    let other = Address::new(other, AddressScheme::Base58);
    assert_eq!(validate(&other, &s.record), Err(ValidationError::Preimage));
}

#[test]
fn tampered_payload_fails_verification() {
    let (sk, pk) = keypair();
    let s = sign_with(&pk, &sk, &sample_payload());
    for i in 0..s.record.serialized_payload.len() {
        let mut record = s.record.clone();
        record.serialized_payload[i] ^= 0x01;
        assert_eq!(
            validate(&s.address, &record),
            Err(ValidationError::Crypto(CryptoError::Verification))
        );
    }
}

#[test]
fn signature_by_another_key_fails_verification() {
    let (_, pk) = keypair();
    let (other_sk, _) = keypair();
    let s = sign_with(&pk, &other_sk, &sample_payload());
    assert_eq!(
        validate(&s.address, &s.record),
        Err(ValidationError::Crypto(CryptoError::Verification))
    );
}

#[test]
fn unknown_scheme_is_refused() {
    let (sk, pk) = keypair();
    let mut s = sign_with(&pk, &sk, &sample_payload());
    s.record.scheme = 2;
    assert_eq!(validate(&s.address, &s.record), Err(ValidationError::UnsupportedSigScheme));
    s.record.scheme = 0;
    assert_eq!(validate(&s.address, &s.record), Err(ValidationError::UnsupportedSigScheme));
}

#[test]
fn malformed_key_is_refused() {
    let (sk, pk) = keypair();
    let mut s = sign_with(&pk, &sk, &sample_payload());
    s.record.pub_key = vec![4, 1, 2, 3];
    assert_eq!(
        validate(&s.address, &s.record),
        Err(ValidationError::Crypto(CryptoError::PubkeyDeserialization))
    );
}

#[test]
fn empty_payload_is_refused() {
    let (sk, pk) = keypair();
    let mut s = sign_with(&pk, &sk, &sample_payload());
    s.record.serialized_payload = vec![];
    assert_eq!(validate(&s.address, &s.record), Err(ValidationError::EmptyPayload));
}

#[test]
fn malformed_signature_is_refused() {
    let (sk, pk) = keypair();
    let mut s = sign_with(&pk, &sk, &sample_payload());
    s.record.signature = vec![1, 2, 3];
    assert_eq!(
        validate(&s.address, &s.record),
        Err(ValidationError::Crypto(CryptoError::SigDeserialization))
    );
}

#[test]
fn compressed_key_owns_the_uncompressed_address() {
    let (sk, pk) = keypair();
    let s = sign_with(&pk, &sk, &sample_payload());
    let mut record = s.record.clone();
    record.pub_key = pk.serialize().to_vec();
    assert_eq!(validate(&s.address, &record), Ok(()));
}
