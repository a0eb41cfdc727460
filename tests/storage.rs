use std::collections::HashMap;

use keyserver::address::Address;
use keyserver::address::AddressScheme;
use keyserver::authentication::ValidationError;
use keyserver::crypto::CryptoError;
use keyserver::crypto::Secp256k1PublicKey;
use keyserver::db::authorize_put;
use keyserver::db::check_freshness;
use keyserver::db::expired;
use keyserver::db::expired_at;
use keyserver::db::lookup;
use keyserver::db::now;
use keyserver::db::ttl_filter;
use keyserver::db::Lookup;
use keyserver::db::PutError;
use keyserver::network::Network;
use keyserver::peer::fetch_request;
use keyserver::peer::metadata_url;
use keyserver::peer::reconcile;
use keyserver::peer::PeerDrop;
use keyserver::peer::PeerError;
use keyserver::record::MetadataRecord;
use keyserver::record::Payload;

/// A store in memory, driven the way the server drives its database.
struct Store {
    map: HashMap<Vec<u8>, Vec<u8>>,
}

impl Store {
    fn new() -> Store {
        Store { map: HashMap::new() }
    }

    fn read(&mut self, addr: &Address, now: i64) -> Lookup {
        let found = lookup(self.map.get(addr.as_bytes()).cloned(), now);
        if let Lookup::Expired = found {
            self.map.remove(addr.as_bytes());
        }
        found
    }

    fn get(&mut self, addr: &Address, now: i64) -> Option<Vec<u8>> {
        match self.read(addr, now) {
            Lookup::Live(_, _) => self.map.get(addr.as_bytes()).cloned(),
            Lookup::Corrupt => panic!("stored bytes do not decode"),
            _ => None,
        }
    }

    fn put(&mut self, addr: &Address, body: &[u8], now: i64) -> Result<(), PutError> {
        let current = self.read(addr, now);
        authorize_put(addr, body, &current, now)?;
        self.map.insert(addr.as_bytes().to_vec(), body.to_vec());
        Ok(())
    }
}

fn sha256(data: &[u8]) -> Vec<u8> {
    bitcoin_hashes::Hash::to_byte_array(<bitcoin_hashes::sha256::Hash as bitcoin_hashes::Hash>::hash(
        data,
    ))
    .to_vec()
}

struct Writer {
    sk: secp256k1::SecretKey,
    pk: secp256k1::PublicKey,
}

impl Writer {
    fn new() -> Writer {
        let secp = secp256k1::Secp256k1::new();
        let (sk, pk) = secp.generate_keypair(&mut secp256k1::rand::thread_rng());
        Writer { sk, pk }
    }

    fn address(&self) -> Address {
        let key = Secp256k1PublicKey::deserialize(&self.pk.serialize_uncompressed()).unwrap();
        Address::new(key.to_raw_address(), AddressScheme::Base58)
    }

    /// The encoded record of a payload signed by `signer` under this key.
    fn record_signed_by(&self, signer: &secp256k1::SecretKey, timestamp: i64, ttl: i64) -> Vec<u8> {
        let payload = Payload {
            timestamp,
            ttl,
            entries: vec![b"kind: text_utf8; data: This is going to be so much faster than Go".to_vec()],
        };
        let serialized_payload = payload.encode();
        let secp = secp256k1::Secp256k1::new();
        let msg = secp256k1::Message::from_slice(&sha256(&serialized_payload)).unwrap();
        let signature = secp.sign_ecdsa(&msg, signer).serialize_compact().to_vec();
        MetadataRecord {
            pub_key: self.pk.serialize_uncompressed().to_vec(),
            serialized_payload,
            scheme: 1,
            signature,
        }
        .encode()
    }

    fn record(&self, timestamp: i64, ttl: i64) -> Vec<u8> {
        self.record_signed_by(&self.sk, timestamp, ttl)
    }
}

fn payload_at(timestamp: i64, ttl: i64) -> Payload {
    Payload { timestamp, ttl, entries: vec![] }
}

fn live(timestamp: i64, ttl: i64) -> Lookup {
    let payload = payload_at(timestamp, ttl);
    let record = MetadataRecord {
        pub_key: vec![],
        serialized_payload: payload.encode(),
        scheme: 1,
        signature: vec![],
    };
    Lookup::Live(record, payload)
}

#[test]
fn test_ttl_ok() {
    let timestamp = now();
    let payload = Payload { timestamp, ttl: 10, entries: vec![] };
    let metadata = MetadataRecord {
        pub_key: vec![],
        serialized_payload: payload.encode(),
        signature: vec![],
        scheme: 1,
    };
    let raw = metadata.encode();
    assert!(matches!(lookup(Some(raw.clone()), timestamp), Lookup::Live(_, _)));
    assert!(matches!(lookup(Some(raw.clone()), timestamp + 12), Lookup::Expired));
    assert_eq!(ttl_filter(&raw, timestamp), Ok(false));
    assert_eq!(ttl_filter(&raw, timestamp + 12), Ok(true));
}

#[test]
fn expiry_boundary() {
    let p = payload_at(1000, 50);
    assert!(!expired_at(&p, 1049));
    assert!(expired_at(&p, 1050));
    assert!(expired_at(&p, 1051));
    assert!(expired(&payload_at(0, 1)));
    assert!(!expired(&payload_at(now(), 3000)));
    let far = payload_at(i64::MAX, i64::MAX);
    assert!(!expired_at(&far, i64::MAX));
    let past = payload_at(i64::MIN, i64::MIN);
    assert!(expired_at(&past, i64::MIN));
}

#[test]
fn ttl_read_boundaries() {
    let w = Writer::new();
    let t = 1_000;
    let n = 300;
    let mut store = Store::new();
    store.put(&w.address(), &w.record(t, n), t).unwrap();
    assert!(store.get(&w.address(), t + n - 1).is_some());
    assert!(store.get(&w.address(), t + n + 1).is_none());
    assert!(store.map.is_empty());
}

#[test]
fn freshness_monotonicity() {
    let stored = live(100, 1000);
    assert_eq!(check_freshness(&stored, &payload_at(99, 1000), 150), Err(ValidationError::Outdated));
    assert_eq!(check_freshness(&stored, &payload_at(100, 1000), 150), Ok(()));
    assert_eq!(check_freshness(&stored, &payload_at(101, 1000), 150), Ok(()));
    assert_eq!(check_freshness(&stored, &payload_at(101, 10), 150), Err(ValidationError::ExpiredTTL));
    assert_eq!(check_freshness(&Lookup::Absent, &payload_at(1, 1), 150), Ok(()));
    assert_eq!(check_freshness(&Lookup::Expired, &payload_at(1, 1), 150), Ok(()));
    assert_eq!(
        check_freshness(&Lookup::Corrupt, &payload_at(1, 1000), 150),
        Err(ValidationError::EmptyPayload)
    );
}

#[test]
fn idempotent_put() {
    let w = Writer::new();
    let body = w.record(100, 1000);
    let mut store = Store::new();
    store.put(&w.address(), &body, 150).unwrap();
    store.put(&w.address(), &body, 150).unwrap();
    assert_eq!(store.get(&w.address(), 150), Some(body));
}

#[test]
fn scenario_put_then_get_returns_same_bytes() {
    let w = Writer::new();
    let body = w.record(now(), 3000);
    let mut store = Store::new();
    store.put(&w.address(), &body, now()).unwrap();
    assert_eq!(store.get(&w.address(), now()), Some(body));
}

#[test]
fn scenario_wrong_signer_stores_nothing() {
    let w = Writer::new();
    let other = Writer::new();
    let body = w.record_signed_by(&other.sk, now(), 3000);
    let mut store = Store::new();
    assert_eq!(
        store.put(&w.address(), &body, now()),
        Err(PutError::Validation(ValidationError::Crypto(CryptoError::Verification)))
    );
    assert!(store.get(&w.address(), now()).is_none());
}

#[test]
fn scenario_older_write_is_outdated() {
    let w = Writer::new();
    let a = w.record(100, 1000);
    let b = w.record(50, 1000);
    let mut store = Store::new();
    store.put(&w.address(), &a, 150).unwrap();
    assert_eq!(
        store.put(&w.address(), &b, 150),
        Err(PutError::Validation(ValidationError::Outdated))
    );
    assert_eq!(store.get(&w.address(), 150), Some(a));
}

#[test]
fn scenario_peer_record_is_committed() {
    let w = Writer::new();
    let fetched = Ok(w.record(now(), 3000));
    let mut store = Store::new();
    let target = w.address();
    let current = store.read(&target, now());
    assert_eq!(reconcile(&target, &fetched, &current, now()), Ok(()));
    store.map.insert(target.as_bytes().to_vec(), fetched.clone().unwrap());
    assert_eq!(store.get(&target, now()), fetched.ok());
}

#[test]
fn scenario_older_peer_record_leaves_local_one() {
    let w = Writer::new();
    let target = w.address();
    let local = w.record(200, 1000);
    let mut store = Store::new();
    store.put(&target, &local, 250).unwrap();
    let fetched = Ok(w.record(150, 1000));
    let current = store.read(&target, 250);
    assert_eq!(
        reconcile(&target, &fetched, &current, 250),
        Err(PeerDrop::Rejected(PutError::Validation(ValidationError::Outdated)))
    );
    assert_eq!(store.get(&target, 250), Some(local));
}

#[test]
fn peer_failures_drop_the_pair() {
    let w = Writer::new();
    let target = w.address();
    assert_eq!(
        reconcile(&target, &Err(PeerError::ResponseError), &Lookup::Absent, 10),
        Err(PeerDrop::Fetch(PeerError::ResponseError))
    );
    assert_eq!(
        reconcile(&target, &Ok(vec![2, 3, 5]), &Lookup::Absent, 10),
        Err(PeerDrop::Rejected(PutError::MetadataDecode))
    );
    let other = Writer::new();
    assert_eq!(
        reconcile(&other.address(), &Ok(w.record(5, 100)), &Lookup::Absent, 10),
        Err(PeerDrop::Rejected(PutError::Validation(ValidationError::Preimage)))
    );
}

#[test]
fn peer_url() {
    assert_eq!(metadata_url("http://peer:8080", "1abc"), "http://peer:8080/keys/1abc");
    let raw = hex::decode("ea2407829a5055466b27784cde8cf463167946bf").unwrap();
    let addr = Address::new(raw, AddressScheme::Base58);
    assert_eq!(
        fetch_request("http://peer", &addr, &Network::Mainnet).unwrap(),
        "http://peer/keys/1NM2HFXin4cEQRBLjkNZAS98qLX9JKzjKn"
    );
}

#[test]
fn malformed_body_and_payload() {
    let w = Writer::new();
    assert_eq!(
        authorize_put(&w.address(), &[2, 3, 5], &Lookup::Absent, 0),
        Err(PutError::MetadataDecode)
    );
    // A record whose signed bytes are not a payload.
    let bad_payload = vec![0x0b];
    let secp = secp256k1::Secp256k1::new();
    let msg = secp256k1::Message::from_slice(&sha256(&bad_payload)).unwrap();
    let signature = secp.sign_ecdsa(&msg, &w.sk).serialize_compact().to_vec();
    let body = MetadataRecord {
        pub_key: w.pk.serialize_uncompressed().to_vec(),
        serialized_payload: bad_payload,
        scheme: 1,
        signature,
    }
    .encode();
    assert_eq!(
        authorize_put(&w.address(), &body, &Lookup::Absent, 0),
        Err(PutError::PayloadDecode)
    );
}

#[test]
fn corrupt_stored_bytes() {
    assert!(matches!(lookup(Some(vec![0xff]), 0), Lookup::Corrupt));
    assert!(ttl_filter(&[0xff], 0).is_err());
    assert!(matches!(lookup(None, 0), Lookup::Absent));
}
