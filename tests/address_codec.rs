use bitcoin_hashes::hash160::Hash as Hash160;
use keyserver::address::Address;
use keyserver::address::AddressScheme;
use keyserver::address::Base58Codec;
use keyserver::crypto::CryptoError;
use keyserver::crypto::Secp256k1PublicKey;
use keyserver::network::Network;

const PUBKEY_HEX: &str = "04005937fd439b3c19014d5f328df8c7ed514eaaf41c1980b8aeab461dffb23fbf3317e42395db24a52ce9fc947d9c22f54dc3217c8b11dfc7a09c59e0dca591d3";

#[test]
fn to_legacyaddr() {
    let pubkeyhash = bitcoin_hashes::Hash::to_byte_array(<Hash160 as bitcoin_hashes::Hash>::hash(
        &hex::decode(PUBKEY_HEX).unwrap(),
    ))
    .to_vec();
    let legacyaddr = Base58Codec::encode(&pubkeyhash, &Network::Mainnet).unwrap();
    assert!(legacyaddr == "1NM2HFXin4cEQRBLjkNZAS98qLX9JKzjKn");
}

#[test]
fn from_legacyaddr() {
    let legacyaddr = "1NM2HFXin4cEQRBLjkNZAS98qLX9JKzjKn";
    let result = Base58Codec::decode(legacyaddr, &Network::Mainnet).unwrap();
    let hash160 = result.as_bytes();
    assert!(hex::encode(hash160) == "ea2407829a5055466b27784cde8cf463167946bf");
}

#[test]
fn from_legacyaddr_errors() {
    assert!(Base58Codec::decode("0", &Network::Mainnet).is_err());
    assert!(
        Base58Codec::decode("1000000000000000000000000000000000", &Network::Mainnet).is_err()
    );
}

#[test]
fn raw_address_of_known_key() {
    let key = Secp256k1PublicKey::deserialize(&hex::decode(PUBKEY_HEX).unwrap()).unwrap();
    assert_eq!(
        hex::encode(key.to_raw_address()),
        "ea2407829a5055466b27784cde8cf463167946bf"
    );
    assert_eq!(key.serialize(), hex::decode(PUBKEY_HEX).unwrap());
}

#[test]
fn legacy_round_trip_on_every_network() {
    for network in [Network::Mainnet, Network::Testnet, Network::Regnet] {
        for seed in 0u8..8 {
            let raw: Vec<u8> = (0..20u8).map(|i| i.wrapping_mul(37).wrapping_add(seed)).collect();
            let text = Base58Codec::encode(&raw, &network).unwrap();
            let back = Base58Codec::decode(&text, &network).unwrap();
            assert_eq!(back.as_bytes(), &raw[..]);
            assert_eq!(back.scheme, AddressScheme::Base58);
        }
    }
}

#[test]
fn leading_zero_address_round_trips() {
    let raw = vec![0u8; 20];
    let text = Base58Codec::encode(&raw, &Network::Mainnet).unwrap();
    assert!(text.starts_with("11"));
    assert_eq!(Base58Codec::decode(&text, &Network::Mainnet).unwrap().into_payload(), raw);
}

#[test]
fn testnet_text_is_refused_on_mainnet() {
    let raw = vec![7u8; 20];
    let text = Base58Codec::encode(&raw, &Network::Testnet).unwrap();
    assert!(text.starts_with('m') || text.starts_with('n'));
    assert_eq!(
        Base58Codec::decode(&text, &Network::Mainnet).unwrap_err(),
        CryptoError::Decoding
    );
    // Regnet shares the testnet version byte.
    assert!(Base58Codec::decode(&text, &Network::Regnet).is_ok());
}

#[test]
fn corrupted_checksum_is_refused() {
    let raw = vec![9u8; 20];
    let text = Base58Codec::encode(&raw, &Network::Mainnet).unwrap();
    let mut chars: Vec<char> = text.chars().collect();
    let last = chars.len() - 1;
    chars[last] = if chars[last] == 'z' { 'y' } else { 'z' };
    let bad: String = chars.into_iter().collect();
    assert_eq!(
        Address::decode(&bad, &Network::Mainnet).unwrap_err(),
        CryptoError::Decoding
    );
}

#[test]
fn non_base58_text_is_refused() {
    assert!(Address::decode("invalid", &Network::Mainnet).is_err());
    assert!(Address::decode("0OIl", &Network::Mainnet).is_err());
    assert!(Address::decode("", &Network::Mainnet).is_err());
}

#[test]
fn wrong_length_body_is_refused() {
    let raw = vec![1u8; 19];
    let text = Base58Codec::encode(&raw, &Network::Mainnet).unwrap();
    assert!(Base58Codec::decode(&text, &Network::Mainnet).is_err());
}

#[test]
fn address_encode_uses_its_scheme() {
    let raw = hex::decode("ea2407829a5055466b27784cde8cf463167946bf").unwrap();
    let addr = Address::new(raw.clone(), AddressScheme::Base58);
    assert_eq!(
        addr.encode(&Network::Mainnet).unwrap(),
        "1NM2HFXin4cEQRBLjkNZAS98qLX9JKzjKn"
    );
    assert_eq!(addr.into_payload(), raw);
}

#[test]
fn network_names() {
    assert_eq!(Network::Mainnet.to_string(), "mainnet");
    assert_eq!(Network::Testnet.to_string(), "testnet");
    assert_eq!(Network::Regnet.to_string(), "regnet");
    assert_eq!(Network::Mainnet.version_byte(), 0x00);
    assert_eq!(Network::Regnet.version_byte(), 0x6f);
}

#[test]
fn cashaddr_known_vector() {
    let raw = hex::decode("F5BF48B397DAE70BE82B3CCA4793F8EB2B6CDAC9").unwrap();
    let addr = Address::new(raw.clone(), AddressScheme::CashAddr);
    let text = addr.encode(&Network::Mainnet).unwrap();
    assert_eq!(text, "bitcoincash:qr6m7j9njldwwzlg9v7v53unlr4jkmx6eylep8ekg2");
    let back = Address::decode(&text, &Network::Mainnet).unwrap();
    assert_eq!(back.scheme, AddressScheme::CashAddr);
    assert_eq!(back.as_bytes(), &raw[..]);
}

#[test]
fn cashaddr_round_trip_and_network() {
    for network in [Network::Mainnet, Network::Testnet, Network::Regnet] {
        let raw: Vec<u8> = (0..20u8).map(|i| i.wrapping_mul(11)).collect();
        let text = Address::new(raw.clone(), AddressScheme::CashAddr).encode(&network).unwrap();
        assert_eq!(Address::decode(&text, &network).unwrap().into_payload(), raw);
    }
    let raw = vec![5u8; 20];
    let text = Address::new(raw, AddressScheme::CashAddr).encode(&Network::Testnet).unwrap();
    assert!(text.starts_with("bchtest:"));
    assert_eq!(Address::decode(&text, &Network::Mainnet).unwrap_err(), CryptoError::Decoding);
}

#[test]
fn cashaddr_bad_length_and_short_texts() {
    let addr = Address::new(vec![1u8; 19], AddressScheme::CashAddr);
    assert_eq!(addr.encode(&Network::Mainnet).unwrap_err(), CryptoError::Encoding);
    assert!(Address::decode("bitcoincash:qqqq", &Network::Mainnet).is_err());
    assert!(Address::decode("bitcoincash:", &Network::Mainnet).is_err());
    assert!(Address::decode("a:b:c", &Network::Mainnet).is_err());
}

#[test]
fn legacy_text_still_decodes_through_address() {
    let addr = Address::decode("1NM2HFXin4cEQRBLjkNZAS98qLX9JKzjKn", &Network::Mainnet).unwrap();
    assert_eq!(addr.scheme, AddressScheme::Base58);
    assert_eq!(hex::encode(addr.as_bytes()), "ea2407829a5055466b27784cde8cf463167946bf");
}
