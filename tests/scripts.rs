use keyserver::bitcoin::extract_op_return;
use keyserver::bitcoin::extract_pubkey_hash;
use keyserver::bitcoin::generate_outputs;
use keyserver::bitcoin::TxOut;
use keyserver::bitcoin::WalletState;
use keyserver::bitcoin::PRICE;

#[test]
fn test_gen_check_output() {
    let pk_hash = [3; 20].to_vec();
    let outputs = generate_outputs(pk_hash.clone(), "", pk_hash.clone());
    assert_eq!(PRICE, outputs.get(0).unwrap().amount.unwrap());
    let extracted_pkh = extract_pubkey_hash(&outputs.get(0).unwrap().script[..]);
    assert_eq!(pk_hash, extracted_pkh.unwrap());
}

#[test]
fn announcement_round_trip() {
    let pay_to = [1u8; 20].to_vec();
    let put_for = [2u8; 20].to_vec();
    let outputs = generate_outputs(pay_to, "http://peer.example:8080", put_for.clone());
    assert_eq!(outputs[1].amount, Some(0));
    let script = &outputs[1].script;
    assert_eq!(script[0], 106);
    assert_eq!(script[1] as usize, script.len() - 2);
    let (url, addr) = extract_op_return(script, "http://127.0.0.1:8080").unwrap();
    assert_eq!(url, "http://peer.example:8080");
    assert_eq!(addr.as_bytes(), &put_for[..]);
    // Our own announcements are ignored.
    assert!(extract_op_return(script, "http://peer.example:8080").is_none());
}

#[test]
fn non_announcements_are_ignored() {
    let outputs = generate_outputs([1u8; 20].to_vec(), "", [2u8; 20].to_vec());
    // No URL: too short.
    assert!(extract_op_return(&outputs[1].script, "").is_none());
    let mut script = generate_outputs([1u8; 20].to_vec(), "http://x", [2u8; 20].to_vec())[1]
        .script
        .clone();
    assert!(extract_op_return(&script, "").is_some());
    script[2] = b'K';
    assert!(extract_op_return(&script, "").is_none());
    let mut bad_len = generate_outputs([1u8; 20].to_vec(), "http://x", [2u8; 20].to_vec())[1]
        .script
        .clone();
    bad_len[1] += 1;
    assert!(extract_op_return(&bad_len, "").is_none());
    let mut not_utf8 = generate_outputs([1u8; 20].to_vec(), "http://x", [2u8; 20].to_vec())[1]
        .script
        .clone();
    let last = not_utf8.len() - 1;
    not_utf8[last] = 0xff;
    assert!(extract_op_return(&not_utf8, "").is_none());
}

#[test]
fn pubkey_hash_shapes() {
    assert!(extract_pubkey_hash(&[0u8; 25]).is_none());
    assert!(extract_pubkey_hash(&[118, 169, 20]).is_none());
}

fn p2pkh(hash: &[u8]) -> Vec<u8> {
    let mut s = vec![118, 169, 20];
    s.extend_from_slice(hash);
    s.extend_from_slice(&[136, 172]);
    s
}

#[test]
fn wallet_takes_one_payment() {
    let mut wallet = WalletState::new();
    let a = vec![7u8; 20];
    let b = vec![8u8; 20];
    wallet.add(a.clone());
    wallet.add(a.clone());
    wallet.add(b.clone());
    assert!(wallet.contains(&a));
    let wrong_price = TxOut { value: PRICE + 1, script_pubkey: p2pkh(&a) };
    assert!(!wallet.check_p2pkh(&wrong_price));
    let outputs = vec![
        TxOut { value: PRICE, script_pubkey: p2pkh(&[9u8; 20]) },
        TxOut { value: PRICE, script_pubkey: p2pkh(&a) },
        TxOut { value: PRICE, script_pubkey: p2pkh(&b) },
    ];
    assert!(wallet.check_outputs(&outputs));
    assert!(!wallet.contains(&a));
    assert!(wallet.contains(&b));
    assert!(wallet.check_outputs(&outputs));
    assert!(!wallet.contains(&b));
    assert!(!wallet.check_outputs(&outputs));
    wallet.add(a.clone());
    wallet.remove(a.clone());
    assert!(!wallet.contains(&a));
}
