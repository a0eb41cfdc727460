use keyserver::bip70::encode_payment_ack;
use keyserver::bip70::Payment;
use keyserver::bip70::PaymentDetails;
use keyserver::bip70::PaymentRequest;
use keyserver::bitcoin::Output;

#[test]
fn output_bytes() {
    let o = Output { amount: Some(5), script: vec![1, 2] };
    assert_eq!(o.encode(), vec![0x08, 0x05, 0x12, 0x02, 0x01, 0x02]);
    let zero = Output { amount: Some(0), script: vec![] };
    assert_eq!(zero.encode(), vec![0x08, 0x00, 0x12, 0x00]);
}

#[test]
fn payment_details_bytes() {
    let d = PaymentDetails {
        network: Some("main".to_string()),
        outputs: vec![Output { amount: Some(5), script: vec![1, 2] }],
        time: 100,
        expires: None,
        memo: None,
        payment_url: None,
        merchant_data: Some(vec![9]),
    };
    assert_eq!(
        d.encode(),
        vec![
            0x0a, 0x04, b'm', b'a', b'i', b'n', 0x12, 0x06, 0x08, 0x05, 0x12, 0x02, 0x01, 0x02,
            0x18, 0x64, 0x3a, 0x01, 0x09
        ]
    );
}

#[test]
fn payment_request_bytes() {
    let r = PaymentRequest {
        payment_details_version: Some(1),
        pki_type: Some("none".to_string()),
        pki_data: None,
        serialized_payment_details: vec![7],
        signature: None,
    };
    assert_eq!(r.encode(), vec![0x08, 0x01, 0x12, 0x04, b'n', b'o', b'n', b'e', 0x22, 0x01, 0x07]);
}

#[test]
fn payment_decoding() {
    let p = Payment::decode(&[0x0a, 0x01, 0xaa, 0x12, 0x02, 0x01, 0x02, 0x12, 0x00, 0x22, 0x00])
        .unwrap();
    assert_eq!(p.merchant_data, Some(vec![0xaa]));
    assert_eq!(p.transactions, vec![vec![1, 2], vec![]]);
    let none = Payment::decode(&[]).unwrap();
    assert_eq!(none.merchant_data, None);
    assert!(none.transactions.is_empty());
    assert!(Payment::decode(&[0x08, 0x01]).is_err());
    assert!(Payment::decode(&[0x12, 0x05, 0x01]).is_err());
}

#[test]
fn payment_ack_bytes() {
    assert_eq!(
        encode_payment_ack(&[1, 2], &Some("hi".to_string())),
        vec![0x0a, 0x02, 0x01, 0x02, 0x12, 0x02, b'h', b'i']
    );
    assert_eq!(encode_payment_ack(&[], &None), vec![0x0a, 0x00]);
}
