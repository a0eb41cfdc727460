use keyserver::token::generate_secret;
use keyserver::token::generate_token;
use keyserver::token::validate_token;

#[test]
fn test_validate() {
    let secret = generate_secret(16);
    let msg = &b"DEADBEEF"[..];

    let token = generate_token(msg, &secret);

    assert!(validate_token(msg, &secret, &token))
}

#[test]
fn test_validate_wrong_sig() {
    let secret_a = generate_secret(16);
    let secret_b = generate_secret(16);
    let msg = &b"DEADBEEF"[..];

    let token = generate_token(msg, &secret_a);

    assert!(!validate_token(msg, &secret_b, &token))
}

#[test]
fn test_validate_wrong_msg() {
    let secret = generate_secret(16);
    let msg_a = &b"DEADBEEF"[..];
    let msg_b = &b"BEDEAD"[..];

    let token = generate_token(msg_a, &secret);

    assert!(!validate_token(msg_b, &secret, &token))
}

#[test]
fn test_validate_wrong_token() {
    let secret = generate_secret(16);
    let msg = &b"DEADBEEF"[..];

    let token = &b"BEEFEED"[..];

    assert!(!validate_token(msg, &secret, &token))
}

#[test]
fn hmac_known_vector() {
    let token = generate_token(b"what do ya want for nothing?", b"Jefe");
    assert_eq!(
        hex::encode(token),
        "5bdcc146bf60754e6a042426089575c75a003f089d2739839dec58b964ec3843"
    );
}

#[test]
fn secrets_have_their_length() {
    assert_eq!(generate_secret(0).len(), 0);
    assert_eq!(generate_secret(32).len(), 32);
    assert_ne!(generate_secret(32), generate_secret(32));
}
