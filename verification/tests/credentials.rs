use relay_control::auth::{AuthAdapter, AuthError};
use relay_control::credentials::{SharedSecret, DEFAULT_TTL_SECS};
use relay_control::decimal::{parse_decimal, u64_to_decimal};

fn secret(text: &str) -> SharedSecret {
    SharedSecret::new(text.to_owned())
}

#[test]
fn u64_decimal_renders_canonically() {
    assert_eq!(u64_to_decimal(0), "0");
    assert_eq!(u64_to_decimal(7), "7");
    assert_eq!(u64_to_decimal(10), "10");
    assert_eq!(u64_to_decimal(1700432000), "1700432000");
    assert_eq!(u64_to_decimal(u64::MAX), "18446744073709551615");
}

#[test]
fn parse_decimal_accepts_digit_strings() {
    assert_eq!(parse_decimal("0"), Some(0));
    assert_eq!(parse_decimal("007"), Some(7));
    assert_eq!(parse_decimal("1700432000"), Some(1700432000));
    assert_eq!(parse_decimal("18446744073709551615"), Some(u64::MAX));
}

#[test]
fn parse_decimal_rejects_non_numbers() {
    assert_eq!(parse_decimal(""), None);
    assert_eq!(parse_decimal("12a"), None);
    assert_eq!(parse_decimal("-5"), None);
    assert_eq!(parse_decimal(" 5"), None);
    assert_eq!(parse_decimal("18446744073709551616"), None);
}

#[test]
fn example_credential_from_fixed_clock() {
    let s = secret("north");
    let line = s.issue_line(1700000000, 432000).expect("expiry fits");
    let (username, password) = line.split_once(':').expect("one colon");
    assert_eq!(username, "1700432000");
    assert_eq!(password.len(), 28);
    assert!(s.verify_credential(username, password, 1700000000));
    assert!(s.verify_credential(username, password, 1700432000));
    assert!(!s.verify_credential(username, password, 1700432001));
}

#[test]
fn issuing_twice_with_same_clock_is_deterministic() {
    let s = secret("north");
    let a = s.mint_credential(1700432000);
    let b = s.mint_credential(1700432000);
    assert_eq!(a.username, b.username);
    assert_eq!(a.password, b.password);
}

#[test]
fn different_secrets_give_different_passwords() {
    let a = secret("north").mint_credential(1700432000);
    let b = secret("south").mint_credential(1700432000);
    assert_eq!(a.username, b.username);
    assert_ne!(a.password, b.password);
}

#[test]
fn tampered_password_is_rejected() {
    let s = secret("north");
    let c = s.mint_credential(1700432000);
    assert!(s.verify_credential(&c.username, &c.password, 1700000000));
    // flip one byte of the password text
    let mut bytes = c.password.clone().into_bytes();
    bytes[0] ^= 0x01;
    let tampered = String::from_utf8(bytes).expect("still text");
    assert_ne!(tampered, c.password);
    assert!(!s.verify_credential(&c.username, &tampered, 1700000000));
}

#[test]
fn wrong_username_is_rejected() {
    let s = secret("north");
    let c = s.mint_credential(1700432000);
    assert!(!s.verify_credential("1700432001", &c.password, 1700000000));
}

#[test]
fn issue_line_refuses_overflowing_expiry() {
    let s = secret("north");
    assert!(s.issue_line(u64::MAX, 1).is_none());
    assert!(s.issue_line(u64::MAX - 5, DEFAULT_TTL_SECS).is_none());
    assert!(s.issue_line(u64::MAX - DEFAULT_TTL_SECS, DEFAULT_TTL_SECS).is_some());
}

#[test]
fn password_matches_relay_engine_derivation() {
    // The engine's own credential generator uses the same construction:
    // base64(HMAC-SHA1(secret, username)) with the expiry as username.
    let (username, password) =
        turn::auth::generate_long_term_credentials("north", std::time::Duration::from_secs(3600))
            .expect("engine mints a credential");
    let expiry: u64 = username.parse().expect("username is an instant");
    let s = secret("north");
    let ours = s.mint_credential(expiry);
    assert_eq!(ours.username, username);
    assert_eq!(ours.password, password);
    assert!(s.verify_credential(&username, &password, expiry));
}

#[test]
fn authenticate_accepts_before_expiry_and_rejects_after() {
    let s = secret("north");
    let adapter = AuthAdapter::new(s);
    let key = adapter
        .authenticate("1700432000", "webrtc.rs", 1700000000)
        .expect("valid and unexpired");
    assert_eq!(key.len(), 16);
    assert_eq!(
        adapter.authenticate("1700432000", "webrtc.rs", 1700432001),
        Err(AuthError::Expired)
    );
    assert_eq!(
        adapter.authenticate("not-a-number", "webrtc.rs", 1700000000),
        Err(AuthError::MalformedUsername)
    );
    assert_eq!(
        adapter.authenticate("", "webrtc.rs", 1700000000),
        Err(AuthError::MalformedUsername)
    );
}

#[test]
fn authenticate_returns_the_engine_key() {
    let s = secret("north");
    let password = s.derive_password("1700432000");
    let expected = turn::auth::generate_auth_key("1700432000", "webrtc.rs", &password);
    let adapter = AuthAdapter::new(s);
    let key = adapter
        .authenticate("1700432000", "webrtc.rs", 1700000000)
        .expect("valid and unexpired");
    assert_eq!(key, expected);
}

#[test]
fn issuance_serves_every_caller_a_well_formed_line() {
    let s = secret("north");
    let mut seen = Vec::new();
    for i in 0..5u64 {
        let now = 1700000000 + i;
        let line = s.issue_line(now, DEFAULT_TTL_SECS).expect("expiry fits");
        let (username, password) = line.split_once(':').expect("one colon");
        assert_eq!(username.parse::<u64>().unwrap(), now + DEFAULT_TTL_SECS);
        assert_eq!(password.len(), 28);
        seen.push(line);
    }
    assert_eq!(seen.len(), 5);
}
