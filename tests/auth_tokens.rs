use game_server::auth::{authenticate, authenticate_credential, extract_token, AuthError};
use game_server::session::subscriptions;
use game_server::broker::{Broker, NotifyMessage};
use hmac::Mac;

fn tag_hex(key: &[u8], data: &[u8]) -> String {
    let mut mac = hmac::Hmac::<sha2::Sha256>::new_from_slice(key).unwrap();
    mac.update(data);
    mac.finalize().into_bytes().iter().map(|b| format!("{:02x}", b)).collect()
}

fn token(secret: &[u8], principal: &str, expiry: &str) -> String {
    let signed = format!("{}.{}", principal, expiry);
    let sig = tag_hex(secret, signed.as_bytes());
    format!("{}.{}", signed, sig)
}

#[test]
fn valid_token_names_its_principal() {
    let t = token(b"s3cret", "7", "");
    assert_eq!(authenticate(b"s3cret", t.as_bytes(), 1_000), Ok(7));
}

#[test]
fn unexpired_token_is_accepted() {
    let t = token(b"s3cret", "12", "2000");
    assert_eq!(authenticate(b"s3cret", t.as_bytes(), 1999), Ok(12));
}

#[test]
fn expired_token_is_rejected_even_when_signed() {
    let t = token(b"s3cret", "12", "2000");
    assert_eq!(authenticate(b"s3cret", t.as_bytes(), 2000), Err(AuthError::Unauthorized));
    assert_eq!(authenticate(b"s3cret", t.as_bytes(), 5000), Err(AuthError::Unauthorized));
}

#[test]
fn token_signed_with_other_secret_is_rejected() {
    let t = token(b"other", "7", "");
    assert_eq!(authenticate(b"s3cret", t.as_bytes(), 0), Err(AuthError::Unauthorized));
}

#[test]
fn malformed_tokens_are_rejected() {
    assert_eq!(authenticate(b"s3cret", b"", 0), Err(AuthError::Unauthorized));
    assert_eq!(authenticate(b"s3cret", b"7", 0), Err(AuthError::Unauthorized));
    assert_eq!(authenticate(b"s3cret", b"7.", 0), Err(AuthError::Unauthorized));
    let t = token(b"s3cret", "x7", "");
    assert_eq!(authenticate(b"s3cret", t.as_bytes(), 0), Err(AuthError::Unauthorized));
}

#[test]
fn token_whose_signature_is_its_payload_is_rejected() {
    let signed = "7.";
    let fake = format!("{}.{}", signed, "372e");
    assert_eq!(authenticate(b"s3cret", fake.as_bytes(), 0), Err(AuthError::Unauthorized));
}

#[test]
fn expired_connection_is_never_registered_nor_reached() {
    let mut broker = Broker::new();
    let good = token(b"k", "1", "");
    let expired = token(b"k", "2", "10");
    assert_eq!(broker.connect(100, b"k", good.as_bytes(), 50), Ok(1));
    assert_eq!(broker.connect(200, b"k", expired.as_bytes(), 50), Err(AuthError::Unauthorized));
    assert!(!broker.is_registered(200));
    broker.publish(&NotifyMessage::delete_game(3));
    assert!(!broker.is_registered(200));
    assert_eq!(broker.take_pending(200).len(), 0);
    assert_eq!(broker.take_pending(100).len(), 1);
}

#[test]
fn bearer_prefix_is_stripped() {
    assert_eq!(extract_token(b"Bearer abc"), b"abc");
    assert_eq!(extract_token(b"abc"), b"abc");
    assert_eq!(extract_token(b"bearer abc"), b"bearer abc");
    assert_eq!(extract_token(b"Bearer"), b"Bearer");
}

#[test]
fn credential_authentication_handles_absent_and_bearer() {
    let t = format!("Bearer {}", token(b"k", "5", ""));
    assert_eq!(authenticate_credential(b"k", Some(t.as_bytes()), 0), Ok(5));
    assert_eq!(authenticate_credential(b"k", None, 0), Err(AuthError::Unauthorized));
}

#[test]
fn subscriptions_register_only_authenticated_connections() {
    let mut broker = Broker::new();
    let t = format!("Bearer {}", token(b"k", "8", "100"));
    assert_eq!(subscriptions(&mut broker, 1, b"k", None, 0), Err(AuthError::Unauthorized));
    assert_eq!(subscriptions(&mut broker, 2, b"k", Some(t.as_bytes()), 200), Err(AuthError::Unauthorized));
    assert_eq!(broker.len(), 0);
    assert_eq!(subscriptions(&mut broker, 3, b"k", Some(t.as_bytes()), 99), Ok(8));
    assert!(broker.is_registered(3));
    assert_eq!(broker.len(), 1);
}
