use sso::token::{decode_unsafe, encode, peek, verify, TokenClaims, TokenKind};
use sso::error::DriverError;

fn claims() -> TokenClaims {
    TokenClaims { kind: TokenKind::Access, subject: 7, audience: 9, issued_at: 100, expires_at: 200 }
}

#[test]
fn token_round_trip() {
    let c = claims();
    let t = encode(&c, "secret");
    assert_eq!(peek(&t), Some(c));
    assert_eq!(verify(&t, TokenKind::Access, 9, 7, "secret", 150), Some(c));
    assert_eq!(decode_unsafe(&t, 9), Ok(7));
}

#[test]
fn token_layout_is_hex_payload_and_signature() {
    let t = encode(&claims(), "secret");
    assert_eq!(t.len(), 97 + 1 + 40);
    assert_eq!(&t[0..1], "0");
    assert_eq!(&t[1..33], "00000000000000000000000000000007");
    assert_eq!(&t[33..65], "00000000000000000000000000000009");
    assert_eq!(&t[65..81], "0000000000000064");
    assert_eq!(&t[81..97], "00000000000000c8");
    assert_eq!(&t[97..98], ".");
}

#[test]
fn token_rejected_for_other_key_kind_service_user_or_expiry() {
    let c = claims();
    let t = encode(&c, "secret");
    assert_eq!(verify(&t, TokenKind::Access, 9, 7, "other", 150), None);
    assert_eq!(verify(&t, TokenKind::Revoke, 9, 7, "secret", 150), None);
    assert_eq!(verify(&t, TokenKind::Access, 8, 7, "secret", 150), None);
    assert_eq!(verify(&t, TokenKind::Access, 9, 6, "secret", 150), None);
    assert_eq!(verify(&t, TokenKind::Access, 9, 7, "secret", 200), None);
    assert_eq!(decode_unsafe(&t, 8), Err(DriverError::TokenInvalidOrExpired));
}

#[test]
fn token_tampered_or_malformed_rejected() {
    let t = encode(&claims(), "secret");
    let mut tampered = t.clone();
    tampered.replace_range(32..33, "8");
    assert_eq!(verify(&tampered, TokenKind::Access, 9, 8, "secret", 150), None);
    assert_eq!(peek("not a token"), None);
    assert_eq!(peek(&t[..97]), None);
}

#[test]
fn hmac_signature_is_stable_and_keyed() {
    let a = encode(&claims(), "k1");
    let b = encode(&claims(), "k1");
    let c = encode(&claims(), "k2");
    assert_eq!(a, b);
    assert_ne!(a[98..], c[98..]);
    assert_eq!(a[..97], c[..97]);
}
