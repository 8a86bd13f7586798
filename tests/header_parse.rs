use sso::header::HeaderAuth;

#[test]
fn parse_key_forms() {
    assert_eq!(HeaderAuth::parse_key("abc"), Some("abc".to_string()));
    assert_eq!(HeaderAuth::parse_key("key abc"), Some("abc".to_string()));
    assert_eq!(HeaderAuth::parse_key("Bearer abc"), Some("abc".to_string()));
    assert_eq!(HeaderAuth::parse_key("key "), None);
    assert_eq!(HeaderAuth::parse_key("Bearer    xyz  "), Some("xyz".to_string()));
    assert_eq!(HeaderAuth::parse_key("token abc"), Some("token abc".to_string()));
}

#[test]
fn parse_key_or_token() {
    match HeaderAuth::parse("token t1") {
        Some(HeaderAuth::Token(t)) => assert_eq!(t, "t1"),
        other => panic!("unexpected {:?}", other),
    }
    match HeaderAuth::parse("key k1") {
        Some(HeaderAuth::Key(k)) => assert_eq!(k, "k1"),
        other => panic!("unexpected {:?}", other),
    }
    match HeaderAuth::parse("other k2") {
        Some(HeaderAuth::Key(k)) => assert_eq!(k, "k2"),
        other => panic!("unexpected {:?}", other),
    }
    match HeaderAuth::parse("  lone\t") {
        Some(HeaderAuth::Key(k)) => assert_eq!(k, "lone"),
        other => panic!("unexpected {:?}", other),
    }
    assert!(HeaderAuth::parse("").is_none());
    assert!(HeaderAuth::parse(" \u{3000} ").is_none());
}
