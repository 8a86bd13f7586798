use sso::error::DriverError;
use sso::model::User;
use sso::password::{password_meta, password_meta_scored, pwned_hash, pwned_in_range, pwned_range_prefix, totp_verify};
use sso::user::{UserCreate, UserPasswordMeta, UserUpdate, UserUpdate2};

#[test]
fn sha1_range_prefix_and_suffix() {
    let prefix: String = pwned_range_prefix("password").into_iter().collect();
    assert_eq!(prefix, "5BAA6");
    let hash: String = pwned_hash("password").into_iter().collect();
    assert_eq!(hash, "5BAA61E4C9B93F3F0682250B6CF8331B7EE68FD8");
}

#[test]
fn range_answer_lists_password() {
    let hash = pwned_hash("password");
    let body = b"0018A45C4D1DEF81644B54AB7F969B88D65:1\r\n1E4C9B93F3F0682250B6CF8331B7EE68FD8:3861493\r\n";
    assert!(pwned_in_range(&hash, body));
    let other = b"0018A45C4D1DEF81644B54AB7F969B88D65:1\r\nX1E4C9B93F3F0682250B6CF8331B7EE68FD8:2\r\n1E4C9B93F3F06";
    assert!(!pwned_in_range(&hash, other));
    assert!(!pwned_in_range(&hash, b""));
}

#[test]
fn password_meta_cases() {
    assert_eq!(password_meta(true, None, None), Ok(UserPasswordMeta::default()));
    assert_eq!(password_meta(true, Some(""), None), Ok(UserPasswordMeta::invalid()));
    let m = password_meta(false, Some("correct horse battery staple"), None).unwrap();
    assert!(m.password_strength.unwrap() <= 4);
    assert_eq!(m.password_pwned, None);
    let body = b"1E4C9B93F3F0682250B6CF8331B7EE68FD8:3\n";
    let m = password_meta(true, Some("password"), Some(&body[..])).unwrap();
    assert_eq!(m.password_pwned, Some(true));
    assert_eq!(m.password_strength, Some(0));
    let m = password_meta(false, Some("password"), Some(&body[..])).unwrap();
    assert_eq!(m.password_pwned, None);
}

#[test]
fn password_hash_and_check() {
    let c = UserCreate::new(true, "n", "e@test.com").with_password(true, false, "long enough password").unwrap();
    assert!(c.password_allow_reset);
    assert!(!c.password_require_update);
    let hash = c.password_hash.clone();
    assert!(hash.is_some());
    let mut u = User {
        id: 1,
        is_enabled: true,
        name: "n".to_string(),
        email: "e@test.com".to_string(),
        locale: "en".to_string(),
        timezone: "Etc/UTC".to_string(),
        password_allow_reset: false,
        password_require_update: false,
        password_hash: hash,
    };
    assert_eq!(u.password_check("long enough password"), Ok(false));
    assert_eq!(u.password_check("wrong password!"), Err(DriverError::UserPasswordIncorrect));
    u.password_hash = None;
    assert_eq!(u.password_check("anything"), Err(DriverError::UserPasswordUndefined));
}

#[test]
fn password_meta_with_given_score() {
    let body = b"1E4C9B93F3F0682250B6CF8331B7EE68FD8:3\n";
    let m = password_meta_scored(true, Some("password"), 3, Some(&body[..]));
    assert_eq!(m, UserPasswordMeta { password_strength: Some(3), password_pwned: Some(true) });
    let m = password_meta_scored(true, Some("password"), 3, None);
    assert_eq!(m, UserPasswordMeta { password_strength: Some(3), password_pwned: None });
    assert_eq!(password_meta_scored(true, Some(""), 3, None), UserPasswordMeta::invalid());
    assert_eq!(password_meta_scored(true, None, 3, None), UserPasswordMeta::default());
}

#[test]
fn short_password_is_not_hashed() {
    assert_eq!(UserUpdate::new_password(1, "short").unwrap_err(), DriverError::PasswordHash);
    assert_eq!(UserUpdate2::password("short").unwrap_err(), DriverError::PasswordHash);
}

#[test]
fn builders() {
    let c = UserCreate::new(false, "n", "e@test.com").locale("fr").timezone("Europe/Paris").password_allow_reset(true);
    assert_eq!((c.locale.as_str(), c.timezone.as_str()), ("fr", "Europe/Paris"));
    assert!(c.password_allow_reset && !c.is_enabled);
    let d = UserCreate::new(true, "n", "e@test.com");
    assert_eq!((d.locale.as_str(), d.timezone.as_str()), ("en", "Etc/UTC"));
    let u = UserUpdate::new(3, Some(true), Some("x".to_string()), None, None, None, Some(true)).set_is_enabled(false);
    assert_eq!(u.is_enabled, Some(false));
    assert_eq!(u.password_require_update, Some(true));
    assert_eq!(UserUpdate::new_email(3, "z@test.com").email, Some("z@test.com".to_string()));
    assert_eq!(UserUpdate2::email("z@test.com").email, Some("z@test.com".to_string()));
}

#[test]
fn totp_codes() {
    let key = "GEZDGNBVGY3TQOJQGEZDGNBVGY3TQOJQ";
    let r = totp_verify(key, "287082");
    assert!(r == Ok(()) || r == Err(DriverError::TotpInvalid));
    assert_eq!(totp_verify(key, "not a code"), Err(DriverError::TotpInvalid));
    assert_eq!(totp_verify("not base32!", "287082"), Err(DriverError::TotpInvalid));
    assert_eq!(sso::password::totp_outcome(Some(true)), Ok(()));
    assert_eq!(sso::password::totp_outcome(Some(false)), Err(DriverError::TotpInvalid));
    assert_eq!(sso::password::totp_outcome(None), Err(DriverError::TotpInvalid));
}
