use sso::audit::{AuditBuilder, AuditMeta};
use sso::auth::{decode_user_token, key_authenticate, key_root_authenticate, key_service_authenticate};
use sso::driver::{KeyCreate, KeyUpdate, MemoryDriver, ServiceCreate};
use sso::error::{DriverError, MethodError};
use sso::header::HeaderAuth;
use sso::method::{login, reset_password, reset_password_template, revoke, TemplateKind};
use sso::model::{Key, KeyType, Service, User};
use sso::token::{encode_token, TokenKind};
use sso::user::{UserCreate, UserRead, UserUpdate};

fn meta(user: Option<HeaderAuth>) -> AuditMeta {
    AuditMeta { user_agent: "agent".to_string(), remote: "127.0.0.1".to_string(), forwarded_for: None, user }
}

fn service_create(name: &str, allow_register: bool) -> ServiceCreate {
    ServiceCreate {
        is_enabled: true,
        name: name.to_string(),
        url: "http://localhost".to_string(),
        user_allow_register: allow_register,
        provider_local_url: None,
        provider_github_oauth2_url: Some("http://localhost/github".to_string()),
        provider_microsoft_oauth2_url: None,
    }
}

fn key_create(value: &str, key_type: KeyType, service_id: Option<u128>, user_id: Option<u128>) -> KeyCreate {
    KeyCreate {
        is_enabled: true,
        is_revoked: false,
        key_type,
        name: "key".to_string(),
        value: value.to_string(),
        service_id,
        user_id,
    }
}

struct World {
    driver: MemoryDriver,
    service: Service,
    service_key: Key,
    root_key: Key,
    user: User,
    token_key: Key,
}

fn world() -> World {
    let mut driver = MemoryDriver::new();
    let service = driver.service_create(&service_create("S", true)).unwrap();
    let root_key = driver.key_create(&key_create("root-secret", KeyType::Key, None, None)).unwrap();
    let service_key = driver
        .key_create(&key_create("service-secret", KeyType::Key, Some(service.id), None))
        .unwrap();
    let user = driver.user_create(&UserCreate::new(true, "U", "u@test.com")).unwrap();
    let token_key = driver
        .key_create(&key_create("token-secret", KeyType::Token, Some(service.id), Some(user.id)))
        .unwrap();
    World { driver, service, service_key, root_key, user, token_key }
}

#[test]
fn root_and_service_keys_authenticate() {
    let w = world();
    let mut audit = AuditBuilder::new(meta(None));
    let service = key_service_authenticate(&w.driver, &mut audit, Some(&w.service_key.value), 10).unwrap();
    assert_eq!(service.id, w.service.id);
    assert_eq!(audit.service_id(), Some(w.service.id));
    assert_eq!(audit.key_id(), Some(w.service_key.id));
    let mut audit = AuditBuilder::new(meta(None));
    assert_eq!(key_authenticate(&w.driver, &mut audit, Some(&w.root_key.value), 10).unwrap().map(|s| s.id), None);
    assert_eq!(audit.key_id(), Some(w.root_key.id));
    let mut audit = AuditBuilder::new(meta(None));
    assert_eq!(
        key_service_authenticate(&w.driver, &mut audit, Some(&w.root_key.value), 10).unwrap_err(),
        DriverError::KeyServiceUndefined
    );
    assert_eq!(key_root_authenticate(&w.driver, &mut audit, None), Err(DriverError::KeyUndefined));
    let unknown = "nope".to_string();
    assert_eq!(key_root_authenticate(&w.driver, &mut audit, Some(&unknown)), Err(DriverError::KeyNotFound));
}

#[test]
fn inactive_keys_never_authenticate() {
    let mut w = world();
    let disabled = w
        .driver
        .key_create(&KeyCreate { is_enabled: false, ..key_create("disabled-secret", KeyType::Key, Some(w.service.id), None) })
        .unwrap();
    let revoked = w
        .driver
        .key_create(&KeyCreate { is_revoked: true, ..key_create("revoked-secret", KeyType::Key, None, None) })
        .unwrap();
    for value in [&disabled.value, &revoked.value] {
        let mut audit = AuditBuilder::new(meta(None));
        assert!(key_authenticate(&w.driver, &mut audit, Some(value), 10).is_err());
        assert!(key_service_authenticate(&w.driver, &mut audit, Some(value), 10).is_err());
    }
    let user_key = w
        .driver
        .key_create(&KeyCreate { is_enabled: false, ..key_create("user-key", KeyType::Key, Some(w.service.id), Some(w.user.id)) })
        .unwrap();
    let mut audit = AuditBuilder::new(meta(Some(HeaderAuth::Key(user_key.value.clone()))));
    assert_eq!(
        key_service_authenticate(&w.driver, &mut audit, Some(&w.service_key.value), 10).unwrap_err(),
        DriverError::KeyNotFound
    );
}

#[test]
fn disabled_service_is_not_found() {
    let mut driver = MemoryDriver::new();
    let service = driver.service_create(&ServiceCreate { is_enabled: false, ..service_create("off", true) }).unwrap();
    let key = driver.key_create(&key_create("off-secret", KeyType::Key, Some(service.id), None)).unwrap();
    let mut audit = AuditBuilder::new(meta(None));
    assert_eq!(key_service_authenticate(&driver, &mut audit, Some(&key.value), 10).unwrap_err(), DriverError::ServiceNotFound);
}

#[test]
fn access_token_scenario_fails_after_key_disabled() {
    let mut w = world();
    let (token, expires) = encode_token(TokenKind::Access, &w.service, &w.user, &w.token_key, 1000, 3600);
    assert_eq!(expires, 4600);
    let mut audit = AuditBuilder::new(meta(None));
    let (user, key) = decode_user_token(&w.driver, &w.service, &mut audit, &token, TokenKind::Access, 1001).unwrap();
    assert_eq!(user.id, w.user.id);
    assert_eq!(key.id, w.token_key.id);
    let mut audit = AuditBuilder::new(meta(Some(HeaderAuth::Token(token.clone()))));
    assert!(key_service_authenticate(&w.driver, &mut audit, Some(&w.service_key.value), 1001).is_ok());
    assert_eq!(audit.user_id(), Some(w.user.id));
    assert_eq!(audit.user_key_id(), Some(w.token_key.id));

    let update = KeyUpdate { is_enabled: Some(false), is_revoked: None, name: None };
    assert_eq!(w.driver.key_update_many(w.service.id, w.user.id, &update), 1);
    let mut audit = AuditBuilder::new(meta(None));
    assert!(decode_user_token(&w.driver, &w.service, &mut audit, &token, TokenKind::Access, 1001).is_err());
    let mut audit = AuditBuilder::new(meta(Some(HeaderAuth::Token(token.clone()))));
    assert!(key_service_authenticate(&w.driver, &mut audit, Some(&w.service_key.value), 1001).is_err());
}

#[test]
fn token_fails_after_signing_key_deleted_or_replaced() {
    let mut w = world();
    let (token, _) = encode_token(TokenKind::Access, &w.service, &w.user, &w.token_key, 1000, 3600);
    w.driver.key_delete(w.token_key.id).unwrap();
    let mut audit = AuditBuilder::new(meta(None));
    assert_eq!(
        decode_user_token(&w.driver, &w.service, &mut audit, &token, TokenKind::Access, 1001).unwrap_err(),
        DriverError::KeyNotFound
    );
    w.driver.key_create(&key_create("new-token-secret", KeyType::Token, Some(w.service.id), Some(w.user.id))).unwrap();
    assert_eq!(
        decode_user_token(&w.driver, &w.service, &mut audit, &token, TokenKind::Access, 1001).unwrap_err(),
        DriverError::TokenInvalidOrExpired
    );
    assert_eq!(w.driver.key_delete(w.token_key.id), Err(DriverError::KeyNotFound));
}

#[test]
fn token_of_other_service_or_kind_rejected() {
    let mut w = world();
    let other = w.driver.service_create(&service_create("T", true)).unwrap();
    let (token, _) = encode_token(TokenKind::Refresh, &w.service, &w.user, &w.token_key, 1000, 3600);
    let mut audit = AuditBuilder::new(meta(None));
    assert!(decode_user_token(&w.driver, &other, &mut audit, &token, TokenKind::Refresh, 1001).is_err());
    assert!(decode_user_token(&w.driver, &w.service, &mut audit, &token, TokenKind::Access, 1001).is_err());
    assert!(decode_user_token(&w.driver, &w.service, &mut audit, &token, TokenKind::Refresh, 5000).is_err());
    assert!(decode_user_token(&w.driver, &w.service, &mut audit, &token, TokenKind::Refresh, 4599).is_ok());
}

#[test]
fn revoke_disables_user_and_keys() {
    let mut w = world();
    let other_key = w
        .driver
        .key_create(&key_create("user-key-2", KeyType::Key, Some(w.service.id), Some(w.user.id)))
        .unwrap();
    let (token, _) = encode_token(TokenKind::Revoke, &w.service, &w.user, &w.token_key, 1000, 60);
    let mut audit = AuditBuilder::new(meta(None));
    let record = revoke(&mut w.driver, &mut audit, Some(&w.service_key.value), &token, Some("custom/revoke"), 1010).unwrap().unwrap();
    assert_eq!(record.path, "custom/revoke");
    assert_eq!(record.user_id, Some(w.user.id));
    assert_eq!(record.user_key_id, Some(w.token_key.id));
    assert_eq!(record.service_id, Some(w.service.id));
    let user = w.driver.user_read(&UserRead::Id(w.user.id)).unwrap();
    assert!(!user.is_enabled);
    let mut audit = AuditBuilder::new(meta(None));
    let read = sso::driver::KeyRead::user_id(w.service.id, w.user.id, false, true, KeyType::Token);
    let k = w.driver.key_read(&read).unwrap();
    assert_eq!(k.id, w.token_key.id);
    let read = sso::driver::KeyRead::user_id(w.service.id, w.user.id, false, true, KeyType::Key);
    assert_eq!(w.driver.key_read(&read).unwrap().id, other_key.id);
    assert!(key_authenticate(&w.driver, &mut audit, Some(&w.service_key.value), 1010).is_ok());
}

#[test]
fn revoke_rejects_other_token_kinds() {
    let mut w = world();
    let (token, _) = encode_token(TokenKind::Access, &w.service, &w.user, &w.token_key, 1000, 60);
    let mut audit = AuditBuilder::new(meta(None));
    assert_eq!(
        revoke(&mut w.driver, &mut audit, Some(&w.service_key.value), &token, Some("x"), 1010).map(|a| a.map(|a| a.id)),
        Err(MethodError::BadRequest(DriverError::TokenInvalidOrExpired))
    );
    assert!(w.driver.user_read(&UserRead::Id(w.user.id)).unwrap().is_enabled);
    let unknown = "unknown".to_string();
    assert_eq!(
        revoke(&mut w.driver, &mut audit, Some(&unknown), &token, None, 1010).map(|a| a.map(|a| a.id)),
        Err(MethodError::Unauthorised(DriverError::KeyNotFound))
    );
}

#[test]
fn reset_password_request_never_reveals_users() {
    let mut w = world();
    let update = UserUpdate::new_id(w.user.id).set_password_allow_reset(true);
    w.driver.user_update(&update).unwrap();
    let mut audit = AuditBuilder::new(meta(None));
    let missing = "nobody@test.com".to_string();
    assert!(reset_password_template(&w.driver, &mut audit, Some(&w.service_key.value), &missing, 10, 60).is_none());
    let email = "u@test.com".to_string();
    let t = reset_password_template(&w.driver, &mut audit, Some(&w.service_key.value), &email, 10, 60).unwrap();
    assert_eq!(t.kind, TemplateKind::ResetPassword);
    assert_eq!(t.user.id, w.user.id);
    let unknown = "unknown".to_string();
    assert!(reset_password_template(&w.driver, &mut audit, Some(&unknown), &email, 10, 60).is_none());

    let sent = std::cell::RefCell::new(Vec::new());
    let send = |t: &sso::method::TemplateEmail| -> Result<(), String> {
        sent.borrow_mut().push(t.user.email.clone());
        Err("mail server down".to_string())
    };
    let existing = reset_password(&w.driver, &mut audit, Some(&w.service_key.value), &email, 10, 60, &send);
    let absent = reset_password(&w.driver, &mut audit, Some(&w.service_key.value), &missing, 10, 60, &send);
    assert_eq!(existing, Ok(()));
    assert_eq!(absent, existing);
    assert_eq!(*sent.borrow(), vec!["u@test.com".to_string()]);
}

#[test]
fn login_errors_by_category() {
    let mut w = world();
    let mut audit = AuditBuilder::new(meta(None));
    let email = "u@test.com".to_string();
    assert_eq!(
        login(&w.driver, &mut audit, Some(&w.service_key.value), &email, "password1", 10, 60, 120).unwrap_err(),
        MethodError::BadRequest(DriverError::UserPasswordUndefined)
    );
    let missing = "missing@test.com".to_string();
    assert_eq!(
        login(&w.driver, &mut audit, Some(&w.service_key.value), &missing, "password1", 10, 60, 120).unwrap_err(),
        MethodError::BadRequest(DriverError::UserNotFound)
    );
    let update = UserUpdate { password_require_update: Some(true), ..UserUpdate::new_id(w.user.id) };
    w.driver.user_update(&update).unwrap();
    assert_eq!(
        login(&w.driver, &mut audit, Some(&w.service_key.value), &email, "password1", 10, 60, 120).unwrap_err(),
        MethodError::Forbidden(DriverError::UserPasswordUpdateRequired)
    );
    let update = UserUpdate::new_id(w.user.id).set_is_enabled(false);
    w.driver.user_update(&update).unwrap();
    assert_eq!(
        login(&w.driver, &mut audit, Some(&w.service_key.value), &email, "password1", 10, 60, 120).unwrap_err(),
        MethodError::BadRequest(DriverError::UserDisabled)
    );
    assert_eq!(
        login(&w.driver, &mut audit, None, &email, "password1", 10, 60, 120).unwrap_err(),
        MethodError::Unauthorised(DriverError::KeyUndefined)
    );
}

#[test]
fn scenario_access_token_then_key_disabled() {
    let mut driver = MemoryDriver::new();
    let service = driver.service_create(&service_create("S", false)).unwrap();
    let root = driver.key_create(&key_create("root", KeyType::Key, None, None)).unwrap();
    let mut audit = AuditBuilder::new(meta(None));
    assert!(key_authenticate(&driver, &mut audit, Some(&root.value), 0).unwrap().is_none());
    let service_key = driver.key_create(&key_create("svc", KeyType::Key, Some(service.id), None)).unwrap();
    let body = sso::user_api::CreateBody { name: "U".to_string(), email: "u@test.com".to_string(), password: None };
    let user = sso::user_api::create(&mut driver, &mut audit, Some(&service_key.value), &body, 0, false, None).unwrap().data;
    assert!(user.is_enabled);
    let k = driver.key_create(&key_create("k", KeyType::Token, Some(service.id), Some(user.id))).unwrap();
    let (token, _) = encode_token(TokenKind::Access, &service, &user, &k, 1_000, 3600);
    let mut audit = AuditBuilder::new(meta(None));
    let (decoded, _) = decode_user_token(&driver, &service, &mut audit, &token, TokenKind::Access, 1_000).unwrap();
    assert_eq!(decoded.id, user.id);
    let mut with_token = AuditBuilder::new(meta(Some(HeaderAuth::Token(token.clone()))));
    assert!(sso::user_api::read(&driver, &mut with_token, Some(&service_key.value), user.id, 1_000).is_ok());
    driver.key_update_many(service.id, user.id, &KeyUpdate { is_enabled: Some(false), is_revoked: None, name: None });
    let mut with_token = AuditBuilder::new(meta(Some(HeaderAuth::Token(token.clone()))));
    assert_eq!(
        sso::user_api::read(&driver, &mut with_token, Some(&service_key.value), user.id, 1_000).unwrap_err(),
        MethodError::Unauthorised(DriverError::KeyNotFound)
    );
}

#[test]
fn revoke_without_audit_path_returns_none() {
    let mut w = world();
    let (token, _) = encode_token(TokenKind::Revoke, &w.service, &w.user, &w.token_key, 1000, 60);
    let mut audit = AuditBuilder::new(meta(None));
    assert_eq!(revoke(&mut w.driver, &mut audit, Some(&w.service_key.value), &token, None, 1010).unwrap().map(|a| a.id), None);
    assert!(!w.driver.user_read(&UserRead::Id(w.user.id)).unwrap().is_enabled);
}
