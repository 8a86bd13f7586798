use sso::audit::{AuditBuilder, AuditMeta};
use sso::driver::{KeyCreate, MemoryDriver, ServiceCreate};
use sso::error::{DriverError, MethodError};
use sso::method::{oauth2_callback, oauth2_login, oauth2_url, register, register_confirm, reset_password_confirm, update_email, update_password, Oauth2Provider, TemplateKind};
use sso::model::{Key, KeyType, Service};
use sso::token::{encode_token, TokenKind};
use sso::user::UserRead;
use sso::user_api::{create, delete, list, read, update, CreateBody, ListQuery, UpdateBody};

fn audit() -> AuditBuilder {
    AuditBuilder::new(AuditMeta { user_agent: "a".to_string(), remote: "r".to_string(), forwarded_for: None, user: None })
}

fn setup(allow_register: bool) -> (MemoryDriver, Service, Key) {
    let mut d = MemoryDriver::new();
    let s = d.service_create(&ServiceCreate {
        is_enabled: true,
        name: "S".to_string(),
        url: "http://s".to_string(),
        user_allow_register: allow_register,
        provider_local_url: None,
        provider_github_oauth2_url: Some("http://s/github".to_string()),
        provider_microsoft_oauth2_url: None,
    }).unwrap();
    let k = d.key_create(&KeyCreate { is_enabled: true, is_revoked: false, key_type: KeyType::Key, name: "k".to_string(), value: "service-key".to_string(), service_id: Some(s.id), user_id: None }).unwrap();
    (d, s, k)
}

#[test]
fn user_crud_through_service_key() {
    let (mut d, _s, k) = setup(false);
    let body = CreateBody { name: "U".to_string(), email: "u@test.com".to_string(), password: None };
    let created = create(&mut d, &mut audit(), Some(&k.value), &body, 10, false, None).unwrap();
    assert!(created.data.is_enabled);
    assert_eq!(created.meta.password_strength, None);
    let dup = create(&mut d, &mut audit(), Some(&k.value), &body, 10, false, None).unwrap_err();
    assert_eq!(dup, MethodError::BadRequest(DriverError::UserEmailConstraint));
    let id = created.data.id;
    assert_eq!(read(&d, &mut audit(), Some(&k.value), id, 10).unwrap().data.email, "u@test.com");
    let renamed = update(&mut d, &mut audit(), Some(&k.value), id, &UpdateBody { name: Some("V".to_string()) }, 10).unwrap();
    assert_eq!(renamed.data.name, "V");
    let page = list(&d, &mut audit(), Some(&k.value), &ListQuery { gt: None, lt: None, limit: None }, 10).unwrap();
    assert_eq!(page.meta.limit, 10);
    assert_eq!(page.meta.gt, Some(0));
    assert_eq!(page.data.len(), 1);
    let page = list(&d, &mut audit(), Some(&k.value), &ListQuery { gt: Some(5), lt: Some(id + 1), limit: Some(1) }, 10).unwrap();
    assert_eq!((page.meta.gt, page.meta.lt, page.data.len()), (None, Some(id + 1), 1));
    assert_eq!(delete(&mut d, &mut audit(), Some(&k.value), id, 10), Ok(1));
    assert_eq!(read(&d, &mut audit(), Some(&k.value), id, 10).unwrap_err(), MethodError::BadRequest(DriverError::UserNotFound));
    let bad = "bad".to_string();
    assert_eq!(delete(&mut d, &mut audit(), Some(&bad), id, 10), Err(MethodError::Unauthorised(DriverError::KeyNotFound)));
}

#[test]
fn register_then_confirm_then_login() {
    let (mut d, s, k) = setup(true);
    let email = "new@test.com".to_string();
    let t = register(&mut d, &mut audit(), Some(&k.value), "New", &email, Some("fr"), None, "token-key", 100, 600).unwrap();
    assert_eq!(t.kind, TemplateKind::Register);
    assert_eq!(t.user.locale, "fr");
    assert!(t.user.password_allow_reset);
    let again = register(&mut d, &mut audit(), Some(&k.value), "New", &email, None, None, "token-key-2", 100, 600).unwrap();
    assert_eq!(again.user.id, t.user.id);
    let c = register_confirm(&mut d, &mut audit(), Some(&k.value), &t.token, Some("a long password"), Some(false), 101, 60).unwrap();
    assert_eq!(c.kind, TemplateKind::RegisterConfirm);
    let stored = d.user_read(&UserRead::Id(t.user.id)).unwrap();
    assert!(stored.password_hash.is_some());
    assert!(!stored.password_allow_reset);
    let pair = sso::method::login(&d, &mut audit(), Some(&k.value), &email, "a long password", 102, 60, 120).unwrap();
    assert_eq!(pair.access_token_expires, 162);
    assert_eq!(pair.refresh_token_expires, 222);
    assert_eq!(s.id, 1);
    let expired = register_confirm(&mut d, &mut audit(), Some(&k.value), &t.token, None, None, 700, 60).unwrap_err();
    assert_eq!(expired, MethodError::BadRequest(DriverError::TokenInvalidOrExpired));
}

#[test]
fn register_refused_without_permission() {
    let (mut d, _s, k) = setup(false);
    let email = "new@test.com".to_string();
    assert_eq!(
        register(&mut d, &mut audit(), Some(&k.value), "New", &email, None, None, "token-key", 100, 600).unwrap_err(),
        MethodError::BadRequest(DriverError::ServiceUserRegisterDisabled)
    );
}

#[test]
fn reset_confirm_and_updates() {
    let (mut d, s, k) = setup(true);
    let email = "new@test.com".to_string();
    let t = register(&mut d, &mut audit(), Some(&k.value), "New", &email, None, None, "token-key", 100, 600).unwrap();
    let key = d.key_read(&sso::driver::KeyRead::user_id(s.id, t.user.id, true, false, KeyType::Token)).unwrap();
    let (reset, _) = encode_token(TokenKind::ResetPassword, &s, &t.user, &key, 100, 600);
    let c = reset_password_confirm(&mut d, &mut audit(), Some(&k.value), &reset, "first password", 101, 60).unwrap();
    assert_eq!(c.kind, TemplateKind::ResetPasswordConfirm);
    let u = update_password(&mut d, &mut audit(), Some(&k.value), &email, "first password", "second password", 102, 60).unwrap();
    assert_eq!(u.kind, TemplateKind::UpdatePassword);
    let wrong = update_password(&mut d, &mut audit(), Some(&k.value), &email, "first password", "third password", 103, 60).unwrap_err();
    assert_eq!(wrong, MethodError::BadRequest(DriverError::UserPasswordIncorrect));
    let e = update_email(&mut d, &mut audit(), Some(&k.value), &email, "second password", "moved@test.com", 104, 60).unwrap();
    assert_eq!(e.old_email, Some("new@test.com".to_string()));
    assert_eq!(e.user.email, "moved@test.com");
    assert!(d.user_read(&UserRead::Email("moved@test.com".to_string())).is_some());
}

#[test]
fn oauth2_state_round_trip() {
    let (mut d, s, k) = setup(true);
    let url = oauth2_url(&mut d, &mut audit(), Some(&k.value), Oauth2Provider::Github, "state-1", 100, 60).unwrap();
    assert_eq!(url, "http://s/github");
    assert_eq!(
        oauth2_url(&mut d, &mut audit(), Some(&k.value), Oauth2Provider::Microsoft, "state-2", 100, 60).unwrap_err(),
        MethodError::BadRequest(DriverError::ServiceProviderOauth2Disabled)
    );
    let (service, service_id) = oauth2_callback(&mut d, &mut audit(), Some(&k.value), "state-1", 120).unwrap();
    assert_eq!((service.id, service_id), (s.id, s.id));
    assert_eq!(
        oauth2_callback(&mut d, &mut audit(), Some(&k.value), "state-1", 120).unwrap_err(),
        MethodError::BadRequest(DriverError::CsrfNotFoundOrUsed)
    );
    let email = "nobody@test.com".to_string();
    assert_eq!(
        oauth2_login(&d, &mut audit(), &service, service_id, &email, 120, 60, 60).unwrap_err(),
        MethodError::BadRequest(DriverError::UserNotFound)
    );
    assert_eq!(
        oauth2_login(&d, &mut audit(), &service, service_id + 1, &email, 120, 60, 60).unwrap_err(),
        MethodError::BadRequest(DriverError::CsrfNotFoundOrUsed)
    );
}

#[test]
fn update_email_conflict_and_password_checks() {
    let (mut d, _s, k) = setup(true);
    let a = "a@test.com".to_string();
    let b = "b@test.com".to_string();
    let ta = register(&mut d, &mut audit(), Some(&k.value), "A", &a, None, None, "key-a", 100, 600).unwrap();
    register(&mut d, &mut audit(), Some(&k.value), "B", &b, None, None, "key-b", 100, 600).unwrap();
    register_confirm(&mut d, &mut audit(), Some(&k.value), &ta.token, Some("password of a"), None, 101, 60).unwrap();
    assert_eq!(
        update_email(&mut d, &mut audit(), Some(&k.value), &a, "password of a", "b@test.com", 102, 60).unwrap_err(),
        MethodError::BadRequest(DriverError::UserEmailConstraint)
    );
    let stored = d.user_read(&UserRead::Id(ta.user.id)).unwrap();
    assert_eq!(stored.password_check("password of a"), Ok(false));
    assert_eq!(stored.email, "a@test.com");
    assert_eq!(
        update_password(&mut d, &mut audit(), Some(&k.value), &a, "password of a", "short", 103, 60).unwrap_err(),
        MethodError::BadRequest(DriverError::PasswordHash)
    );
    assert_eq!(
        register(&mut d, &mut audit(), Some(&k.value), "C", &"c@test.com".to_string(), None, None, "key-a", 100, 600).unwrap_err(),
        MethodError::BadRequest(DriverError::KeyValueConstraint)
    );
}
