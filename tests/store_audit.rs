use sso::audit::{
    create, delete_by_age, AuditBuilder, AuditData, AuditMessage, AuditMessageObject, AuditMeta,
    AuditPath, AuditValue, UserField,
};
use sso::driver::{KeyCreate, MemoryDriver, ServiceCreate};
use sso::error::DriverError;
use sso::model::{KeyType, User};
use sso::user::{UserCreate, UserRead, UserUpdate};

fn meta() -> AuditMeta {
    AuditMeta { user_agent: "agent".to_string(), remote: "10.0.0.1".to_string(), forwarded_for: Some("1.2.3.4".to_string()), user: None }
}

fn user(id: u128) -> User {
    User {
        id,
        is_enabled: true,
        name: "Name".to_string(),
        email: "a@test.com".to_string(),
        locale: "en".to_string(),
        timezone: "Etc/UTC".to_string(),
        password_allow_reset: false,
        password_require_update: false,
        password_hash: None,
    }
}

#[test]
fn csrf_is_consumed_once() {
    let mut d = MemoryDriver::new();
    let now = 1_000;
    let c = d.csrf_create("state", "value", now + 60, 5).unwrap();
    assert_eq!(c.ttl, 1_060);
    assert_eq!(d.csrf_create("state", "other", now + 60, 5).unwrap_err(), DriverError::CsrfKeyConstraint);
    let read = d.csrf_read("state", now + 1).unwrap();
    assert_eq!(read.value, "value");
    assert_eq!(read.service_id, 5);
    assert!(d.csrf_read("state", now + 1).is_none());
}

#[test]
fn csrf_expired_is_not_returned() {
    let mut d = MemoryDriver::new();
    d.csrf_create("state", "value", 100, 5).unwrap();
    assert!(d.csrf_read("state", 100).is_none());
    assert!(d.csrf_read("missing", 0).is_none());
    d.csrf_create("state", "again", 200, 5).unwrap();
}

#[test]
fn uniqueness_conflicts() {
    let mut d = MemoryDriver::new();
    d.user_create(&UserCreate::new(true, "A", "a@test.com")).unwrap();
    assert_eq!(d.user_create(&UserCreate::new(true, "B", "a@test.com")).unwrap_err(), DriverError::UserEmailConstraint);
    let b = d.user_create(&UserCreate::new(true, "B", "b@test.com")).unwrap();
    let update = UserUpdate::new_email(b.id, "a@test.com");
    assert_eq!(d.user_update(&update).unwrap_err(), DriverError::UserEmailConstraint);
    assert_eq!(d.user_update(&UserUpdate::new_id(999)).unwrap_err(), DriverError::UserNotFound);
    let k = KeyCreate { is_enabled: true, is_revoked: false, key_type: KeyType::Key, name: "k".to_string(), value: "v".to_string(), service_id: None, user_id: None };
    d.key_create(&k).unwrap();
    assert_eq!(d.key_create(&k).unwrap_err(), DriverError::KeyValueConstraint);
}

#[test]
fn identifiers_come_from_a_counter() {
    let mut d = MemoryDriver::new();
    let s = d.service_create(&ServiceCreate {
        is_enabled: true,
        name: "S".to_string(),
        url: "http://s".to_string(),
        user_allow_register: false,
        provider_local_url: None,
        provider_github_oauth2_url: None,
        provider_microsoft_oauth2_url: None,
    }).unwrap();
    let u = d.user_create(&UserCreate::new(true, "A", "a@test.com")).unwrap();
    assert_eq!(s.id, 1);
    assert_eq!(u.id, 2);
    assert_eq!(d.service_read(1).unwrap().name, "S");
    assert!(d.service_read(2).is_none());
    assert_eq!(d.user_read(&UserRead::Email("a@test.com".to_string())).unwrap().id, 2);
}

#[test]
fn user_lists_by_identifier() {
    let mut d = MemoryDriver::new();
    for i in 0..5 {
        d.user_create(&UserCreate::new(true, "N", &format!("{}@test.com", i))).unwrap();
    }
    let ids = |v: Vec<User>| v.iter().map(|u| u.id).collect::<Vec<u128>>();
    assert_eq!(ids(d.user_list_id_gt(0, 2)), vec![1, 2]);
    assert_eq!(ids(d.user_list_id_gt(3, 10)), vec![4, 5]);
    assert_eq!(ids(d.user_list_id_lt(5, 2)), vec![3, 4]);
    assert_eq!(ids(d.user_list_id_lt(3, 10)), vec![1, 2]);
    assert_eq!(ids(d.user_list_id_gt(5, 10)), Vec::<u128>::new());
    d.user_delete(2).unwrap();
    assert_eq!(ids(d.user_list_id_gt(0, 10)), vec![1, 3, 4, 5]);
    assert_eq!(d.user_delete(2).unwrap_err(), DriverError::UserNotFound);
}

#[test]
fn advisory_locks() {
    let mut d = MemoryDriver::new();
    let kept = d.exclusive_lock(7, |mut inner: MemoryDriver| {
        assert_eq!(inner.exclusive_lock(7, |x: MemoryDriver| (x, Ok(0))), Err(DriverError::Locked(7)));
        assert_eq!(inner.shared_lock(7, |x: MemoryDriver| (x, Ok(0))), Err(DriverError::Locked(7)));
        assert_eq!(inner.exclusive_lock(8, |x: MemoryDriver| (x, Ok(1))), Ok(1));
        let r = inner.user_create(&UserCreate::new(true, "A", "a@test.com")).map(|u| u.id);
        (inner, r)
    });
    assert_eq!(kept, Ok(1));
    assert!(d.user_read(&UserRead::Id(1)).is_some());
    let rolled = d.shared_lock(7, |mut inner: MemoryDriver| {
        assert_eq!(inner.shared_lock(7, |x: MemoryDriver| (x, Ok(()))), Ok(()));
        assert_eq!(inner.exclusive_lock(7, |x: MemoryDriver| (x, Ok(()))), Err(DriverError::Locked(7)));
        inner.user_create(&UserCreate::new(true, "B", "b@test.com")).unwrap();
        (inner, Err::<(), DriverError>(DriverError::UserNotFound))
    });
    assert_eq!(rolled, Err(DriverError::UserNotFound));
    assert!(d.user_read(&UserRead::Email("b@test.com".to_string())).is_none());
    assert_eq!(d.exclusive_lock(7, |x: MemoryDriver| (x, Ok(()))), Ok(()));
}

#[test]
fn audit_records_accumulated_principals() {
    let mut d = MemoryDriver::new();
    let mut b = AuditBuilder::new(meta());
    let mut u = user(3);
    u.id = 3;
    b.set_user(Some(&u));
    let path = AuditPath::Login(AuditMessageObject { message: AuditMessage::Login });
    let a = b.create(&mut d, path, 500).unwrap();
    assert_eq!(a.path, "ark_auth/login");
    assert_eq!(a.user_id, Some(3));
    assert_eq!(a.key_id, None);
    assert_eq!(a.created_at, 500);
    assert_eq!(a.forwarded_for, Some("1.2.3.4".to_string()));
    assert_eq!(a.data, AuditData::Message(AuditMessageObject { message: AuditMessage::Login }));
    let err = AuditPath::UpdatePasswordRevokeError(AuditMessageObject { message: AuditMessage::TokenInvalidOrExpired });
    let a2 = create(&mut d, &meta(), err, Some(1), Some(2), None, Some(4), 600).unwrap();
    assert_eq!(a2.path, "ark_auth/error/update_password_revoke");
    assert_eq!((a2.key_id, a2.service_id, a2.user_key_id), (Some(1), Some(2), Some(4)));
}

#[test]
fn audit_retention_deletes_old_records() {
    let mut d = MemoryDriver::new();
    let path = || AuditPath::Login(AuditMessageObject { message: AuditMessage::Login });
    create(&mut d, &meta(), path(), None, None, None, None, 100).unwrap();
    create(&mut d, &meta(), path(), None, None, None, None, 2 * 86_400 + 100).unwrap();
    create(&mut d, &meta(), path(), None, None, None, None, 3 * 86_400).unwrap();
    assert_eq!(delete_by_age(&mut d, 1, 3 * 86_400 + 50), 1);
    assert_eq!(delete_by_age(&mut d, 0, 3 * 86_400), 1);
    assert_eq!(delete_by_age(&mut d, 100, 10), 0);
}

#[test]
fn audit_path_keys() {
    let m = || AuditMessageObject { message: AuditMessage::ResetPassword };
    assert_eq!(AuditPath::ResetPassword(m()).to_path_data().0, "ark_auth/reset_password");
    assert_eq!(AuditPath::LoginError(m()).to_path_data().0, "ark_auth/error/login");
    assert_eq!(AuditPath::UpdateEmailRevoke(m()).to_path_data().0, "ark_auth/update_email_revoke");
}

#[test]
fn diff_lists_exactly_the_changed_field() {
    let a = user(1);
    let mut b = user(1);
    b.name = "Other".to_string();
    let d = b.diff(&a);
    assert_eq!(d.len(), 1);
    assert_eq!(d[0].field, UserField::Name);
    assert_eq!(d[0].old, AuditValue::Text("Name".to_string()));
    assert_eq!(d[0].new, AuditValue::Text("Other".to_string()));
    assert!(a.diff(&a).is_empty());
    let mut c = user(1);
    c.is_enabled = false;
    c.password_require_update = true;
    let d = c.diff(&a);
    assert_eq!(d.iter().map(|e| e.field).collect::<Vec<_>>(), vec![UserField::IsEnabled, UserField::PasswordRequireUpdate]);
    assert_eq!(d[0].old, AuditValue::Bool(true));
}

#[test]
fn subject_is_hex_identifier() {
    assert_eq!(user(255).subject(), "000000000000000000000000000000ff");
}

#[test]
fn audit_link_fills_only_missing_references() {
    let mut d = MemoryDriver::new();
    let path = AuditPath::Login(AuditMessageObject { message: AuditMessage::Login });
    let a = create(&mut d, &meta(), path, Some(1), None, None, None, 10).unwrap();
    let up = sso::driver::AuditUpdate { key_id: Some(9), service_id: Some(2), user_id: Some(3), user_key_id: None };
    assert_eq!(d.audit_update(a.id, &up), Ok(()));
    let b = d.audit_read(a.id).unwrap();
    assert_eq!((b.key_id, b.service_id, b.user_id, b.user_key_id), (Some(1), Some(2), Some(3), None));
    assert_eq!(b.path, "ark_auth/login");
    assert_eq!(d.audit_update(a.id + 1, &up), Err(DriverError::AuditNotFound));
    assert!(d.audit_read(a.id + 1).is_none());
}

#[test]
fn key_and_service_updates() {
    let mut d = MemoryDriver::new();
    let s = d.service_create(&ServiceCreate {
        is_enabled: true,
        name: "S".to_string(),
        url: "http://s".to_string(),
        user_allow_register: false,
        provider_local_url: None,
        provider_github_oauth2_url: None,
        provider_microsoft_oauth2_url: None,
    }).unwrap();
    let k = KeyCreate { is_enabled: true, is_revoked: false, key_type: KeyType::Key, name: "k".to_string(), value: "v".to_string(), service_id: Some(s.id), user_id: None };
    let key = d.key_create(&k).unwrap();
    let mut audit = AuditBuilder::new(meta());
    assert!(sso::auth::key_service_authenticate(&d, &mut audit, Some(&key.value), 0).is_ok());
    let renamed = d.key_update(key.id, &sso::driver::KeyUpdate { is_enabled: None, is_revoked: None, name: Some("renamed".to_string()) }).unwrap();
    assert_eq!((renamed.name.as_str(), renamed.value.as_str()), ("renamed", "v"));
    let off = d.service_update(s.id, &sso::driver::ServiceUpdate { is_enabled: Some(false), name: None }).unwrap();
    assert!(!off.is_enabled);
    assert_eq!(off.name, "S");
    assert_eq!(sso::auth::key_service_authenticate(&d, &mut audit, Some(&key.value), 0).unwrap_err(), DriverError::ServiceNotFound);
    assert_eq!(d.key_update(99, &sso::driver::KeyUpdate { is_enabled: None, is_revoked: None, name: None }).unwrap_err(), DriverError::KeyNotFound);
    assert_eq!(d.service_update(99, &sso::driver::ServiceUpdate { is_enabled: None, name: None }).unwrap_err(), DriverError::ServiceNotFound);
}
