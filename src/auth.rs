use crate::audit::AuditBuilder;
use crate::driver::{key_lookup, service_lookup, user_lookup, KeyRead, MemoryDriver};
use crate::error::{DriverError, DriverResult};
use crate::header::HeaderAuth;
use crate::model::{Key, KeyType, Service, User};
use crate::token::{decode, decode_unsafe, peek_spec, verify_spec, TokenClaims, TokenKind};
use crate::user::UserRead;
use vstd::prelude::*;

verus! {

/// A user read that requires the user to be enabled.
pub open spec fn user_checked_spec(users: Seq<User>, read: UserRead) -> DriverResult<User> {
    match user_lookup(users, read) {
        None => Err(DriverError::UserNotFound),
        Some(u) => if u.is_enabled {
            Ok(u)
        } else {
            Err(DriverError::UserDisabled)
        },
    }
}

pub open spec fn user_unchecked_spec(users: Seq<User>, read: UserRead) -> DriverResult<User> {
    match user_lookup(users, read) {
        None => Err(DriverError::UserNotFound),
        Some(u) => Ok(u),
    }
}

/// A key read that requires the key to be enabled and not revoked.
pub open spec fn key_checked_spec(keys: Seq<Key>, read: KeyRead) -> DriverResult<Key> {
    match key_lookup(keys, read) {
        None => Err(DriverError::KeyNotFound),
        Some(k) => if !k.is_enabled {
            Err(DriverError::KeyDisabled)
        } else if k.is_revoked {
            Err(DriverError::KeyRevoked)
        } else {
            Ok(k)
        },
    }
}

pub open spec fn key_unchecked_spec(keys: Seq<Key>, read: KeyRead) -> DriverResult<Key> {
    match key_lookup(keys, read) {
        None => Err(DriverError::KeyNotFound),
        Some(k) => Ok(k),
    }
}

/// The token key of a user on a service: enabled and not revoked.
pub open spec fn token_key_read(service_id: u128, user_id: u128) -> KeyRead {
    KeyRead::UserId { service_id, user_id, is_enabled: true, is_revoked: false, key_type: KeyType::Token }
}

/// Root key authentication.
pub open spec fn root_auth_spec(keys: Seq<Key>, key_value: Option<String>) -> DriverResult<()> {
    match key_value {
        None => Err(DriverError::KeyUndefined),
        Some(v) => match key_lookup(keys, KeyRead::RootValue(v)) {
            None => Err(DriverError::KeyNotFound),
            Some(_) => Ok(()),
        },
    }
}

/// Service key authentication, without the secondary user credential.
pub open spec fn service_try_spec(
    keys: Seq<Key>,
    services: Seq<Service>,
    key_value: Option<String>,
) -> DriverResult<Service> {
    match key_value {
        None => Err(DriverError::KeyUndefined),
        Some(v) => match key_lookup(keys, KeyRead::ServiceValue(v)) {
            None => Err(DriverError::KeyNotFound),
            Some(k) => match k.service_id {
                None => Err(DriverError::KeyServiceUndefined),
                Some(sid) => match service_lookup(services, sid) {
                    None => Err(DriverError::ServiceNotFound),
                    Some(s) => if s.is_enabled {
                        Ok(s)
                    } else {
                        Err(DriverError::ServiceNotFound)
                    },
                },
            },
        },
    }
}

/// Two-phase decode of a user's token: the unverified subject locates the user and the
/// user's token key, which then verifies the token.
pub open spec fn user_token_spec(
    d: MemoryDriver,
    service: Service,
    token: Seq<char>,
    kind: TokenKind,
    now: u64,
) -> DriverResult<(User, Key)> {
    match peek_spec(token) {
        None => Err(DriverError::TokenInvalidOrExpired),
        Some(c) => if c.audience != service.id {
            Err(DriverError::TokenInvalidOrExpired)
        } else {
            match user_checked_spec(d.users(), UserRead::Id(c.subject)) {
                Err(e) => Err(e),
                Ok(u) => match key_checked_spec(d.keys(), token_key_read(service.id, u.id)) {
                    Err(e) => Err(e),
                    Ok(k) => if verify_spec(token, kind, service.id, u.id, k.value@, now) {
                        Ok((u, k))
                    } else {
                        Err(DriverError::TokenInvalidOrExpired)
                    },
                },
            }
        },
    }
}

/// The secondary user credential, checked in the context of the service.
pub open spec fn audit_user_spec(
    d: MemoryDriver,
    service: Service,
    user: Option<HeaderAuth>,
    now: u64,
) -> DriverResult<()> {
    match user {
        None => Ok(()),
        Some(HeaderAuth::Key(v)) => match key_checked_spec(
            d.keys(),
            KeyRead::UserValue {
                service_id: service.id,
                value: v,
                is_enabled: true,
                is_revoked: false,
                key_type: KeyType::Key,
            },
        ) {
            Err(e) => Err(e),
            Ok(k) => match user_checked_spec(d.users(), UserRead::Id(k.user_id.unwrap())) {
                Err(e) => Err(e),
                Ok(_) => Ok(()),
            },
        },
        Some(HeaderAuth::Token(t)) => match user_token_spec(
            d,
            service,
            t@,
            TokenKind::Access,
            now,
        ) {
            Err(e) => Err(e),
            Ok(_) => Ok(()),
        },
    }
}

/// Service key authentication with the secondary user credential.
pub open spec fn service_auth_spec(
    d: MemoryDriver,
    user: Option<HeaderAuth>,
    key_value: Option<String>,
    now: u64,
) -> DriverResult<Service> {
    match service_try_spec(d.keys(), d.services(), key_value) {
        Err(e) => Err(e),
        Ok(s) => match audit_user_spec(d, s, user, now) {
            Err(e) => Err(e),
            Ok(()) => Ok(s),
        },
    }
}

/// Service or root key authentication: a service, or `None` for root authority.
pub open spec fn key_auth_spec(
    d: MemoryDriver,
    user: Option<HeaderAuth>,
    key_value: Option<String>,
    now: u64,
) -> DriverResult<Option<Service>> {
    match service_auth_spec(d, user, key_value, now) {
        Ok(s) => Ok(Some(s)),
        Err(_) => match root_auth_spec(d.keys(), key_value) {
            Ok(()) => Ok(None),
            Err(e) => Err(e),
        },
    }
}

/// The identifier a lookup records, or the one recorded before where it found nothing.
pub open spec fn found_key_id(k: Option<Key>, before: Option<u128>) -> Option<u128> {
    match k {
        Some(k) => Some(k.id),
        None => before,
    }
}

pub open spec fn found_user_id(u: Option<User>, before: Option<u128>) -> Option<u128> {
    match u {
        Some(u) => Some(u.id),
        None => before,
    }
}

/// The user and user key that the two-phase decode of a token records.
pub open spec fn token_user_ids(
    d: MemoryDriver,
    service: Service,
    token: Seq<char>,
    user: Option<u128>,
    user_key: Option<u128>,
) -> (Option<u128>, Option<u128>) {
    match peek_spec(token) {
        Some(c) => if c.audience != service.id {
            (user, user_key)
        } else {
            (
                found_user_id(user_lookup(d.users(), UserRead::Id(c.subject)), user),
                match user_checked_spec(d.users(), UserRead::Id(c.subject)) {
                    Ok(u) => found_key_id(key_lookup(d.keys(), token_key_read(service.id, u.id)), user_key),
                    Err(_) => user_key,
                },
            )
        },
        None => (user, user_key),
    }
}

/// The user and user key that checking the secondary user credential records.
pub open spec fn audit_user_ids(
    d: MemoryDriver,
    service: Service,
    cred: Option<HeaderAuth>,
    user: Option<u128>,
    user_key: Option<u128>,
) -> (Option<u128>, Option<u128>) {
    match cred {
        None => (user, user_key),
        Some(HeaderAuth::Key(v)) => {
            let read = KeyRead::UserValue {
                service_id: service.id,
                value: v,
                is_enabled: true,
                is_revoked: false,
                key_type: KeyType::Key,
            };
            (
                match key_checked_spec(d.keys(), read) {
                    Ok(k) => found_user_id(user_lookup(d.users(), UserRead::Id(k.user_id.unwrap())), user),
                    Err(_) => user,
                },
                found_key_id(key_lookup(d.keys(), read), user_key),
            )
        },
        Some(HeaderAuth::Token(t)) => token_user_ids(d, service, t@, user, user_key),
    }
}

/// The key and service that resolving a service key records.
pub open spec fn service_key_ids(
    d: MemoryDriver,
    key_value: Option<String>,
    key: Option<u128>,
    service: Option<u128>,
) -> (Option<u128>, Option<u128>) {
    match key_value {
        None => (key, service),
        Some(v) => (
            found_key_id(key_lookup(d.keys(), KeyRead::ServiceValue(v)), key),
            match service_try_spec(d.keys(), d.services(), Some(v)) {
                Ok(s) => Some(s.id),
                Err(_) => service,
            },
        ),
    }
}

pub open spec fn opt_string(v: Option<&String>) -> Option<String> {
    match v {
        Some(s) => Some(*s),
        None => None,
    }
}

/// Authenticate root key.
pub fn key_root_authenticate(
    driver: &MemoryDriver,
    audit: &mut AuditBuilder,
    key_value: Option<&String>,
) -> (r: DriverResult<()>)
    ensures
        r == root_auth_spec(driver.keys(), opt_string(key_value)),
        final(audit).spec_meta() == old(audit).spec_meta(),
        final(audit).spec_service() == old(audit).spec_service(),
        final(audit).spec_user() == old(audit).spec_user(),
        final(audit).spec_user_key() == old(audit).spec_user_key(),
        final(audit).spec_key() == match opt_string(key_value) {
            Some(v) => found_key_id(key_lookup(driver.keys(), KeyRead::RootValue(v)), old(audit).spec_key()),
            None => old(audit).spec_key(),
        },
{
    match key_value {
        Some(key_value) => {
            let read = KeyRead::RootValue(key_value.clone());
            match driver.key_read(&read) {
                Some(key) => {
                    audit.set_key(Some(&key));
                    Ok(())
                },
                None => Err(DriverError::KeyNotFound),
            }
        },
        None => Err(DriverError::KeyUndefined),
    }
}

fn key_service_authenticate_inner(
    driver: &MemoryDriver,
    audit: &mut AuditBuilder,
    service_id: u128,
) -> (r: DriverResult<Service>)
    ensures
        r == match service_lookup(driver.services(), service_id) {
            None => Err(DriverError::ServiceNotFound),
            Some(s) => if s.is_enabled {
                Ok(s)
            } else {
                Err(DriverError::ServiceNotFound)
            },
        },
        final(audit).spec_meta() == old(audit).spec_meta(),
        final(audit).spec_key() == old(audit).spec_key(),
        final(audit).spec_user() == old(audit).spec_user(),
        final(audit).spec_user_key() == old(audit).spec_user_key(),
        final(audit).spec_service() == match r {
            Ok(s) => Some(s.id),
            Err(_) => old(audit).spec_service(),
        },
{
    let service = match driver.service_read(service_id) {
        Some(s) => s,
        None => return Err(DriverError::ServiceNotFound),
    };
    if !service.is_enabled {
        return Err(DriverError::ServiceNotFound);
    }
    audit.set_service(Some(&service));
    Ok(service)
}

fn key_service_authenticate_try(
    driver: &MemoryDriver,
    audit: &mut AuditBuilder,
    key_value: Option<&String>,
) -> (r: DriverResult<Service>)
    ensures
        r == service_try_spec(driver.keys(), driver.services(), opt_string(key_value)),
        final(audit).spec_meta() == old(audit).spec_meta(),
        final(audit).spec_user() == old(audit).spec_user(),
        final(audit).spec_user_key() == old(audit).spec_user_key(),
        (final(audit).spec_key(), final(audit).spec_service()) == service_key_ids(
            *driver,
            opt_string(key_value),
            old(audit).spec_key(),
            old(audit).spec_service(),
        ),
{
    match key_value {
        Some(key_value) => {
            let key = match driver.key_read(&KeyRead::ServiceValue(key_value.clone())) {
                Some(k) => k,
                None => return Err(DriverError::KeyNotFound),
            };
            audit.set_key(Some(&key));
            match key.service_id {
                Some(service_id) => key_service_authenticate_inner(driver, audit, service_id),
                None => Err(DriverError::KeyServiceUndefined),
            }
        },
        None => Err(DriverError::KeyUndefined),
    }
}

/// Read user by ID; the user must be enabled.
pub fn user_read_id_checked(
    driver: &MemoryDriver,
    _service_mask: Option<&Service>,
    audit: &mut AuditBuilder,
    id: u128,
) -> (r: DriverResult<User>)
    ensures
        r == user_checked_spec(driver.users(), UserRead::Id(id)),
        final(audit).spec_meta() == old(audit).spec_meta(),
        final(audit).spec_key() == old(audit).spec_key(),
        final(audit).spec_service() == old(audit).spec_service(),
        final(audit).spec_user_key() == old(audit).spec_user_key(),
        final(audit).spec_user() == match user_lookup(driver.users(), UserRead::Id(id)) {
            Some(u) => Some(u.id),
            None => old(audit).spec_user(),
        },
{
    let user = match driver.user_read(&UserRead::Id(id)) {
        Some(u) => u,
        None => return Err(DriverError::UserNotFound),
    };
    audit.set_user(Some(&user));
    if !user.is_enabled {
        return Err(DriverError::UserDisabled);
    }
    Ok(user)
}

/// Read user by ID without checking that it is enabled.
pub fn user_read_id_unchecked(
    driver: &MemoryDriver,
    _service_mask: Option<&Service>,
    audit: &mut AuditBuilder,
    id: u128,
) -> (r: DriverResult<User>)
    ensures
        r == user_unchecked_spec(driver.users(), UserRead::Id(id)),
        final(audit).spec_meta() == old(audit).spec_meta(),
        final(audit).spec_key() == old(audit).spec_key(),
        final(audit).spec_service() == old(audit).spec_service(),
        final(audit).spec_user_key() == old(audit).spec_user_key(),
        final(audit).spec_user() == match r {
            Ok(u) => Some(u.id),
            Err(_) => old(audit).spec_user(),
        },
{
    let user = match driver.user_read(&UserRead::Id(id)) {
        Some(u) => u,
        None => return Err(DriverError::UserNotFound),
    };
    audit.set_user(Some(&user));
    Ok(user)
}

/// Read user by email address; the user must be enabled.
pub fn user_read_email_checked(
    driver: &MemoryDriver,
    _service_mask: Option<&Service>,
    audit: &mut AuditBuilder,
    email: &String,
) -> (r: DriverResult<User>)
    ensures
        r == user_checked_spec(driver.users(), UserRead::Email(*email)),
        final(audit).spec_meta() == old(audit).spec_meta(),
        final(audit).spec_key() == old(audit).spec_key(),
        final(audit).spec_service() == old(audit).spec_service(),
        final(audit).spec_user_key() == old(audit).spec_user_key(),
        final(audit).spec_user() == match user_lookup(driver.users(), UserRead::Email(*email)) {
            Some(u) => Some(u.id),
            None => old(audit).spec_user(),
        },
{
    let user = match driver.user_read(&UserRead::Email(email.clone())) {
        Some(u) => u,
        None => return Err(DriverError::UserNotFound),
    };
    audit.set_user(Some(&user));
    if !user.is_enabled {
        return Err(DriverError::UserDisabled);
    }
    Ok(user)
}

/// Read the user's key of a type on the service; it must be enabled and not revoked.
pub fn key_read_user_checked(
    driver: &MemoryDriver,
    service: &Service,
    audit: &mut AuditBuilder,
    user: &User,
    key_type: KeyType,
) -> (r: DriverResult<Key>)
    ensures
        r == key_checked_spec(
            driver.keys(),
            KeyRead::UserId { service_id: service.id, user_id: user.id, is_enabled: true, is_revoked: false, key_type },
        ),
        final(audit).spec_meta() == old(audit).spec_meta(),
        final(audit).spec_key() == old(audit).spec_key(),
        final(audit).spec_service() == old(audit).spec_service(),
        final(audit).spec_user() == old(audit).spec_user(),
        final(audit).spec_user_key() == found_key_id(
            key_lookup(
                driver.keys(),
                KeyRead::UserId { service_id: service.id, user_id: user.id, is_enabled: true, is_revoked: false, key_type },
            ),
            old(audit).spec_user_key(),
        ),
{
    let key = match driver.key_read(&KeyRead::user_id(service.id, user.id, true, false, key_type)) {
        Some(k) => k,
        None => return Err(DriverError::KeyNotFound),
    };
    audit.set_user_key(Some(&key));
    if !key.is_enabled {
        Err(DriverError::KeyDisabled)
    } else if key.is_revoked {
        Err(DriverError::KeyRevoked)
    } else {
        Ok(key)
    }
}

/// Read the user's key of a type on the service without checking its flags.
pub fn key_read_user_unchecked(
    driver: &MemoryDriver,
    service: &Service,
    audit: &mut AuditBuilder,
    user: &User,
    key_type: KeyType,
) -> (r: DriverResult<Key>)
    ensures
        r == key_unchecked_spec(
            driver.keys(),
            KeyRead::UserId { service_id: service.id, user_id: user.id, is_enabled: true, is_revoked: false, key_type },
        ),
        final(audit).spec_meta() == old(audit).spec_meta(),
        final(audit).spec_key() == old(audit).spec_key(),
        final(audit).spec_service() == old(audit).spec_service(),
        final(audit).spec_user() == old(audit).spec_user(),
        final(audit).spec_user_key() == found_key_id(
            key_lookup(
                driver.keys(),
                KeyRead::UserId { service_id: service.id, user_id: user.id, is_enabled: true, is_revoked: false, key_type },
            ),
            old(audit).spec_user_key(),
        ),
{
    let key = match driver.key_read(&KeyRead::user_id(service.id, user.id, true, false, key_type)) {
        Some(k) => k,
        None => return Err(DriverError::KeyNotFound),
    };
    audit.set_user_key(Some(&key));
    Ok(key)
}

/// Read a user key by value on the service; it must be enabled and not revoked.
pub fn key_read_user_value_checked(
    driver: &MemoryDriver,
    service: &Service,
    audit: &mut AuditBuilder,
    key: &String,
    key_type: KeyType,
) -> (r: DriverResult<Key>)
    ensures
        r == key_checked_spec(
            driver.keys(),
            KeyRead::UserValue { service_id: service.id, value: *key, is_enabled: true, is_revoked: false, key_type },
        ),
        final(audit).spec_meta() == old(audit).spec_meta(),
        final(audit).spec_key() == old(audit).spec_key(),
        final(audit).spec_service() == old(audit).spec_service(),
        final(audit).spec_user() == old(audit).spec_user(),
        final(audit).spec_user_key() == found_key_id(
            key_lookup(
                driver.keys(),
                KeyRead::UserValue { service_id: service.id, value: *key, is_enabled: true, is_revoked: false, key_type },
            ),
            old(audit).spec_user_key(),
        ),
        r matches Ok(k) ==> k.user_id is Some && k.service_id == Some(service.id) && k.value@
            == key@ && k.is_enabled && !k.is_revoked && k.key_type == key_type,
{
    let read = KeyRead::UserValue {
        service_id: service.id,
        value: key.clone(),
        is_enabled: true,
        is_revoked: false,
        key_type,
    };
    let found = driver.key_read(&read);
    proof {
        lemma_key_lookup_matches(driver.keys(), read);
    }
    let k = match found {
        Some(k) => k,
        None => return Err(DriverError::KeyNotFound),
    };
    audit.set_user_key(Some(&k));
    if !k.is_enabled {
        Err(DriverError::KeyDisabled)
    } else if k.is_revoked {
        Err(DriverError::KeyRevoked)
    } else {
        Ok(k)
    }
}

/// Read a user key by value on the service without checking its flags.
pub fn key_read_user_value_unchecked(
    driver: &MemoryDriver,
    service: &Service,
    audit: &mut AuditBuilder,
    key: &String,
    key_type: KeyType,
) -> (r: DriverResult<Key>)
    ensures
        r == key_unchecked_spec(
            driver.keys(),
            KeyRead::UserValue { service_id: service.id, value: *key, is_enabled: true, is_revoked: false, key_type },
        ),
        final(audit).spec_meta() == old(audit).spec_meta(),
        final(audit).spec_key() == old(audit).spec_key(),
        final(audit).spec_service() == old(audit).spec_service(),
        final(audit).spec_user() == old(audit).spec_user(),
        final(audit).spec_user_key() == found_key_id(
            key_lookup(
                driver.keys(),
                KeyRead::UserValue { service_id: service.id, value: *key, is_enabled: true, is_revoked: false, key_type },
            ),
            old(audit).spec_user_key(),
        ),
{
    let read = KeyRead::UserValue {
        service_id: service.id,
        value: key.clone(),
        is_enabled: true,
        is_revoked: false,
        key_type,
    };
    let k = match driver.key_read(&read) {
        Some(k) => k,
        None => return Err(DriverError::KeyNotFound),
    };
    audit.set_user_key(Some(&k));
    Ok(k)
}

/// A key that a read finds matches it and is one of the keys.
pub proof fn lemma_key_lookup_matches(keys: Seq<Key>, read: KeyRead)
    ensures
        key_lookup(keys, read) matches Some(k) ==> crate::driver::key_matches(read, k)
            && keys.contains(k),
{
    if exists|i: int| crate::driver::key_first(keys, read, i) {
        let i = choose|i: int| crate::driver::key_first(keys, read, i);
        assert(keys[i] == keys[i]);
    }
}

/// A user read by identifier finds a user with that identifier.
pub proof fn lemma_user_lookup_id(users: Seq<User>, id: u128)
    ensures
        user_lookup(users, UserRead::Id(id)) matches Some(u) ==> u.id == id,
{
    if exists|i: int| crate::driver::user_first(users, UserRead::Id(id), i) {
        let i = choose|i: int| crate::driver::user_first(users, UserRead::Id(id), i);
        assert(users[i].id == id);
    }
}

/// With key values unique, no read that asks for an enabled, unrevoked key finds a value
/// whose key is disabled or revoked.
proof fn lemma_inactive_value_not_found(d: MemoryDriver, k: Key, read: KeyRead)
    requires
        d.wf(),
        d.keys().contains(k),
        !k.is_enabled || k.is_revoked,
        match read {
            KeyRead::RootValue(v) => v@ == k.value@,
            KeyRead::ServiceValue(v) => v@ == k.value@,
            KeyRead::UserValue { value, is_enabled, is_revoked, .. } => value@ == k.value@
                && is_enabled && !is_revoked,
            KeyRead::UserId { .. } => false,
        },
    ensures
        key_lookup(d.keys(), read) is None,
{
    lemma_key_lookup_matches(d.keys(), read);
    if key_lookup(d.keys(), read) is Some {
        let k2 = key_lookup(d.keys(), read).unwrap();
        let i = choose|i: int| 0 <= i < d.keys().len() && d.keys()[i] == k;
        let j = choose|j: int| 0 <= j < d.keys().len() && d.keys()[j] == k2;
        assert(k2.value@ == k.value@);
        if i != j {
            assert(d.keys()[i].value@ != d.keys()[j].value@);
        }
    }
}

/// A key that is disabled or revoked authenticates nothing: not as a service key, not as a
/// root key, and not as the user credential that comes with a request.
pub proof fn lemma_inactive_key_fails(
    d: MemoryDriver,
    k: Key,
    service: Service,
    user: Option<HeaderAuth>,
    now: u64,
)
    requires
        d.wf(),
        d.keys().contains(k),
        !k.is_enabled || k.is_revoked,
    ensures
        service_auth_spec(d, user, Some(k.value), now) is Err,
        root_auth_spec(d.keys(), Some(k.value)) is Err,
        key_auth_spec(d, user, Some(k.value), now) is Err,
        audit_user_spec(d, service, Some(HeaderAuth::Key(k.value)), now) is Err,
{
    lemma_inactive_value_not_found(d, k, KeyRead::ServiceValue(k.value));
    lemma_inactive_value_not_found(d, k, KeyRead::RootValue(k.value));
    lemma_inactive_value_not_found(
        d,
        k,
        KeyRead::UserValue {
            service_id: service.id,
            value: k.value,
            is_enabled: true,
            is_revoked: false,
            key_type: KeyType::Key,
        },
    );
}

/// A token verifies only under an active token key of its user on the service whose
/// signature of the payload matches. So once the key that signed it is disabled, revoked
/// or deleted, it no longer verifies, unless another active token key of that user signs
/// the payload identically.
pub proof fn lemma_token_needs_active_key(
    d: MemoryDriver,
    service: Service,
    c: TokenClaims,
    signing_value: Seq<char>,
    kind: TokenKind,
    now: u64,
)
    requires
        forall|k2: Key|
            #![trigger d.keys().contains(k2)]
            d.keys().contains(k2) && k2.is_enabled && !k2.is_revoked && k2.key_type
                == KeyType::Token && crate::driver::owned_by(k2, service.id, c.subject)
                ==> crate::token::hmac_sha1_of(k2.value@, crate::token::payload_spec(c))
                != crate::token::hmac_sha1_of(signing_value, crate::token::payload_spec(c)),
    ensures
        user_token_spec(d, service, crate::token::token_spec(c, signing_value), kind, now) is Err,
{
    let t = crate::token::token_spec(c, signing_value);
    crate::token::lemma_peek_encoded(c, signing_value);
    lemma_user_lookup_id(d.users(), c.subject);
    if c.audience == service.id {
        if let Ok(u) = user_checked_spec(d.users(), UserRead::Id(c.subject)) {
            let read = token_key_read(service.id, u.id);
            lemma_key_lookup_matches(d.keys(), read);
            if let Ok(k2) = key_checked_spec(d.keys(), read) {
                assert(d.keys().contains(k2));
                crate::token::lemma_other_key_rejected(
                    c,
                    signing_value,
                    k2.value@,
                    kind,
                    service.id,
                    u.id,
                    now,
                );
            }
        }
    }
}

/// A token presented as the user credential fails when its user has no active token key on
/// the service: once the key that signed it is disabled, revoked or deleted, and no other
/// is active, the request is refused.
pub proof fn lemma_token_fails_without_active_key(
    d: MemoryDriver,
    service: Service,
    c: TokenClaims,
    t: String,
    signing_value: Seq<char>,
    now: u64,
)
    requires
        t@ == crate::token::token_spec(c, signing_value),
        forall|k2: Key|
            #![trigger d.keys().contains(k2)]
            d.keys().contains(k2) ==> !(k2.is_enabled && !k2.is_revoked && k2.key_type
                == KeyType::Token && crate::driver::owned_by(k2, service.id, c.subject)),
    ensures
        user_token_spec(d, service, t@, TokenKind::Access, now) is Err,
        audit_user_spec(d, service, Some(HeaderAuth::Token(t)), now) is Err,
{
    crate::token::lemma_peek_encoded(c, signing_value);
    lemma_user_lookup_id(d.users(), c.subject);
    if let Ok(u) = user_checked_spec(d.users(), UserRead::Id(c.subject)) {
        lemma_key_lookup_matches(d.keys(), token_key_read(service.id, u.id));
    }
}

/// The user credential check with a token refuses it under the same condition as
/// `lemma_token_needs_active_key`.
pub proof fn lemma_token_credential_needs_active_key(
    d: MemoryDriver,
    service: Service,
    c: TokenClaims,
    t: String,
    signing_value: Seq<char>,
    now: u64,
)
    requires
        t@ == crate::token::token_spec(c, signing_value),
        forall|k2: Key|
            #![trigger d.keys().contains(k2)]
            d.keys().contains(k2) && k2.is_enabled && !k2.is_revoked && k2.key_type
                == KeyType::Token && crate::driver::owned_by(k2, service.id, c.subject)
                ==> crate::token::hmac_sha1_of(k2.value@, crate::token::payload_spec(c))
                != crate::token::hmac_sha1_of(signing_value, crate::token::payload_spec(c)),
    ensures
        audit_user_spec(d, service, Some(HeaderAuth::Token(t)), now) is Err,
{
    lemma_token_needs_active_key(d, service, c, signing_value, TokenKind::Access, now);
}

/// An unexpired access token for an enabled user, signed with the token key that the user's
/// lookup on the service finds, passes the user credential check, which records that user
/// and that key. A token addressed to another service fails it.
pub proof fn lemma_token_credential_accepted(
    d: MemoryDriver,
    service: Service,
    u: User,
    k: Key,
    c: TokenClaims,
    t: String,
    now: u64,
    user: Option<u128>,
    user_key: Option<u128>,
)
    requires
        user_lookup(d.users(), UserRead::Id(u.id)) == Some(u),
        u.is_enabled,
        key_lookup(d.keys(), token_key_read(service.id, u.id)) == Some(k),
        c.kind == TokenKind::Access,
        c.subject == u.id,
        now < c.expires_at,
        t@ == crate::token::token_spec(c, k.value@),
    ensures
        c.audience == service.id ==> audit_user_spec(d, service, Some(HeaderAuth::Token(t)), now)
            == Ok::<(), DriverError>(()) && audit_user_ids(
            d,
            service,
            Some(HeaderAuth::Token(t)),
            user,
            user_key,
        ) == (Some(u.id), Some(k.id)),
        c.audience != service.id ==> audit_user_spec(d, service, Some(HeaderAuth::Token(t)), now) is Err,
{
    crate::token::lemma_round_trip(c, k.value@, now);
    lemma_key_lookup_matches(d.keys(), token_key_read(service.id, u.id));
}

/// Two-phase decode of a user's token of `kind` on the service: the unverified subject
/// locates the user and that user's token key, whose value then verifies the token.
pub fn decode_user_token(
    driver: &MemoryDriver,
    service: &Service,
    audit: &mut AuditBuilder,
    token: &str,
    kind: TokenKind,
    now: u64,
) -> (r: DriverResult<(User, Key)>)
    ensures
        r == user_token_spec(*driver, *service, token@, kind, now),
        final(audit).spec_meta() == old(audit).spec_meta(),
        final(audit).spec_key() == old(audit).spec_key(),
        final(audit).spec_service() == old(audit).spec_service(),
        (final(audit).spec_user(), final(audit).spec_user_key()) == token_user_ids(
            *driver,
            *service,
            token@,
            old(audit).spec_user(),
            old(audit).spec_user_key(),
        ),
{
    let user_id = decode_unsafe(token, service.id)?;
    let user = user_read_id_checked(driver, Some(service), audit, user_id)?;
    let key = key_read_user_checked(driver, service, audit, &user, KeyType::Token)?;
    match decode(token, kind, service, &user, &key, now) {
        Ok(_) => Ok((user, key)),
        Err(e) => Err(e),
    }
}

fn check_audit_user(
    driver: &MemoryDriver,
    audit: &mut AuditBuilder,
    service: &Service,
    now: u64,
) -> (r: DriverResult<()>)
    ensures
        r == audit_user_spec(*driver, *service, old(audit).spec_meta().user, now),
        final(audit).spec_meta() == old(audit).spec_meta(),
        final(audit).spec_key() == old(audit).spec_key(),
        final(audit).spec_service() == old(audit).spec_service(),
        (final(audit).spec_user(), final(audit).spec_user_key()) == audit_user_ids(
            *driver,
            *service,
            old(audit).spec_meta().user,
            old(audit).spec_user(),
            old(audit).spec_user_key(),
        ),
{
    let user = match &audit.meta().user {
        Some(u) => Some(u.clone()),
        None => None,
    };
    match user {
        Some(HeaderAuth::Key(key_value)) => {
            let key = key_read_user_value_checked(
                driver,
                service,
                audit,
                &key_value,
                KeyType::Key,
            )?;
            let user_id = match key.user_id {
                Some(id) => id,
                None => return Err(DriverError::KeyNotFound),
            };
            user_read_id_checked(driver, Some(service), audit, user_id)?;
            Ok(())
        },
        Some(HeaderAuth::Token(token)) => {
            decode_user_token(driver, service, audit, token.as_str(), TokenKind::Access, now)?;
            Ok(())
        },
        None => Ok(()),
    }
}

/// Authenticate service key. If the request carries a user credential, it is verified in
/// the context of the service too.
pub fn key_service_authenticate(
    driver: &MemoryDriver,
    audit: &mut AuditBuilder,
    key_value: Option<&String>,
    now: u64,
) -> (r: DriverResult<Service>)
    ensures
        r == service_auth_spec(*driver, old(audit).spec_meta().user, opt_string(key_value), now),
        final(audit).spec_meta() == old(audit).spec_meta(),
        (final(audit).spec_key(), final(audit).spec_service()) == service_key_ids(
            *driver,
            opt_string(key_value),
            old(audit).spec_key(),
            old(audit).spec_service(),
        ),
        (final(audit).spec_user(), final(audit).spec_user_key()) == match service_try_spec(
            driver.keys(),
            driver.services(),
            opt_string(key_value),
        ) {
            Ok(s) => audit_user_ids(
                *driver,
                s,
                old(audit).spec_meta().user,
                old(audit).spec_user(),
                old(audit).spec_user_key(),
            ),
            Err(_) => (old(audit).spec_user(), old(audit).spec_user_key()),
        },
{
    let service = key_service_authenticate_try(driver, audit, key_value)?;
    check_audit_user(driver, audit, &service, now)?;
    Ok(service)
}

/// Authenticate service or root key: the service, or `None` for a root key.
pub fn key_authenticate(
    driver: &MemoryDriver,
    audit: &mut AuditBuilder,
    key_value: Option<&String>,
    now: u64,
) -> (r: DriverResult<Option<Service>>)
    ensures
        r == key_auth_spec(*driver, old(audit).spec_meta().user, opt_string(key_value), now),
        final(audit).spec_meta() == old(audit).spec_meta(),
{
    match key_service_authenticate(driver, audit, key_value, now) {
        Ok(service) => Ok(Some(service)),
        Err(_) => match key_root_authenticate(driver, audit, key_value) {
            Ok(()) => Ok(None),
            Err(e) => Err(e),
        },
    }
}

} // verus!
