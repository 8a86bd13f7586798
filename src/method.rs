use crate::audit::{Audit, AuditBuilder, AuditData, AuditMeta};
use crate::auth::{
    decode_user_token, key_checked_spec, key_read_user_checked, key_read_user_unchecked,
    key_service_authenticate, opt_string, service_auth_spec, token_key_read,
    user_checked_spec, user_read_email_checked, user_read_id_unchecked, user_token_spec,
    user_unchecked_spec,
};
use crate::driver::{key_lookup, owned_by, user_lookup, KeyCreate, KeyRead, KeyUpdate, MemoryDriver};
use crate::error::{DriverError, DriverResult, MethodError, MethodResult};
use crate::header::HeaderAuth;
use crate::model::{Key, KeyType, Service, User};
use crate::password::{opt_view, password_check_spec, password_hashable};
use crate::token::{
    decode, decode_unsafe, encode_token, peek_spec, saturating_add, token_spec, verify_spec,
    TokenClaims, TokenKind,
};
use crate::user::{UserCreate, UserRead, UserToken, UserUpdate};
use vstd::prelude::*;

verus! {

/// Which email a template is for.
#[derive(Debug, Clone, Copy, PartialEq, Eq, Structural)]
pub enum TemplateKind {
    Register,
    RegisterConfirm,
    ResetPassword,
    ResetPasswordConfirm,
    UpdateEmail,
    UpdatePassword,
}

/// Everything an email needs, handed to the sender.
#[derive(Debug)]
pub struct TemplateEmail {
    pub kind: TemplateKind,
    pub service: Service,
    pub user: User,
    pub token: String,
    pub old_email: Option<String>,
    pub meta: AuditMeta,
}

/// The claims of a token of `kind` issued at `now` for `expires_in` seconds.
pub open spec fn claims_spec(kind: TokenKind, s: Service, u: User, now: u64, expires_in: u64) -> TokenClaims {
    TokenClaims {
        kind,
        subject: u.id,
        audience: s.id,
        issued_at: now,
        expires_at: saturating_add(now, expires_in),
    }
}

/// A token of `kind` for the user on the service, signed with the key.
pub open spec fn issued(t: Seq<char>, kind: TokenKind, s: Service, u: User, k: Key, now: u64, expires_in: u64) -> bool {
    t == token_spec(claims_spec(kind, s, u, now, expires_in), k.value@)
}

/// The access and refresh pair of a user token.
pub open spec fn issued_pair(
    t: UserToken,
    s: Service,
    u: User,
    k: Key,
    now: u64,
    access: u64,
    refresh: u64,
) -> bool {
    &&& t.user == u
    &&& t.access_token_expires == saturating_add(now, access)
    &&& t.refresh_token_expires == saturating_add(now, refresh)
    &&& issued(t.access_token@, TokenKind::Access, s, u, k, now, access)
    &&& issued(t.refresh_token@, TokenKind::Refresh, s, u, k, now, refresh)
}

/// The service, the enabled user with the email, and that user's token key.
pub open spec fn email_principals_spec(
    d: MemoryDriver,
    user: Option<HeaderAuth>,
    auth: Option<String>,
    email: String,
    now: u64,
) -> Result<(Service, User, Key), MethodError> {
    match service_auth_spec(d, user, auth, now) {
        Err(e) => Err(MethodError::Unauthorised(e)),
        Ok(s) => match user_checked_spec(d.users(), UserRead::Email(email)) {
            Err(e) => Err(MethodError::BadRequest(e)),
            Ok(u) => match key_checked_spec(d.keys(), token_key_read(s.id, u.id)) {
                Err(e) => Err(MethodError::BadRequest(e)),
                Ok(k) => Ok((s, u, k)),
            },
        },
    }
}

/// The principals of a password login, once the password has been checked.
pub open spec fn login_spec(
    d: MemoryDriver,
    user: Option<HeaderAuth>,
    auth: Option<String>,
    email: String,
    password: Seq<char>,
    now: u64,
) -> Result<(Service, User, Key), MethodError> {
    match email_principals_spec(d, user, auth, email, now) {
        Err(e) => Err(e),
        Ok((s, u, k)) => if u.password_require_update {
            Err(MethodError::Forbidden(DriverError::UserPasswordUpdateRequired))
        } else {
            match password_check_spec(opt_view(u.password_hash), password) {
                Err(e) => Err(MethodError::BadRequest(e)),
                Ok(_) => Ok((s, u, k)),
            }
        },
    }
}

/// The principals of a revoke token, read without checking that user or key are active.
pub open spec fn revoke_spec(
    d: MemoryDriver,
    user: Option<HeaderAuth>,
    auth: Option<String>,
    token: Seq<char>,
    now: u64,
) -> Result<(Service, User, Key), MethodError> {
    match service_auth_spec(d, user, auth, now) {
        Err(e) => Err(MethodError::Unauthorised(e)),
        Ok(s) => match peek_spec(token) {
            None => Err(MethodError::BadRequest(DriverError::TokenInvalidOrExpired)),
            Some(c) => if c.audience != s.id {
                Err(MethodError::BadRequest(DriverError::TokenInvalidOrExpired))
            } else {
                match user_unchecked_spec(d.users(), UserRead::Id(c.subject)) {
                    Err(e) => Err(MethodError::BadRequest(e)),
                    Ok(u) => match crate::auth::key_unchecked_spec(
                        d.keys(),
                        token_key_read(s.id, u.id),
                    ) {
                        Err(e) => Err(MethodError::BadRequest(e)),
                        Ok(k) => if verify_spec(token, TokenKind::Revoke, s.id, u.id, k.value@, now) {
                            Ok((s, u, k))
                        } else {
                            Err(MethodError::BadRequest(DriverError::TokenInvalidOrExpired))
                        },
                    },
                }
            },
        },
    }
}

/// Issues the access and refresh pair for a user.
pub fn encode_user(
    service: &Service,
    user: User,
    key: &Key,
    now: u64,
    access_token_expires: u64,
    refresh_token_expires: u64,
) -> (r: UserToken)
    ensures
        issued_pair(r, *service, user, *key, now, access_token_expires, refresh_token_expires),
{
    let (access_token, access_token_expires_at) = encode_token(
        TokenKind::Access,
        service,
        &user,
        key,
        now,
        access_token_expires,
    );
    let (refresh_token, refresh_token_expires_at) = encode_token(
        TokenKind::Refresh,
        service,
        &user,
        key,
        now,
        refresh_token_expires,
    );
    UserToken {
        user,
        access_token,
        access_token_expires: access_token_expires_at,
        refresh_token,
        refresh_token_expires: refresh_token_expires_at,
    }
}

fn email_principals(
    driver: &MemoryDriver,
    audit: &mut AuditBuilder,
    auth: Option<&String>,
    email: &String,
    now: u64,
) -> (r: Result<(Service, User, Key), MethodError>)
    ensures
        r == email_principals_spec(*driver, old(audit).spec_meta().user, opt_string(auth), *email, now),
        final(audit).spec_meta() == old(audit).spec_meta(),
{
    let service = match key_service_authenticate(driver, audit, auth, now) {
        Ok(s) => s,
        Err(e) => return Err(MethodError::Unauthorised(e)),
    };
    let user = match user_read_email_checked(driver, Some(&service), audit, email) {
        Ok(u) => u,
        Err(e) => return Err(MethodError::BadRequest(e)),
    };
    let key = match key_read_user_checked(driver, &service, audit, &user, KeyType::Token) {
        Ok(k) => k,
        Err(e) => return Err(MethodError::BadRequest(e)),
    };
    Ok((service, user, key))
}

/// Password login: the access and refresh pair of the user with the email.
pub fn login(
    driver: &MemoryDriver,
    audit: &mut AuditBuilder,
    auth: Option<&String>,
    email: &String,
    password: &str,
    now: u64,
    access_token_expires: u64,
    refresh_token_expires: u64,
) -> (r: MethodResult<UserToken>)
    requires
        driver.wf(),
    ensures
        match login_spec(*driver, old(audit).spec_meta().user, opt_string(auth), *email, password@, now) {
            Err(e) => r == Err::<UserToken, MethodError>(e),
            Ok((s, u, k)) => r matches Ok(t) && issued_pair(
                t,
                s,
                u,
                k,
                now,
                access_token_expires,
                refresh_token_expires,
            ),
        },
        final(audit).spec_meta() == old(audit).spec_meta(),
{
    let (service, user, key) = email_principals(driver, audit, auth, email, now)?;
    proof {
        crate::driver::lemma_lookup_hash_produced(driver.users(), UserRead::Email(*email));
    }
    if user.password_require_update {
        return Err(MethodError::Forbidden(DriverError::UserPasswordUpdateRequired));
    }
    match user.password_check(password) {
        Ok(_) => {},
        Err(e) => return Err(MethodError::BadRequest(e)),
    }
    Ok(encode_user(&service, user, &key, now, access_token_expires, refresh_token_expires))
}

/// The email that a password reset request sends, where the request is honoured: the
/// user with the email is enabled, has an active token key and allows resets.
pub fn reset_password_template(
    driver: &MemoryDriver,
    audit: &mut AuditBuilder,
    auth: Option<&String>,
    email: &String,
    now: u64,
    access_token_expires: u64,
) -> (r: Option<TemplateEmail>)
    ensures
        match email_principals_spec(*driver, old(audit).spec_meta().user, opt_string(auth), *email, now) {
            Ok((s, u, k)) => if u.password_allow_reset {
                r matches Some(t) && t.kind == TemplateKind::ResetPassword && t.service == s
                    && t.user == u && t.old_email is None && t.meta == old(audit).spec_meta()
                    && issued(t.token@, TokenKind::ResetPassword, s, u, k, now, access_token_expires)
            } else {
                r is None
            },
            Err(_) => r is None,
        },
        final(audit).spec_meta() == old(audit).spec_meta(),
{
    let (service, user, key) = match email_principals(driver, audit, auth, email, now) {
        Ok(p) => p,
        Err(_) => return None,
    };
    if !user.password_allow_reset {
        return None;
    }
    let (token, _) = encode_token(
        TokenKind::ResetPassword,
        &service,
        &user,
        &key,
        now,
        access_token_expires,
    );
    let meta = audit.meta().clone();
    Some(
        TemplateEmail {
            kind: TemplateKind::ResetPassword,
            service,
            user,
            token,
            old_email: None,
            meta,
        },
    )
}

/// Request for a password reset. The reply is the same whether or not the email belongs to
/// anyone, and whether or not the email could be sent: the template, where there is one,
/// goes to `send`, whose outcome is not reported.
pub fn reset_password<F: Fn(&TemplateEmail) -> Result<(), String>>(
    driver: &MemoryDriver,
    audit: &mut AuditBuilder,
    auth: Option<&String>,
    email: &String,
    now: u64,
    access_token_expires: u64,
    send: F,
) -> (r: MethodResult<()>)
    requires
        forall|t: &TemplateEmail| send.requires((t,)),
    ensures
        r == Ok::<(), MethodError>(()),
        final(audit).spec_meta() == old(audit).spec_meta(),
        match email_principals_spec(*driver, old(audit).spec_meta().user, opt_string(auth), *email, now) {
            Ok((s, u, k)) => u.password_allow_reset ==> exists|t: TemplateEmail, res: Result<(), String>|
                #![trigger send.ensures((&t,), res)]
                t.kind == TemplateKind::ResetPassword && t.service == s && t.user == u
                    && t.old_email is None && t.meta == old(audit).spec_meta() && issued(
                    t.token@,
                    TokenKind::ResetPassword,
                    s,
                    u,
                    k,
                    now,
                    access_token_expires,
                ) && send.ensures((&t,), res),
            Err(_) => true,
        },
{
    match reset_password_template(driver, audit, auth, email, now, access_token_expires) {
        Some(t) => {
            let res = send(&t);
            assert(send.ensures((&t,), res));
        },
        None => {},
    }
    Ok(())
}

/// Consumes a revoke token: disables the user, and disables and revokes every key the user
/// holds on the service. Where the request names an audit path, writes an audit record
/// under it with the principals involved and returns it.
pub fn revoke(
    driver: &mut MemoryDriver,
    audit: &mut AuditBuilder,
    auth: Option<&String>,
    token: &str,
    custom_audit: Option<&str>,
    now: u64,
) -> (r: MethodResult<Option<Audit>>)
    requires
        old(driver).wf(),
    ensures
        final(driver).wf(),
        final(audit).spec_meta() == old(audit).spec_meta(),
        final(driver).services() == old(driver).services(),
        final(driver).csrfs() == old(driver).csrfs(),
        match revoke_spec(*old(driver), old(audit).spec_meta().user, opt_string(auth), token@, now) {
            Err(e) => r == Err::<Option<Audit>, MethodError>(e) && final(driver).users() == old(driver).users()
                && final(driver).keys() == old(driver).keys() && final(driver).audits() == old(driver).audits(),
            Ok((s, u, _)) => revoke_audit(r, custom_audit, *old(driver), *final(driver), *final(audit), now) && user_lookup(final(driver).users(), UserRead::Id(u.id))
                == Some(User { is_enabled: false, ..u }) && final(driver).keys().len() == old(driver).keys().len() && forall|i: int|
                0 <= i < old(driver).keys().len() ==> #[trigger] final(driver).keys()[i] == if owned_by(
                    old(driver).keys()[i],
                    s.id,
                    u.id,
                ) {
                    Key { is_enabled: false, is_revoked: true, ..old(driver).keys()[i] }
                } else {
                    old(driver).keys()[i]
                },
        },
{
    let service = match key_service_authenticate(driver, audit, auth, now) {
        Ok(s) => s,
        Err(e) => return Err(MethodError::Unauthorised(e)),
    };
    let user_id = match decode_unsafe(token, service.id) {
        Ok(id) => id,
        Err(e) => return Err(MethodError::BadRequest(e)),
    };
    let user = match user_read_id_unchecked(driver, Some(&service), audit, user_id) {
        Ok(u) => u,
        Err(e) => return Err(MethodError::BadRequest(e)),
    };
    let key = match key_read_user_unchecked(driver, &service, audit, &user, KeyType::Token) {
        Ok(k) => k,
        Err(e) => return Err(MethodError::BadRequest(e)),
    };
    match decode(token, TokenKind::Revoke, &service, &user, &key, now) {
        Ok(_) => {},
        Err(e) => return Err(MethodError::BadRequest(e)),
    }
    proof {
        crate::auth::lemma_user_lookup_id(driver.users(), user_id);
    }
    let update = UserUpdate::new_id(user.id).set_is_enabled(false);
    let ghost users0 = driver.users();
    match driver.user_update(&update) {
        Ok(nu) => {
            proof {
                let i = choose|i: int|
                    crate::driver::user_first(users0, UserRead::Id(update.id), i) && nu
                        == crate::driver::user_apply(users0[i], update) && driver.users()
                        == users0.update(i, nu);
                crate::driver::lemma_user_lookup_first(users0, UserRead::Id(update.id), i);
                crate::driver::lemma_user_lookup_after_update(users0, user.id, i, nu);
                assert(nu == User { is_enabled: false, ..user });
            }
        },
        Err(e) => return Err(MethodError::BadRequest(e)),
    }
    let key_update = KeyUpdate { is_enabled: Some(false), is_revoked: Some(true), name: None };
    driver.key_update_many(service.id, user.id, &key_update);
    match custom_audit {
        Some(path) => match audit.create_path(driver, path, now) {
            Ok(a) => Ok(Some(a)),
            Err(e) => Err(MethodError::BadRequest(e)),
        },
        None => Ok(None),
    }
}

/// The outcome of a revoke whose token was accepted: with no audit path, nothing more; with
/// one, the record written under it, unless the store has run out of identifiers.
pub open spec fn revoke_audit(
    r: MethodResult<Option<Audit>>,
    custom_audit: Option<&str>,
    before: MemoryDriver,
    after: MemoryDriver,
    audit: AuditBuilder,
    now: u64,
) -> bool {
    match custom_audit {
        None => r == Ok::<Option<Audit>, MethodError>(None) && after.audits() == before.audits(),
        Some(p) => if before.next_id() == u128::MAX {
            r == Err::<Option<Audit>, MethodError>(MethodError::BadRequest(DriverError::Unavailable))
                && after.audits() == before.audits()
        } else {
            r matches Ok(Some(a)) && a.path@ == p@ && a.data == AuditData::Empty && a.created_at
                == now && a.key_id == audit.spec_key() && a.service_id == audit.spec_service()
                && a.user_id == audit.spec_user() && a.user_key_id == audit.spec_user_key()
                && after.audits().len() == before.audits().len() + 1 && after.audits().drop_last()
                == before.audits() && after.audits().last().same(&a)
        },
    }
}

/// The service, if it allows users to register.
pub open spec fn register_service_spec(
    d: MemoryDriver,
    user: Option<HeaderAuth>,
    auth: Option<String>,
    now: u64,
) -> Result<Service, MethodError> {
    match service_auth_spec(d, user, auth, now) {
        Err(e) => Err(MethodError::Unauthorised(e)),
        Ok(s) => if !s.user_allow_register {
            Err(MethodError::BadRequest(DriverError::ServiceUserRegisterDisabled))
        } else {
            Ok(s)
        },
    }
}

/// The principals of a register confirmation token.
pub open spec fn register_confirm_spec(
    d: MemoryDriver,
    user: Option<HeaderAuth>,
    auth: Option<String>,
    token: Seq<char>,
    now: u64,
) -> Result<(Service, User, Key), MethodError> {
    match register_service_spec(d, user, auth, now) {
        Err(e) => Err(e),
        Ok(s) => match user_token_spec(d, s, token, TokenKind::Register, now) {
            Err(e) => Err(MethodError::BadRequest(e)),
            Ok((u, k)) => Ok((s, u, k)),
        },
    }
}

/// The principals of a reset password token; the user must allow resets, which is checked
/// before the signature.
pub open spec fn reset_confirm_spec(
    d: MemoryDriver,
    user: Option<HeaderAuth>,
    auth: Option<String>,
    token: Seq<char>,
    now: u64,
) -> Result<(Service, User, Key), MethodError> {
    match service_auth_spec(d, user, auth, now) {
        Err(e) => Err(MethodError::Unauthorised(e)),
        Ok(s) => match peek_spec(token) {
            None => Err(MethodError::BadRequest(DriverError::TokenInvalidOrExpired)),
            Some(c) => if c.audience != s.id {
                Err(MethodError::BadRequest(DriverError::TokenInvalidOrExpired))
            } else {
                match user_checked_spec(d.users(), UserRead::Id(c.subject)) {
                    Err(e) => Err(MethodError::BadRequest(e)),
                    Ok(u) => match key_checked_spec(d.keys(), token_key_read(s.id, u.id)) {
                        Err(e) => Err(MethodError::BadRequest(e)),
                        Ok(k) => if !u.password_allow_reset {
                            Err(MethodError::BadRequest(DriverError::UserResetPasswordDisabled))
                        } else if verify_spec(token, TokenKind::ResetPassword, s.id, u.id, k.value@, now) {
                            Ok((s, u, k))
                        } else {
                            Err(MethodError::BadRequest(DriverError::TokenInvalidOrExpired))
                        },
                    },
                }
            },
        },
    }
}

/// The principals of a password change: the current password must match.
pub open spec fn update_password_spec(
    d: MemoryDriver,
    user: Option<HeaderAuth>,
    auth: Option<String>,
    email: String,
    password: Seq<char>,
    now: u64,
) -> Result<(Service, User, Key), MethodError> {
    match email_principals_spec(d, user, auth, email, now) {
        Err(e) => Err(e),
        Ok((s, u, k)) => match password_check_spec(opt_view(u.password_hash), password) {
            Err(e) => Err(MethodError::BadRequest(e)),
            Ok(_) => Ok((s, u, k)),
        },
    }
}

/// The user with a new hash of `password`, which verifies it: updates no longer required,
/// reset flag as given.
pub open spec fn password_set(u: User, nu: User, allow_reset: Option<bool>, password: Seq<char>) -> bool {
    nu == User {
        password_require_update: false,
        password_hash: nu.password_hash,
        password_allow_reset: match allow_reset {
            Some(a) => a,
            None => u.password_allow_reset,
        },
        ..u
    } && nu.password_hash is Some && password_check_spec(opt_view(nu.password_hash), password)
        == Ok::<bool, DriverError>(false)
}

/// A template of `kind` for the user on the service, carrying a token.
pub open spec fn template_for(
    t: TemplateEmail,
    kind: TemplateKind,
    s: Service,
    u: User,
    meta: AuditMeta,
) -> bool {
    t.kind == kind && t.service == s && t.user == u && t.meta == meta
}

fn apply_user_update(driver: &mut MemoryDriver, update: &UserUpdate, Ghost(u): Ghost<User>) -> (r:
    DriverResult<User>)
    requires
        old(driver).wf(),
        crate::password::produced_or_none(update.password_hash),
        user_lookup(old(driver).users(), UserRead::Id(update.id)) == Some(u),
    ensures
        final(driver).wf(),
        final(driver).services() == old(driver).services(),
        final(driver).keys() == old(driver).keys(),
        final(driver).csrfs() == old(driver).csrfs(),
        final(driver).audits() == old(driver).audits(),
        match r {
            Ok(nu) => nu == crate::driver::user_apply(u, *update) && user_lookup(
                final(driver).users(),
                UserRead::Id(update.id),
            ) == Some(nu) && final(driver).users().contains(nu),
            Err(e) => e == DriverError::UserEmailConstraint && update.email is Some && final(driver).users() == old(driver).users(),
        },
        r is Err <==> (update.email matches Some(e) && exists|j: int|
            0 <= j < old(driver).users().len() && old(driver).users()[j].id != update.id
                && (#[trigger] old(driver).users()[j]).email@ == e@),
{
    let ghost users0 = driver.users();
    let r = driver.user_update(update);
    proof {
        let read = UserRead::Id(update.id);
        let i = choose|i: int| crate::driver::user_first(users0, read, i);
        assert(crate::driver::user_first(users0, read, i));
        assert forall|j: int| 0 <= j < users0.len() implies (j != i <==> users0[j].id != update.id) by {
            if j != i {
                assert(users0[j].id != users0[i].id);
            }
        }
        assert forall|k: int| crate::driver::user_first(users0, read, k) implies k == i by {
            if k < i {
                assert(!crate::driver::user_matches(read, users0[k]));
            }
            if i < k {
                assert(!crate::driver::user_matches(read, users0[i]));
            }
        }
        if r is Ok {
            let nu = r.unwrap();
            let i = choose|i: int|
                crate::driver::user_first(users0, UserRead::Id(update.id), i) && nu
                    == crate::driver::user_apply(users0[i], *update) && driver.users()
                    == users0.update(i, nu);
            crate::driver::lemma_user_lookup_first(users0, UserRead::Id(update.id), i);
            crate::driver::lemma_user_lookup_after_update(users0, update.id, i, nu);
            assert(driver.users()[i] == nu);
        }
    }
    r
}

/// Stores a new password hash for the user, with the reset flag if given.
fn set_password(
    driver: &mut MemoryDriver,
    user: &User,
    password: &str,
    allow_reset: Option<bool>,
) -> (r: Result<User, MethodError>)
    requires
        old(driver).wf(),
        user_lookup(old(driver).users(), UserRead::Id(user.id)) == Some(*user),
    ensures
        final(driver).wf(),
        final(driver).services() == old(driver).services(),
        final(driver).keys() == old(driver).keys(),
        final(driver).csrfs() == old(driver).csrfs(),
        final(driver).audits() == old(driver).audits(),
        match r {
            Ok(nu) => password_set(*user, nu, allow_reset, password@) && user_lookup(
                final(driver).users(),
                UserRead::Id(user.id),
            ) == Some(nu),
            Err(e) => e == MethodError::BadRequest(DriverError::PasswordHash) && final(driver).users() == old(driver).users(),
        },
        r is Ok <==> password_hashable(password@),
{
    let mut update = match UserUpdate::new_password(user.id, password) {
        Ok(u) => u,
        Err(e) => return Err(MethodError::BadRequest(e)),
    };
    match allow_reset {
        Some(a) => {
            update = update.set_password_allow_reset(a);
        },
        None => {},
    }
    match apply_user_update(driver, &update, Ghost(*user)) {
        Ok(nu) => Ok(nu),
        Err(e) => Err(MethodError::BadRequest(e)),
    }
}

/// Confirms a registration: checks the register token, optionally sets the password, and
/// returns the confirmation template with a revoke token.
pub fn register_confirm(
    driver: &mut MemoryDriver,
    audit: &mut AuditBuilder,
    auth: Option<&String>,
    token: &str,
    password: Option<&str>,
    password_allow_reset: Option<bool>,
    now: u64,
    revoke_token_expires: u64,
) -> (r: MethodResult<TemplateEmail>)
    requires
        old(driver).wf(),
    ensures
        final(driver).wf(),
        final(driver).keys() == old(driver).keys(),
        final(audit).spec_meta() == old(audit).spec_meta(),
        match register_confirm_spec(*old(driver), old(audit).spec_meta().user, opt_string(auth), token@, now) {
            Err(e) => r == Err::<TemplateEmail, MethodError>(e) && final(driver).users() == old(driver).users(),
            Ok((s, u, k)) => match r {
                Ok(t) => template_for(t, TemplateKind::RegisterConfirm, s, u, old(audit).spec_meta())
                    && issued(t.token@, TokenKind::Revoke, s, u, k, now, revoke_token_expires)
                    && match password {
                    None => final(driver).users() == old(driver).users(),
                    Some(p) => user_lookup(final(driver).users(), UserRead::Id(u.id)) matches Some(
                        nu,
                    ) && password_set(u, nu, password_allow_reset, p@),
                },
                Err(e) => (password matches Some(p) && !password_hashable(p@)) && e
                    == MethodError::BadRequest(DriverError::PasswordHash) && final(driver).users()
                    == old(driver).users(),
            },
        },
{
    let service = match key_service_authenticate(driver, audit, auth, now) {
        Ok(s) => s,
        Err(e) => return Err(MethodError::Unauthorised(e)),
    };
    if !service.user_allow_register {
        return Err(MethodError::BadRequest(DriverError::ServiceUserRegisterDisabled));
    }
    let (user, key) = match decode_user_token(driver, &service, audit, token, TokenKind::Register, now) {
        Ok(p) => p,
        Err(e) => return Err(MethodError::BadRequest(e)),
    };
    let (revoke_token, _) = encode_token(TokenKind::Revoke, &service, &user, &key, now, revoke_token_expires);
    match password {
        Some(p) => {
            proof {
                crate::auth::lemma_user_lookup_id(driver.users(), user.id);
                lemma_checked_user_found(*driver, UserRead::Id(peek_spec(token@).unwrap().subject), user);
            }
            set_password(driver, &user, p, password_allow_reset)?;
        },
        None => {},
    }
    let meta = audit.meta().clone();
    Ok(
        TemplateEmail {
            kind: TemplateKind::RegisterConfirm,
            service,
            user,
            token: revoke_token,
            old_email: None,
            meta,
        },
    )
}

/// A user that a read returned is what a read by its identifier finds.
proof fn lemma_checked_user_found(d: MemoryDriver, read: UserRead, u: User)
    requires
        d.wf(),
        user_lookup(d.users(), read) == Some(u),
    ensures
        user_lookup(d.users(), UserRead::Id(u.id)) == Some(u),
{
    let i = choose|i: int| crate::driver::user_first(d.users(), read, i);
    crate::driver::lemma_user_lookup_id_unique(d.users(), d.next_id(), i);
}

/// Confirms a password reset: checks the reset token, stores the new password, and
/// returns the confirmation template with a revoke token.
pub fn reset_password_confirm(
    driver: &mut MemoryDriver,
    audit: &mut AuditBuilder,
    auth: Option<&String>,
    token: &str,
    password: &str,
    now: u64,
    revoke_token_expires: u64,
) -> (r: MethodResult<TemplateEmail>)
    requires
        old(driver).wf(),
    ensures
        final(driver).wf(),
        final(driver).keys() == old(driver).keys(),
        final(audit).spec_meta() == old(audit).spec_meta(),
        match reset_confirm_spec(*old(driver), old(audit).spec_meta().user, opt_string(auth), token@, now) {
            Err(e) => r == Err::<TemplateEmail, MethodError>(e) && final(driver).users() == old(driver).users(),
            Ok((s, u, k)) => match r {
                Ok(t) => template_for(t, TemplateKind::ResetPasswordConfirm, s, u, old(audit).spec_meta())
                    && issued(t.token@, TokenKind::Revoke, s, u, k, now, revoke_token_expires)
                    && (user_lookup(final(driver).users(), UserRead::Id(u.id)) matches Some(nu)
                    && password_set(u, nu, None, password@)),
                Err(e) => e == MethodError::BadRequest(DriverError::PasswordHash) && !password_hashable(password@)
                    && final(driver).users() == old(driver).users(),
            },
        },
{
    let service = match key_service_authenticate(driver, audit, auth, now) {
        Ok(s) => s,
        Err(e) => return Err(MethodError::Unauthorised(e)),
    };
    let user_id = match decode_unsafe(token, service.id) {
        Ok(id) => id,
        Err(e) => return Err(MethodError::BadRequest(e)),
    };
    let user = match crate::auth::user_read_id_checked(driver, Some(&service), audit, user_id) {
        Ok(u) => u,
        Err(e) => return Err(MethodError::BadRequest(e)),
    };
    let key = match key_read_user_checked(driver, &service, audit, &user, KeyType::Token) {
        Ok(k) => k,
        Err(e) => return Err(MethodError::BadRequest(e)),
    };
    if !user.password_allow_reset {
        return Err(MethodError::BadRequest(DriverError::UserResetPasswordDisabled));
    }
    match decode(token, TokenKind::ResetPassword, &service, &user, &key, now) {
        Ok(_) => {},
        Err(e) => return Err(MethodError::BadRequest(e)),
    }
    let (revoke_token, _) = encode_token(TokenKind::Revoke, &service, &user, &key, now, revoke_token_expires);
    proof {
        crate::auth::lemma_user_lookup_id(driver.users(), user_id);
        lemma_checked_user_found(*driver, UserRead::Id(user_id), user);
    }
    set_password(driver, &user, password, None)?;
    let meta = audit.meta().clone();
    Ok(
        TemplateEmail {
            kind: TemplateKind::ResetPasswordConfirm,
            service,
            user,
            token: revoke_token,
            old_email: None,
            meta,
        },
    )
}

/// Changes a user's email after checking the password; returns the template for the old
/// address with a revoke token.
pub fn update_email(
    driver: &mut MemoryDriver,
    audit: &mut AuditBuilder,
    auth: Option<&String>,
    email: &String,
    password: &str,
    new_email: &str,
    now: u64,
    revoke_token_expires: u64,
) -> (r: MethodResult<TemplateEmail>)
    requires
        old(driver).wf(),
    ensures
        final(driver).wf(),
        final(driver).keys() == old(driver).keys(),
        final(audit).spec_meta() == old(audit).spec_meta(),
        match login_spec(*old(driver), old(audit).spec_meta().user, opt_string(auth), *email, password@, now) {
            Err(e) => r == Err::<TemplateEmail, MethodError>(e) && final(driver).users() == old(driver).users(),
            Ok((s, u, k)) => match r {
                Ok(t) => t.kind == TemplateKind::UpdateEmail && t.service == s && t.meta == old(audit).spec_meta() && t.old_email == Some(u.email) && t.user.email@ == new_email@
                    && t.user == (User { email: t.user.email, ..u })
                    && issued(t.token@, TokenKind::Revoke, s, u, k, now, revoke_token_expires)
                    && user_lookup(final(driver).users(), UserRead::Id(u.id)) == Some(t.user),
                Err(e) => e == MethodError::BadRequest(DriverError::UserEmailConstraint)
                    && final(driver).users() == old(driver).users(),
            },
        },
        match login_spec(*old(driver), old(audit).spec_meta().user, opt_string(auth), *email, password@, now) {
            Err(_) => true,
            Ok((s, u, k)) => r is Err <==> exists|j: int|
                0 <= j < old(driver).users().len() && old(driver).users()[j].id != u.id && (
                #[trigger] old(driver).users()[j]).email@ == new_email@,
        },
{
    let (service, user, key) = email_principals(driver, audit, auth, email, now)?;
    proof {
        crate::driver::lemma_lookup_hash_produced(driver.users(), UserRead::Email(*email));
    }
    if user.password_require_update {
        return Err(MethodError::Forbidden(DriverError::UserPasswordUpdateRequired));
    }
    match user.password_check(password) {
        Ok(_) => {},
        Err(e) => return Err(MethodError::BadRequest(e)),
    }
    let (revoke_token, _) = encode_token(TokenKind::Revoke, &service, &user, &key, now, revoke_token_expires);
    let old_email = user.email.clone();
    proof {
        lemma_checked_user_found(*driver, UserRead::Email(*email), user);
    }
    let updated = match apply_user_update(driver, &UserUpdate::new_email(user.id, new_email), Ghost(user)) {
        Ok(u) => u,
        Err(e) => return Err(MethodError::BadRequest(e)),
    };
    let meta = audit.meta().clone();
    Ok(
        TemplateEmail {
            kind: TemplateKind::UpdateEmail,
            service,
            user: updated,
            token: revoke_token,
            old_email: Some(old_email),
            meta,
        },
    )
}

/// Changes a user's password after checking the current one; a pending password update
/// does not stop this. Returns the template with a revoke token.
pub fn update_password(
    driver: &mut MemoryDriver,
    audit: &mut AuditBuilder,
    auth: Option<&String>,
    email: &String,
    password: &str,
    new_password: &str,
    now: u64,
    revoke_token_expires: u64,
) -> (r: MethodResult<TemplateEmail>)
    requires
        old(driver).wf(),
    ensures
        final(driver).wf(),
        final(driver).keys() == old(driver).keys(),
        final(audit).spec_meta() == old(audit).spec_meta(),
        match update_password_spec(*old(driver), old(audit).spec_meta().user, opt_string(auth), *email, password@, now) {
            Err(e) => r == Err::<TemplateEmail, MethodError>(e) && final(driver).users() == old(driver).users(),
            Ok((s, u, k)) => match r {
                Ok(t) => t.kind == TemplateKind::UpdatePassword && t.service == s && t.meta == old(audit).spec_meta() && password_set(u, t.user, None, new_password@)
                    && issued(t.token@, TokenKind::Revoke, s, u, k, now, revoke_token_expires)
                    && user_lookup(final(driver).users(), UserRead::Id(u.id)) == Some(t.user),
                Err(e) => e == MethodError::BadRequest(DriverError::PasswordHash) && !password_hashable(
                    new_password@,
                ) && final(driver).users() == old(driver).users(),
            },
        },
{
    let (service, user, key) = email_principals(driver, audit, auth, email, now)?;
    proof {
        crate::driver::lemma_lookup_hash_produced(driver.users(), UserRead::Email(*email));
    }
    match user.password_check(password) {
        Ok(_) => {},
        Err(e) => return Err(MethodError::BadRequest(e)),
    }
    let (revoke_token, _) = encode_token(TokenKind::Revoke, &service, &user, &key, now, revoke_token_expires);
    proof {
        lemma_checked_user_found(*driver, UserRead::Email(*email), user);
    }
    let updated = set_password(driver, &user, new_password, None)?;
    let meta = audit.meta().clone();
    Ok(
        TemplateEmail {
            kind: TemplateKind::UpdatePassword,
            service,
            user: updated,
            token: revoke_token,
            old_email: None,
            meta,
        },
    )
}

/// The identity provider an OAuth2 flow goes through.
#[derive(Debug, Clone, Copy, PartialEq, Eq, Structural)]
pub enum Oauth2Provider {
    Github,
    Microsoft,
}

pub open spec fn provider_url(s: Service, provider: Oauth2Provider) -> Option<String> {
    match provider {
        Oauth2Provider::Github => s.provider_github_oauth2_url,
        Oauth2Provider::Microsoft => s.provider_microsoft_oauth2_url,
    }
}

/// Registers a user with the email on the service, or takes the existing enabled user,
/// gives it a token key with `key_value` if it has no active one, and returns the template
/// with a register token.
pub fn register(
    driver: &mut MemoryDriver,
    audit: &mut AuditBuilder,
    auth: Option<&String>,
    name: &str,
    email: &String,
    locale: Option<&str>,
    timezone: Option<&str>,
    key_value: &str,
    now: u64,
    access_token_expires: u64,
) -> (r: MethodResult<TemplateEmail>)
    requires
        old(driver).wf(),
    ensures
        final(driver).wf(),
        final(audit).spec_meta() == old(audit).spec_meta(),
        match register_service_spec(*old(driver), old(audit).spec_meta().user, opt_string(auth), now) {
            Err(e) => r == Err::<TemplateEmail, MethodError>(e) && final(driver).users() == old(driver).users()
                && final(driver).keys() == old(driver).keys(),
            Ok(s) => match user_lookup(old(driver).users(), UserRead::Email(*email)) {
                Some(u) => if !u.is_enabled {
                    r == Err::<TemplateEmail, MethodError>(MethodError::BadRequest(DriverError::UserDisabled))
                        && final(driver).users() == old(driver).users() && final(driver).keys() == old(driver).keys()
                } else {
                    final(driver).users() == old(driver).users() && match r {
                        Ok(t) => t.user == u && template_registered(t, s, *final(driver), now, access_token_expires, old(audit).spec_meta()),
                        Err(e) => register_failure(e, *old(driver), key_value@),
                    }
                },
                None => match r {
                    Ok(t) => t.user.email@ == email@ && t.user.name@ == name@ && t.user.is_enabled
                        && t.user.password_allow_reset && !t.user.password_require_update
                        && t.user.password_hash is None
                        && final(driver).users() == old(driver).users().push(t.user)
                        && template_registered(t, s, *final(driver), now, access_token_expires, old(audit).spec_meta()),
                    Err(e) => register_failure(e, *old(driver), key_value@),
                },
            },
        },
{
    let service = match key_service_authenticate(driver, audit, auth, now) {
        Ok(s) => s,
        Err(e) => return Err(MethodError::Unauthorised(e)),
    };
    if !service.user_allow_register {
        return Err(MethodError::BadRequest(DriverError::ServiceUserRegisterDisabled));
    }
    let found = driver.user_read(&UserRead::Email(email.clone()));
    let user = match found {
        Some(u) => {
            if !u.is_enabled {
                return Err(MethodError::BadRequest(DriverError::UserDisabled));
            }
            u
        },
        None => {
            let mut create = UserCreate::new(true, name, email.as_str()).password_allow_reset(true);
            match locale {
                Some(l) => {
                    create = create.locale(l);
                },
                None => {},
            }
            match timezone {
                Some(t) => {
                    create = create.timezone(t);
                },
                None => {},
            }
            proof {
                assert forall|j: int| 0 <= j < driver.users().len() implies (#[trigger] driver.users()[j]).email@ != create.email@ by {
                    crate::driver::lemma_user_lookup_none(driver.users(), UserRead::Email(*email), j);
                }
            }
            match driver.user_create(&create) {
                Ok(u) => u,
                Err(e) => return Err(MethodError::BadRequest(e)),
            }
        },
    };
    let read = KeyRead::user_id(service.id, user.id, true, false, KeyType::Token);
    let key = match driver.key_read(&read) {
        Some(k) => {
            proof {
                crate::auth::lemma_key_lookup_matches(driver.keys(), read);
            }
            k
        },
        None => {
            let create = KeyCreate {
                is_enabled: true,
                is_revoked: false,
                key_type: KeyType::Token,
                name: name.to_owned(),
                value: key_value.to_owned(),
                service_id: Some(service.id),
                user_id: Some(user.id),
            };
            match driver.key_create(&create) {
                Ok(k) => {
                    assert(driver.keys()[driver.keys().len() - 1] == k);
                    k
                },
                Err(e) => return Err(MethodError::BadRequest(e)),
            }
        },
    };
    assert(driver.keys().contains(key));
    assert(crate::driver::key_matches(token_key_read(service.id, user.id), key));
    let (token, _) = encode_token(TokenKind::Register, &service, &user, &key, now, access_token_expires);
    let meta = audit.meta().clone();
    Ok(
        TemplateEmail {
            kind: TemplateKind::Register,
            service,
            user,
            token,
            old_email: None,
            meta,
        },
    )
}

/// Why registering can fail once the service and the user are settled: the new token key's
/// value is taken, or the store has run out of identifiers.
pub open spec fn register_failure(e: MethodError, d: MemoryDriver, key_value: Seq<char>) -> bool {
    (e == MethodError::BadRequest(DriverError::KeyValueConstraint) && exists|j: int|
        0 <= j < d.keys().len() && (#[trigger] d.keys()[j]).value@ == key_value) || (e
        == MethodError::BadRequest(DriverError::Unavailable) && d.next_id() >= u128::MAX - 1)
}

/// A register template for the user on the service, whose token an active token key of
/// that user in the store signs.
pub open spec fn template_registered(
    t: TemplateEmail,
    s: Service,
    d: MemoryDriver,
    now: u64,
    expires_in: u64,
    meta: AuditMeta,
) -> bool {
    &&& t.kind == TemplateKind::Register
    &&& t.service == s
    &&& t.meta == meta
    &&& exists|k: Key|
        #![trigger d.keys().contains(k)]
        d.keys().contains(k) && crate::driver::key_matches(token_key_read(s.id, t.user.id), k)
            && issued(t.token@, TokenKind::Register, s, t.user, k, now, expires_in)
}

/// Starts an OAuth2 flow: stores the CSRF state, valid for `expires_in` seconds, and
/// returns the service's redirect URL for the provider.
pub fn oauth2_url(
    driver: &mut MemoryDriver,
    audit: &mut AuditBuilder,
    auth: Option<&String>,
    provider: Oauth2Provider,
    csrf_state: &str,
    now: u64,
    expires_in: u64,
) -> (r: MethodResult<String>)
    requires
        old(driver).wf(),
    ensures
        final(driver).wf(),
        final(driver).users() == old(driver).users(),
        final(driver).keys() == old(driver).keys(),
        final(audit).spec_meta() == old(audit).spec_meta(),
        match service_auth_spec(*old(driver), old(audit).spec_meta().user, opt_string(auth), now) {
            Err(e) => r == Err::<String, MethodError>(MethodError::Unauthorised(e)) && final(driver).csrfs() == old(driver).csrfs(),
            Ok(s) => match provider_url(s, provider) {
                None => r == Err::<String, MethodError>(MethodError::BadRequest(DriverError::ServiceProviderOauth2Disabled))
                    && final(driver).csrfs() == old(driver).csrfs(),
                Some(url) => if exists|j: int| crate::driver::csrf_index(old(driver).csrfs(), csrf_state@, j) {
                    r == Err::<String, MethodError>(MethodError::BadRequest(DriverError::CsrfKeyConstraint))
                        && final(driver).csrfs() == old(driver).csrfs()
                } else {
                    r == Ok::<String, MethodError>(url) && final(driver).csrfs().len() == old(driver).csrfs().len() + 1
                        && final(driver).csrfs().drop_last() == old(driver).csrfs()
                        && final(driver).csrfs().last().key@ == csrf_state@
                        && final(driver).csrfs().last().value@ == csrf_state@
                        && final(driver).csrfs().last().ttl == saturating_add(now, expires_in)
                        && final(driver).csrfs().last().service_id == s.id
                },
            },
        },
{
    let service = match key_service_authenticate(driver, audit, auth, now) {
        Ok(s) => s,
        Err(e) => return Err(MethodError::Unauthorised(e)),
    };
    let url = match provider {
        Oauth2Provider::Github => crate::model::clone_opt_string(&service.provider_github_oauth2_url),
        Oauth2Provider::Microsoft => crate::model::clone_opt_string(&service.provider_microsoft_oauth2_url),
    };
    let url = match url {
        Some(u) => u,
        None => return Err(MethodError::BadRequest(DriverError::ServiceProviderOauth2Disabled)),
    };
    match driver.csrf_create(csrf_state, csrf_state, now.saturating_add(expires_in), service.id) {
        Ok(c) => {
            assert(driver.csrfs().drop_last() =~= old(driver).csrfs());
            Ok(url)
        },
        Err(e) => Err(MethodError::BadRequest(e)),
    }
}

/// OAuth2 callback: consumes the CSRF state; returns the service and the service the
/// state was issued for.
pub fn oauth2_callback(
    driver: &mut MemoryDriver,
    audit: &mut AuditBuilder,
    auth: Option<&String>,
    state: &str,
    now: u64,
) -> (r: MethodResult<(Service, u128)>)
    requires
        old(driver).wf(),
    ensures
        final(driver).wf(),
        final(driver).users() == old(driver).users(),
        final(driver).keys() == old(driver).keys(),
        final(audit).spec_meta() == old(audit).spec_meta(),
        match service_auth_spec(*old(driver), old(audit).spec_meta().user, opt_string(auth), now) {
            Err(e) => r == Err::<(Service, u128), MethodError>(MethodError::Unauthorised(e))
                && final(driver).csrfs() == old(driver).csrfs(),
            Ok(s) => (forall|j: int| !crate::driver::csrf_index(final(driver).csrfs(), state@, j))
                && if exists|j: int| crate::driver::csrf_index(old(driver).csrfs(), state@, j)
                    && now < old(driver).csrfs()[j].ttl {
                    r matches Ok((s2, sid)) && s2 == s && exists|j: int|
                        crate::driver::csrf_index(old(driver).csrfs(), state@, j) && sid == old(driver).csrfs()[j].service_id
                } else {
                    r == Err::<(Service, u128), MethodError>(MethodError::BadRequest(DriverError::CsrfNotFoundOrUsed))
                },
        },
{
    let service = match key_service_authenticate(driver, audit, auth, now) {
        Ok(s) => s,
        Err(e) => return Err(MethodError::Unauthorised(e)),
    };
    match driver.csrf_read(state, now) {
        Some(c) => Ok((service, c.service_id)),
        None => Err(MethodError::BadRequest(DriverError::CsrfNotFoundOrUsed)),
    }
}

/// OAuth2 login with the email the provider vouched for: the access and refresh pair of
/// that user on the service the CSRF state was issued for.
pub fn oauth2_login(
    driver: &MemoryDriver,
    audit: &mut AuditBuilder,
    service: &Service,
    service_id: u128,
    email: &String,
    now: u64,
    access_token_expires: u64,
    refresh_token_expires: u64,
) -> (r: MethodResult<UserToken>)
    ensures
        final(audit).spec_meta() == old(audit).spec_meta(),
        if service.id != service_id {
            r == Err::<UserToken, MethodError>(MethodError::BadRequest(DriverError::CsrfNotFoundOrUsed))
        } else {
            match user_checked_spec(driver.users(), UserRead::Email(*email)) {
                Err(e) => r == Err::<UserToken, MethodError>(MethodError::BadRequest(e)),
                Ok(u) => match key_checked_spec(driver.keys(), token_key_read(service.id, u.id)) {
                    Err(e) => r == Err::<UserToken, MethodError>(MethodError::BadRequest(e)),
                    Ok(k) => r matches Ok(t) && issued_pair(t, *service, u, k, now, access_token_expires, refresh_token_expires),
                },
            }
        },
{
    if service.id != service_id {
        return Err(MethodError::BadRequest(DriverError::CsrfNotFoundOrUsed));
    }
    let user = match user_read_email_checked(driver, Some(service), audit, email) {
        Ok(u) => u,
        Err(e) => return Err(MethodError::BadRequest(e)),
    };
    let key = match key_read_user_checked(driver, service, audit, &user, KeyType::Token) {
        Ok(k) => k,
        Err(e) => return Err(MethodError::BadRequest(e)),
    };
    Ok(encode_user(service, user, &key, now, access_token_expires, refresh_token_expires))
}

} // verus!
