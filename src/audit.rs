use crate::driver::MemoryDriver;
use crate::error::{DriverError, DriverResult};
use crate::header::HeaderAuth;
use crate::hex::{hex_fixed, push_hex};
use crate::model::{clone_opt_string, Key, Service, User};
use vstd::prelude::*;

verus! {

/// Request metadata recorded with every audit record. `user` is the secondary credential
/// the caller presented for a user, if any.
#[derive(Debug)]
pub struct AuditMeta {
    pub user_agent: String,
    pub remote: String,
    pub forwarded_for: Option<String>,
    pub user: Option<HeaderAuth>,
}

impl Clone for AuditMeta {
    fn clone(&self) -> (r: Self)
        ensures
            r == *self,
    {
        AuditMeta {
            user_agent: self.user_agent.clone(),
            remote: self.remote.clone(),
            forwarded_for: clone_opt_string(&self.forwarded_for),
            user: match &self.user {
                Some(h) => Some(h.clone()),
                None => None,
            },
        }
    }
}

/// Audit messages.
#[derive(Debug, Clone, Copy, PartialEq, Eq, Structural)]
pub enum AuditMessage {
    UserNotFoundOrDisabled,
    KeyNotFoundOrDisabled,
    PasswordNotSetOrIncorrect,
    Login,
    ResetPassword,
    TokenInvalidOrExpired,
    CsrfNotFoundOrUsed,
    ResetPasswordConfirm,
    UpdateEmail,
    UpdateEmailRevoke,
    UpdatePassword,
    UpdatePasswordRevoke,
}

/// Audit data message container.
#[derive(Debug, Clone, Copy, PartialEq, Eq, Structural)]
pub struct AuditMessageObject {
    pub message: AuditMessage,
}

impl From<AuditMessage> for AuditMessageObject {
    fn from(message: AuditMessage) -> (r: AuditMessageObject)
        ensures
            r == (AuditMessageObject { message }),
    {
        AuditMessageObject { message }
    }
}

impl vstd::std_specs::convert::FromSpecImpl<AuditMessage> for AuditMessageObject {
    open spec fn obeys_from_spec() -> bool {
        true
    }

    open spec fn from_spec(message: AuditMessage) -> AuditMessageObject {
        AuditMessageObject { message }
    }
}

/// A field of a user that a diff compares.
#[derive(Debug, Clone, Copy, PartialEq, Eq, Structural)]
pub enum UserField {
    IsEnabled,
    Name,
    Email,
    Locale,
    Timezone,
    PasswordAllowReset,
    PasswordRequireUpdate,
}

/// A value in a diff.
#[derive(Debug, PartialEq, Eq)]
pub enum AuditValue {
    Bool(bool),
    Text(String),
}

/// One changed field: its old and new values.
#[derive(Debug, PartialEq, Eq)]
pub struct AuditDiffField {
    pub field: UserField,
    pub old: AuditValue,
    pub new: AuditValue,
}

/// The payload of an audit record: a message, or the fields that changed.
#[derive(Debug, PartialEq, Eq)]
pub enum AuditData {
    Message(AuditMessageObject),
    Diff(Vec<AuditDiffField>),
    /// A record that carries only its path.
    Empty,
}

/// A stored audit record.
#[derive(Debug)]
pub struct Audit {
    pub id: u128,
    pub created_at: u64,
    pub user_agent: String,
    pub remote: String,
    pub forwarded_for: Option<String>,
    pub path: String,
    pub data: AuditData,
    pub key_id: Option<u128>,
    pub service_id: Option<u128>,
    pub user_id: Option<u128>,
    pub user_key_id: Option<u128>,
}

/// Audit create.
#[derive(Debug)]
pub struct AuditCreate {
    pub user_agent: String,
    pub remote: String,
    pub forwarded_for: Option<String>,
    pub path: String,
    pub data: AuditData,
    pub key_id: Option<u128>,
    pub service_id: Option<u128>,
    pub user_id: Option<u128>,
    pub user_key_id: Option<u128>,
}

impl Clone for AuditValue {
    fn clone(&self) -> (r: Self)
        ensures
            r == *self,
    {
        match self {
            AuditValue::Bool(b) => AuditValue::Bool(*b),
            AuditValue::Text(s) => AuditValue::Text(s.clone()),
        }
    }
}

impl Clone for AuditDiffField {
    fn clone(&self) -> (r: Self)
        ensures
            r == *self,
    {
        AuditDiffField { field: self.field, old: self.old.clone(), new: self.new.clone() }
    }
}

impl AuditData {
    /// Equal messages, or diffs with equal entries.
    pub open spec fn same(&self, o: &AuditData) -> bool {
        match (self, o) {
            (AuditData::Message(a), AuditData::Message(b)) => a == b,
            (AuditData::Diff(a), AuditData::Diff(b)) => a@ == b@,
            (AuditData::Empty, AuditData::Empty) => true,
            _ => false,
        }
    }
}

impl Clone for AuditData {
    fn clone(&self) -> (r: Self)
        ensures
            r.same(self),
    {
        match self {
            AuditData::Message(m) => AuditData::Message(*m),
            AuditData::Empty => AuditData::Empty,
            AuditData::Diff(v) => {
                let mut out: Vec<AuditDiffField> = Vec::new();
                let mut i: usize = 0;
                while i < v.len()
                    invariant
                        i <= v@.len(),
                        out@ == v@.subrange(0, i as int),
                    decreases v@.len() - i,
                {
                    out.push(v[i].clone());
                    i = i + 1;
                    assert(out@ =~= v@.subrange(0, i as int));
                }
                assert(out@ =~= v@);
                AuditData::Diff(out)
            },
        }
    }
}

impl Audit {
    /// Equal fields, with data that is the same.
    pub open spec fn same(&self, o: &Audit) -> bool {
        self.id == o.id && self.created_at == o.created_at && self.user_agent == o.user_agent
            && self.remote == o.remote && self.forwarded_for == o.forwarded_for && self.path
            == o.path && self.data.same(&o.data) && self.key_id == o.key_id && self.service_id
            == o.service_id && self.user_id == o.user_id && self.user_key_id == o.user_key_id
    }
}

impl Clone for Audit {
    fn clone(&self) -> (r: Self)
        ensures
            r.same(self),
    {
        Audit {
            id: self.id,
            created_at: self.created_at,
            user_agent: self.user_agent.clone(),
            remote: self.remote.clone(),
            forwarded_for: clone_opt_string(&self.forwarded_for),
            path: self.path.clone(),
            data: self.data.clone(),
            key_id: self.key_id,
            service_id: self.service_id,
            user_id: self.user_id,
            user_key_id: self.user_key_id,
        }
    }
}

/// Audit paths.
#[derive(Debug)]
pub enum AuditPath {
    Login(AuditMessageObject),
    LoginError(AuditMessageObject),
    ResetPassword(AuditMessageObject),
    ResetPasswordError(AuditMessageObject),
    ResetPasswordConfirm(AuditMessageObject),
    ResetPasswordConfirmError(AuditMessageObject),
    UpdateEmail(AuditMessageObject),
    UpdateEmailError(AuditMessageObject),
    UpdateEmailRevoke(AuditMessageObject),
    UpdateEmailRevokeError(AuditMessageObject),
    UpdatePassword(AuditMessageObject),
    UpdatePasswordError(AuditMessageObject),
    UpdatePasswordRevoke(AuditMessageObject),
    UpdatePasswordRevokeError(AuditMessageObject),
}

impl AuditPath {
    /// The stable key an audit path is stored under.
    pub open spec fn path_spec(&self) -> Seq<char> {
        match self {
            AuditPath::Login(_) => "ark_auth/login"@,
            AuditPath::LoginError(_) => "ark_auth/error/login"@,
            AuditPath::ResetPassword(_) => "ark_auth/reset_password"@,
            AuditPath::ResetPasswordError(_) => "ark_auth/error/reset_password"@,
            AuditPath::ResetPasswordConfirm(_) => "ark_auth/reset_password_confirm"@,
            AuditPath::ResetPasswordConfirmError(_) => "ark_auth/error/reset_password_confirm"@,
            AuditPath::UpdateEmail(_) => "ark_auth/update_email"@,
            AuditPath::UpdateEmailError(_) => "ark_auth/error/update_email"@,
            AuditPath::UpdateEmailRevoke(_) => "ark_auth/update_email_revoke"@,
            AuditPath::UpdateEmailRevokeError(_) => "ark_auth/error/update_email_revoke"@,
            AuditPath::UpdatePassword(_) => "ark_auth/update_password"@,
            AuditPath::UpdatePasswordError(_) => "ark_auth/error/update_password"@,
            AuditPath::UpdatePasswordRevoke(_) => "ark_auth/update_password_revoke"@,
            AuditPath::UpdatePasswordRevokeError(_) => "ark_auth/error/update_password_revoke"@,
        }
    }

    pub open spec fn message_spec(&self) -> AuditMessageObject {
        match self {
            AuditPath::Login(m) => *m,
            AuditPath::LoginError(m) => *m,
            AuditPath::ResetPassword(m) => *m,
            AuditPath::ResetPasswordError(m) => *m,
            AuditPath::ResetPasswordConfirm(m) => *m,
            AuditPath::ResetPasswordConfirmError(m) => *m,
            AuditPath::UpdateEmail(m) => *m,
            AuditPath::UpdateEmailError(m) => *m,
            AuditPath::UpdateEmailRevoke(m) => *m,
            AuditPath::UpdateEmailRevokeError(m) => *m,
            AuditPath::UpdatePassword(m) => *m,
            AuditPath::UpdatePasswordError(m) => *m,
            AuditPath::UpdatePasswordRevoke(m) => *m,
            AuditPath::UpdatePasswordRevokeError(m) => *m,
        }
    }

    /// Return string representation and data of the path.
    pub fn to_path_data(&self) -> (r: (String, AuditData))
        ensures
            r.0@ == self.path_spec(),
            r.1 == AuditData::Message(self.message_spec()),
    {
        match self {
            AuditPath::Login(m) => ("ark_auth/login".to_owned(), AuditData::Message(*m)),
            AuditPath::LoginError(m) => ("ark_auth/error/login".to_owned(), AuditData::Message(*m)),
            AuditPath::ResetPassword(m) => (
                "ark_auth/reset_password".to_owned(),
                AuditData::Message(*m),
            ),
            AuditPath::ResetPasswordError(m) => (
                "ark_auth/error/reset_password".to_owned(),
                AuditData::Message(*m),
            ),
            AuditPath::ResetPasswordConfirm(m) => (
                "ark_auth/reset_password_confirm".to_owned(),
                AuditData::Message(*m),
            ),
            AuditPath::ResetPasswordConfirmError(m) => (
                "ark_auth/error/reset_password_confirm".to_owned(),
                AuditData::Message(*m),
            ),
            AuditPath::UpdateEmail(m) => (
                "ark_auth/update_email".to_owned(),
                AuditData::Message(*m),
            ),
            AuditPath::UpdateEmailError(m) => (
                "ark_auth/error/update_email".to_owned(),
                AuditData::Message(*m),
            ),
            AuditPath::UpdateEmailRevoke(m) => (
                "ark_auth/update_email_revoke".to_owned(),
                AuditData::Message(*m),
            ),
            AuditPath::UpdateEmailRevokeError(m) => (
                "ark_auth/error/update_email_revoke".to_owned(),
                AuditData::Message(*m),
            ),
            AuditPath::UpdatePassword(m) => (
                "ark_auth/update_password".to_owned(),
                AuditData::Message(*m),
            ),
            AuditPath::UpdatePasswordError(m) => (
                "ark_auth/error/update_password".to_owned(),
                AuditData::Message(*m),
            ),
            AuditPath::UpdatePasswordRevoke(m) => (
                "ark_auth/update_password_revoke".to_owned(),
                AuditData::Message(*m),
            ),
            AuditPath::UpdatePasswordRevokeError(m) => (
                "ark_auth/error/update_password_revoke".to_owned(),
                AuditData::Message(*m),
            ),
        }
    }
}

/// Accumulates the principals a request touches, then writes its audit record.
#[derive(Debug)]
pub struct AuditBuilder {
    meta: AuditMeta,
    key: Option<u128>,
    service: Option<u128>,
    user: Option<u128>,
    user_key: Option<u128>,
}

impl AuditBuilder {
    pub closed spec fn spec_meta(&self) -> AuditMeta {
        self.meta
    }

    pub closed spec fn spec_key(&self) -> Option<u128> {
        self.key
    }

    pub closed spec fn spec_service(&self) -> Option<u128> {
        self.service
    }

    pub closed spec fn spec_user(&self) -> Option<u128> {
        self.user
    }

    pub closed spec fn spec_user_key(&self) -> Option<u128> {
        self.user_key
    }

    /// Create a new audit log builder with required parameters.
    pub fn new(meta: AuditMeta) -> (r: Self)
        ensures
            r.spec_meta() == meta,
            r.spec_key() is None,
            r.spec_service() is None,
            r.spec_user() is None,
            r.spec_user_key() is None,
    {
        AuditBuilder { meta, key: None, service: None, user: None, user_key: None }
    }

    pub fn meta(&self) -> (r: &AuditMeta)
        ensures
            *r == self.spec_meta(),
    {
        &self.meta
    }

    pub fn key_id(&self) -> (r: Option<u128>)
        ensures
            r == self.spec_key(),
    {
        self.key
    }

    pub fn service_id(&self) -> (r: Option<u128>)
        ensures
            r == self.spec_service(),
    {
        self.service
    }

    pub fn user_id(&self) -> (r: Option<u128>)
        ensures
            r == self.spec_user(),
    {
        self.user
    }

    pub fn user_key_id(&self) -> (r: Option<u128>)
        ensures
            r == self.spec_user_key(),
    {
        self.user_key
    }

    pub fn set_key(&mut self, key: Option<&Key>)
        ensures
            final(self).spec_key() == match key {
                Some(k) => Some(k.id),
                None => None::<u128>,
            },
            final(self).spec_meta() == old(self).spec_meta(),
            final(self).spec_service() == old(self).spec_service(),
            final(self).spec_user() == old(self).spec_user(),
            final(self).spec_user_key() == old(self).spec_user_key(),
    {
        self.key = match key {
            Some(k) => Some(k.id),
            None => None,
        };
    }

    pub fn set_service(&mut self, service: Option<&Service>)
        ensures
            final(self).spec_service() == match service {
                Some(s) => Some(s.id),
                None => None::<u128>,
            },
            final(self).spec_meta() == old(self).spec_meta(),
            final(self).spec_key() == old(self).spec_key(),
            final(self).spec_user() == old(self).spec_user(),
            final(self).spec_user_key() == old(self).spec_user_key(),
    {
        self.service = match service {
            Some(s) => Some(s.id),
            None => None,
        };
    }

    pub fn set_user(&mut self, user: Option<&User>)
        ensures
            final(self).spec_user() == match user {
                Some(u) => Some(u.id),
                None => None::<u128>,
            },
            final(self).spec_meta() == old(self).spec_meta(),
            final(self).spec_key() == old(self).spec_key(),
            final(self).spec_service() == old(self).spec_service(),
            final(self).spec_user_key() == old(self).spec_user_key(),
    {
        self.user = match user {
            Some(u) => Some(u.id),
            None => None,
        };
    }

    pub fn set_user_key(&mut self, key: Option<&Key>)
        ensures
            final(self).spec_user_key() == match key {
                Some(k) => Some(k.id),
                None => None::<u128>,
            },
            final(self).spec_meta() == old(self).spec_meta(),
            final(self).spec_key() == old(self).spec_key(),
            final(self).spec_service() == old(self).spec_service(),
            final(self).spec_user() == old(self).spec_user(),
    {
        self.user_key = match key {
            Some(k) => Some(k.id),
            None => None,
        };
    }

    /// Writes an audit record under a path of the caller's choosing, with no data and the
    /// accumulated principals. Failure is reported, since the record is what was asked for.
    pub fn create_path(&self, driver: &mut MemoryDriver, path: &str, now: u64) -> (r: DriverResult<
        Audit,
    >)
        requires
            old(driver).wf(),
        ensures
            final(driver).wf(),
            final(driver).services() == old(driver).services(),
            final(driver).users() == old(driver).users(),
            final(driver).keys() == old(driver).keys(),
            final(driver).csrfs() == old(driver).csrfs(),
            final(driver).next_id() == (if r is Ok { old(driver).next_id() + 1 } else { old(driver).next_id() as int }),
            match r {
                Ok(a) => a.path@ == path@ && a.data == AuditData::Empty && a.key_id
                    == self.spec_key() && a.service_id == self.spec_service() && a.user_id
                    == self.spec_user() && a.user_key_id == self.spec_user_key() && a.created_at
                    == now && final(driver).audits().len() == old(driver).audits().len() + 1
                    && final(driver).audits().drop_last() == old(driver).audits()
                    && final(driver).audits().last().same(&a),
                Err(e) => e == DriverError::Unavailable && final(driver).audits() == old(driver).audits(),
            },
            r is Err <==> old(driver).next_id() == u128::MAX,
    {
        let c = AuditCreate {
            user_agent: self.meta.user_agent.clone(),
            remote: self.meta.remote.clone(),
            forwarded_for: clone_opt_string(&self.meta.forwarded_for),
            path: path.to_owned(),
            data: AuditData::Empty,
            key_id: self.key,
            service_id: self.service,
            user_id: self.user,
            user_key_id: self.user_key,
        };
        driver.audit_create(&c, now)
    }

    /// Writes the audit record of the path with the accumulated principals. A failed
    /// write gives `None`; the request it records goes on.
    pub fn create(&self, driver: &mut MemoryDriver, path: AuditPath, now: u64) -> (r: Option<
        Audit,
    >)
        requires
            old(driver).wf(),
        ensures
            final(driver).wf(),
            final(driver).services() == old(driver).services(),
            final(driver).users() == old(driver).users(),
            final(driver).keys() == old(driver).keys(),
            final(driver).csrfs() == old(driver).csrfs(),
            match r {
                Some(a) => a.path@ == path.path_spec() && a.data == AuditData::Message(
                    path.message_spec(),
                ) && a.key_id == self.spec_key() && a.service_id == self.spec_service()
                    && a.user_id == self.spec_user() && a.user_key_id == self.spec_user_key()
                    && a.created_at == now && a.user_agent == self.spec_meta().user_agent
                    && a.remote == self.spec_meta().remote && a.forwarded_for
                    == self.spec_meta().forwarded_for && final(driver).audits().len() == old(driver).audits().len() + 1 && final(driver).audits().drop_last() == old(driver).audits()
                    && final(driver).audits().last().same(&a),
                None => final(driver).audits() == old(driver).audits(),
            },
            r is None <==> old(driver).next_id() == u128::MAX,
    {
        match create(
            driver,
            &self.meta,
            path,
            self.key,
            self.service,
            self.user,
            self.user_key,
            now,
        ) {
            Ok(a) => Some(a),
            Err(_) => None,
        }
    }
}

/// Create one audit log.
pub fn create(
    driver: &mut MemoryDriver,
    meta: &AuditMeta,
    path: AuditPath,
    key: Option<u128>,
    service: Option<u128>,
    user: Option<u128>,
    user_key: Option<u128>,
    now: u64,
) -> (r: DriverResult<Audit>)
    requires
        old(driver).wf(),
    ensures
        final(driver).wf(),
        final(driver).services() == old(driver).services(),
        final(driver).users() == old(driver).users(),
        final(driver).keys() == old(driver).keys(),
        final(driver).csrfs() == old(driver).csrfs(),
        match r {
            Ok(a) => a.path@ == path.path_spec() && a.data == AuditData::Message(
                path.message_spec(),
            ) && a.key_id == key && a.service_id == service && a.user_id == user && a.user_key_id
                == user_key && a.created_at == now && a.user_agent == meta.user_agent && a.remote
                == meta.remote && a.forwarded_for == meta.forwarded_for && final(driver).audits().len()
                == old(driver).audits().len() + 1 && final(driver).audits().drop_last() == old(driver).audits() && final(driver).audits().last().same(&a),
            Err(e) => e == DriverError::Unavailable && final(driver).audits() == old(driver).audits(),
        },
        r is Err <==> old(driver).next_id() == u128::MAX,
{
    let (path, data) = path.to_path_data();
    let c = AuditCreate {
        user_agent: meta.user_agent.clone(),
        remote: meta.remote.clone(),
        forwarded_for: clone_opt_string(&meta.forwarded_for),
        path,
        data,
        key_id: key,
        service_id: service,
        user_id: user,
        user_key_id: user_key,
    };
    driver.audit_create(&c, now)
}

/// Seconds in a day.
pub const DAY_SECONDS: u64 = 86400;

/// Deletes the audit records older than `days` days at `now`; returns how many.
pub fn delete_by_age(driver: &mut MemoryDriver, days: u64, now: u64) -> (r: usize)
    requires
        old(driver).wf(),
    ensures
        final(driver).wf(),
        final(driver).keys() == old(driver).keys(),
        final(driver).users() == old(driver).users(),
        final(driver).audits() == old(driver).audits().filter(
            |a: Audit| a.created_at >= if days * DAY_SECONDS >= now {
                0
            } else {
                now - days * DAY_SECONDS
            },
        ),
        r == old(driver).audits().len() - final(driver).audits().len(),
{
    let before = if days >= now / DAY_SECONDS + 1 {
        0
    } else {
        let age = days * DAY_SECONDS;
        if age >= now {
            0
        } else {
            now - age
        }
    };
    assert(days * DAY_SECONDS >= now ==> before == 0) by (nonlinear_arith)
        requires
            days >= now / DAY_SECONDS + 1 ==> before == 0,
            days < now / DAY_SECONDS + 1 ==> before == if days * DAY_SECONDS >= now { 0 } else { now - days * DAY_SECONDS },
            DAY_SECONDS == 86400,
    ;
    driver.audit_delete_by_created_at(before)
}

/// The fields that `diff` compares, in order.
pub open spec fn user_fields() -> Seq<UserField> {
    seq![
        UserField::IsEnabled,
        UserField::Name,
        UserField::Email,
        UserField::Locale,
        UserField::Timezone,
        UserField::PasswordAllowReset,
        UserField::PasswordRequireUpdate,
    ]
}

pub open spec fn field_value(u: User, f: UserField) -> AuditValue {
    match f {
        UserField::IsEnabled => AuditValue::Bool(u.is_enabled),
        UserField::Name => AuditValue::Text(u.name),
        UserField::Email => AuditValue::Text(u.email),
        UserField::Locale => AuditValue::Text(u.locale),
        UserField::Timezone => AuditValue::Text(u.timezone),
        UserField::PasswordAllowReset => AuditValue::Bool(u.password_allow_reset),
        UserField::PasswordRequireUpdate => AuditValue::Bool(u.password_require_update),
    }
}

/// Whether two users hold different values in a field.
pub open spec fn field_differs(a: User, b: User, f: UserField) -> bool {
    match f {
        UserField::IsEnabled => a.is_enabled != b.is_enabled,
        UserField::Name => a.name@ != b.name@,
        UserField::Email => a.email@ != b.email@,
        UserField::Locale => a.locale@ != b.locale@,
        UserField::Timezone => a.timezone@ != b.timezone@,
        UserField::PasswordAllowReset => a.password_allow_reset != b.password_allow_reset,
        UserField::PasswordRequireUpdate => a.password_require_update != b.password_require_update,
    }
}

pub open spec fn diff_entry(cur: User, prev: User, f: UserField) -> AuditDiffField {
    AuditDiffField { field: f, old: field_value(prev, f), new: field_value(cur, f) }
}

/// The entries of the first `n` compared fields that changed from `prev` to `cur`.
pub open spec fn diff_upto(cur: User, prev: User, n: nat) -> Seq<AuditDiffField>
    decreases n,
{
    if n == 0 {
        Seq::empty()
    } else {
        let f = user_fields()[n - 1];
        let rest = diff_upto(cur, prev, (n - 1) as nat);
        if field_differs(cur, prev, f) {
            rest.push(diff_entry(cur, prev, f))
        } else {
            rest
        }
    }
}

/// The changed fields of `cur` against `prev`, each with its old and new value.
pub open spec fn diff_spec(cur: User, prev: User) -> Seq<AuditDiffField> {
    diff_upto(cur, prev, 7)
}

/// `a` and `b` hold the same values in every compared field but `f`, and differ in `f`.
pub open spec fn differ_only_in(a: User, b: User, f: UserField) -> bool {
    field_differs(a, b, f) && forall|g: UserField| g != f ==> !field_differs(a, b, g)
}

/// A diff of two users that differ in one compared field has exactly one entry, for that
/// field.
pub proof fn lemma_diff_single_field(a: User, b: User, f: UserField)
    requires
        differ_only_in(b, a, f),
    ensures
        diff_spec(b, a).len() == 1,
        diff_spec(b, a)[0].field == f,
        diff_spec(b, a)[0] == diff_entry(b, a, f),
{
    reveal_with_fuel(diff_upto, 8);
    assert(!field_differs(b, a, UserField::IsEnabled) || f == UserField::IsEnabled);
    assert(!field_differs(b, a, UserField::Name) || f == UserField::Name);
    assert(!field_differs(b, a, UserField::Email) || f == UserField::Email);
    assert(!field_differs(b, a, UserField::Locale) || f == UserField::Locale);
    assert(!field_differs(b, a, UserField::Timezone) || f == UserField::Timezone);
    assert(!field_differs(b, a, UserField::PasswordAllowReset) || f
        == UserField::PasswordAllowReset);
    assert(!field_differs(b, a, UserField::PasswordRequireUpdate) || f
        == UserField::PasswordRequireUpdate);
}


impl User {
    /// The identifier audit records name this user by: 32 lower-case hexadecimal digits.
    pub fn subject(&self) -> (r: String)
        ensures
            r@ == hex_fixed(self.id as nat, 32),
    {
        let mut out = String::new();
        push_hex(&mut out, self.id, 32);
        assert(out@ =~= hex_fixed(self.id as nat, 32));
        out
    }

    /// The fields that changed from `previous` to `self`, each with its old and new value.
    pub fn diff(&self, previous: &User) -> (r: Vec<AuditDiffField>)
        ensures
            r@ == diff_spec(*self, *previous),
    {
        reveal_with_fuel(diff_upto, 8);
        let mut out: Vec<AuditDiffField> = Vec::new();
        if self.is_enabled != previous.is_enabled {
            out.push(
                AuditDiffField {
                    field: UserField::IsEnabled,
                    old: AuditValue::Bool(previous.is_enabled),
                    new: AuditValue::Bool(self.is_enabled),
                },
            );
        }
        assert(out@ == diff_upto(*self, *previous, 1));
        if self.name != previous.name {
            out.push(
                AuditDiffField {
                    field: UserField::Name,
                    old: AuditValue::Text(previous.name.clone()),
                    new: AuditValue::Text(self.name.clone()),
                },
            );
        }
        assert(out@ == diff_upto(*self, *previous, 2));
        if self.email != previous.email {
            out.push(
                AuditDiffField {
                    field: UserField::Email,
                    old: AuditValue::Text(previous.email.clone()),
                    new: AuditValue::Text(self.email.clone()),
                },
            );
        }
        assert(out@ == diff_upto(*self, *previous, 3));
        if self.locale != previous.locale {
            out.push(
                AuditDiffField {
                    field: UserField::Locale,
                    old: AuditValue::Text(previous.locale.clone()),
                    new: AuditValue::Text(self.locale.clone()),
                },
            );
        }
        assert(out@ == diff_upto(*self, *previous, 4));
        if self.timezone != previous.timezone {
            out.push(
                AuditDiffField {
                    field: UserField::Timezone,
                    old: AuditValue::Text(previous.timezone.clone()),
                    new: AuditValue::Text(self.timezone.clone()),
                },
            );
        }
        assert(out@ == diff_upto(*self, *previous, 5));
        if self.password_allow_reset != previous.password_allow_reset {
            out.push(
                AuditDiffField {
                    field: UserField::PasswordAllowReset,
                    old: AuditValue::Bool(previous.password_allow_reset),
                    new: AuditValue::Bool(self.password_allow_reset),
                },
            );
        }
        assert(out@ == diff_upto(*self, *previous, 6));
        if self.password_require_update != previous.password_require_update {
            out.push(
                AuditDiffField {
                    field: UserField::PasswordRequireUpdate,
                    old: AuditValue::Bool(previous.password_require_update),
                    new: AuditValue::Bool(self.password_require_update),
                },
            );
        }
        out
    }
}

} // verus!
