use crate::driver::{user_lookup, MemoryDriver};
use crate::error::{DriverError, DriverResult};
use crate::model::Service;
use crate::model::User;
use crate::password::{
    hash_password, opt_view, password_check, password_check_spec, password_hashable, produced_or_none,
};
use vstd::prelude::*;

verus! {

/// User name maximum length.
pub const USER_NAME_MAX_LEN: usize = 100;

/// User locale maximum length.
pub const USER_LOCALE_MAX_LEN: usize = 10;

/// User timezone maximum length.
pub const USER_TIMEZONE_MAX_LEN: usize = 50;

/// User password metadata.
#[derive(Debug, PartialEq, Eq, Structural)]
pub struct UserPasswordMeta {
    pub password_strength: Option<u8>,
    pub password_pwned: Option<bool>,
}

impl Default for UserPasswordMeta {
    fn default() -> (r: Self)
        ensures
            r.password_strength is None && r.password_pwned is None,
    {
        UserPasswordMeta { password_strength: None, password_pwned: None }
    }
}

impl UserPasswordMeta {
    /// Metadata of an empty password: weakest, and breached.
    pub fn invalid() -> (r: Self)
        ensures
            r.password_strength == Some(0u8) && r.password_pwned == Some(true),
    {
        UserPasswordMeta { password_strength: Some(0), password_pwned: Some(true) }
    }
}

/// User list query.
#[derive(Debug)]
pub enum UserListQuery {
    /// Where ID greater than.
    IdGt(u128),
    /// Where ID less than.
    IdLt(u128),
    /// Where name greater than or equal.
    NameGe(String, Option<u128>),
    /// Where name less than or equal.
    NameLe(String, Option<u128>),
}

/// User list filter.
#[derive(Debug)]
pub struct UserListFilter {
    pub id: Option<Vec<u128>>,
    pub email: Option<Vec<String>>,
    pub limit: i64,
}

/// User list.
#[derive(Debug)]
pub struct UserList {
    pub query: UserListQuery,
    pub filter: UserListFilter,
}

/// User create.
#[derive(Debug)]
pub struct UserCreate {
    pub is_enabled: bool,
    pub name: String,
    pub email: String,
    pub locale: String,
    pub timezone: String,
    pub password_allow_reset: bool,
    pub password_require_update: bool,
    pub password_hash: Option<String>,
}

/// User read.
#[derive(Debug)]
pub enum UserRead {
    Id(u128),
    Email(String),
}

/// User update; fields left `None` are kept.
#[derive(Debug)]
pub struct UserUpdate {
    pub id: u128,
    pub is_enabled: Option<bool>,
    pub name: Option<String>,
    pub email: Option<String>,
    pub locale: Option<String>,
    pub timezone: Option<String>,
    pub password_allow_reset: Option<bool>,
    pub password_require_update: Option<bool>,
    pub password_hash: Option<String>,
}

/// Email or password update, kept apart from `UserUpdate` so that a password reaches the
/// store only hashed.
#[derive(Debug)]
pub struct UserUpdate2 {
    pub email: Option<String>,
    pub password_hash: Option<String>,
}

/// User token.
#[derive(Debug)]
pub struct UserToken {
    pub user: User,
    pub access_token: String,
    pub access_token_expires: u64,
    pub refresh_token: String,
    pub refresh_token_expires: u64,
}

/// User access token.
#[derive(Debug)]
pub struct UserTokenAccess {
    pub user: User,
    pub access_token: String,
    pub access_token_expires: u64,
}

/// User key.
#[derive(Debug)]
pub struct UserKey {
    pub user: User,
    pub key: String,
}

impl UserCreate {
    pub fn new(is_enabled: bool, name: &str, email: &str) -> (r: Self)
        ensures
            r.is_enabled == is_enabled,
            r.name@ == name@,
            r.email@ == email@,
            r.locale@ == seq!['e', 'n'],
            r.timezone@ == seq!['E', 't', 'c', '/', 'U', 'T', 'C'],
            !r.password_allow_reset,
            !r.password_require_update,
            r.password_hash is None,
    {
        let locale = "en";
        let timezone = "Etc/UTC";
        proof {
            reveal_strlit("en");
            reveal_strlit("Etc/UTC");
        }
        let r = UserCreate {
            is_enabled,
            name: name.to_owned(),
            email: email.to_owned(),
            locale: locale.to_owned(),
            timezone: timezone.to_owned(),
            password_allow_reset: false,
            password_require_update: false,
            password_hash: None,
        };
        assert(r.locale@ =~= seq!['e', 'n']);
        assert(r.timezone@ =~= seq!['E', 't', 'c', '/', 'U', 'T', 'C']);
        r
    }

    pub fn locale(self, locale: &str) -> (r: Self)
        ensures
            r == (UserCreate { locale: r.locale, ..self }),
            r.locale@ == locale@,
    {
        UserCreate { locale: locale.to_owned(), ..self }
    }

    pub fn timezone(self, timezone: &str) -> (r: Self)
        ensures
            r == (UserCreate { timezone: r.timezone, ..self }),
            r.timezone@ == timezone@,
    {
        UserCreate { timezone: timezone.to_owned(), ..self }
    }

    pub fn password_allow_reset(self, password_allow_reset: bool) -> (r: Self)
        ensures
            r == (UserCreate { password_allow_reset, ..self }),
    {
        UserCreate { password_allow_reset, ..self }
    }

    /// Sets the password flags and a hash of the password.
    pub fn with_password(self, allow_reset: bool, require_update: bool, password: &str) -> (r:
        DriverResult<Self>)
        ensures
            match r {
                Ok(c) => c == (UserCreate {
                    password_allow_reset: allow_reset,
                    password_require_update: require_update,
                    password_hash: c.password_hash,
                    ..self
                }) && c.password_hash is Some && produced_or_none(c.password_hash) && password_check_spec(
                    opt_view(c.password_hash),
                    password@,
                ) == Ok::<bool, DriverError>(false),
                Err(e) => e == DriverError::PasswordHash,
            },
            r is Ok <==> password_hashable(password@),
    {
        let hash = hash_password(password)?;
        Ok(
            UserCreate {
                password_allow_reset: allow_reset,
                password_require_update: require_update,
                password_hash: Some(hash),
                ..self
            },
        )
    }
}

impl UserUpdate {
    pub fn new(
        id: u128,
        is_enabled: Option<bool>,
        name: Option<String>,
        locale: Option<String>,
        timezone: Option<String>,
        password_allow_reset: Option<bool>,
        password_require_update: Option<bool>,
    ) -> (r: Self)
        ensures
            r == (UserUpdate {
                id,
                is_enabled,
                name,
                email: None,
                locale,
                timezone,
                password_allow_reset,
                password_require_update,
                password_hash: None,
            }),
    {
        UserUpdate {
            id,
            is_enabled,
            name,
            email: None,
            locale,
            timezone,
            password_allow_reset,
            password_require_update,
            password_hash: None,
        }
    }

    pub fn new_id(id: u128) -> (r: Self)
        ensures
            r == (UserUpdate {
                id,
                is_enabled: None,
                name: None,
                email: None,
                locale: None,
                timezone: None,
                password_allow_reset: None,
                password_require_update: None,
                password_hash: None,
            }),
    {
        UserUpdate {
            id,
            is_enabled: None,
            name: None,
            email: None,
            locale: None,
            timezone: None,
            password_allow_reset: None,
            password_require_update: None,
            password_hash: None,
        }
    }

    /// Update user email.
    pub fn new_email(id: u128, email: &str) -> (r: Self)
        ensures
            r == (UserUpdate { email: r.email, ..UserUpdate::spec_new_id(id) }),
            r.email matches Some(e) && e@ == email@,
    {
        UserUpdate { email: Some(email.to_owned()), ..UserUpdate::new_id(id) }
    }

    /// Update user password; this also clears `password_require_update`.
    pub fn new_password(id: u128, password: &str) -> (r: DriverResult<Self>)
        ensures
            match r {
                Ok(u) => u == (UserUpdate {
                    password_require_update: Some(false),
                    password_hash: u.password_hash,
                    ..UserUpdate::spec_new_id(id)
                }) && u.password_hash is Some && produced_or_none(u.password_hash) && password_check_spec(
                    opt_view(u.password_hash),
                    password@,
                ) == Ok::<bool, DriverError>(false),
                Err(e) => e == DriverError::PasswordHash,
            },
            r is Ok <==> password_hashable(password@),
    {
        let hash = hash_password(password)?;
        Ok(
            UserUpdate {
                password_require_update: Some(false),
                password_hash: Some(hash),
                ..UserUpdate::new_id(id)
            },
        )
    }

    pub open spec fn spec_new_id(id: u128) -> UserUpdate {
        UserUpdate {
            id,
            is_enabled: None,
            name: None,
            email: None,
            locale: None,
            timezone: None,
            password_allow_reset: None,
            password_require_update: None,
            password_hash: None,
        }
    }

    pub fn set_is_enabled(self, is_enabled: bool) -> (r: Self)
        ensures
            r == (UserUpdate { is_enabled: Some(is_enabled), ..self }),
    {
        UserUpdate { is_enabled: Some(is_enabled), ..self }
    }

    pub fn set_password_allow_reset(self, password_allow_reset: bool) -> (r: Self)
        ensures
            r == (UserUpdate { password_allow_reset: Some(password_allow_reset), ..self }),
    {
        UserUpdate { password_allow_reset: Some(password_allow_reset), ..self }
    }
}

impl UserUpdate2 {
    /// Update user email.
    pub fn email(email: &str) -> (r: Self)
        ensures
            r.email matches Some(e) && e@ == email@,
            r.password_hash is None,
    {
        UserUpdate2 { email: Some(email.to_owned()), password_hash: None }
    }

    /// Update user password, hashed.
    pub fn password(password: &str) -> (r: DriverResult<Self>)
        ensures
            match r {
                Ok(u) => u.email is None && u.password_hash is Some && produced_or_none(u.password_hash) && password_check_spec(
                    opt_view(u.password_hash),
                    password@,
                ) == Ok::<bool, DriverError>(false),
                Err(e) => e == DriverError::PasswordHash,
            },
            r is Ok <==> password_hashable(password@),
    {
        let hash = hash_password(password)?;
        Ok(UserUpdate2 { email: None, password_hash: Some(hash) })
    }
}

impl User {
    /// Read user; absent is an error.
    pub fn read(driver: &MemoryDriver, service_mask: Option<&Service>, read: &UserRead) -> (r:
        DriverResult<User>)
        ensures
            r == match user_lookup(driver.users(), *read) {
                Some(u) => Ok::<User, DriverError>(u),
                None => Err(DriverError::UserNotFound),
            },
    {
        match User::read_opt(driver, service_mask, read) {
            Ok(Some(u)) => Ok(u),
            _ => Err(DriverError::UserNotFound),
        }
    }

    /// Read user, if present.
    pub fn read_opt(driver: &MemoryDriver, _service_mask: Option<&Service>, read: &UserRead) -> (r:
        DriverResult<Option<User>>)
        ensures
            r == Ok::<Option<User>, DriverError>(user_lookup(driver.users(), *read)),
    {
        Ok(driver.user_read(read))
    }

    /// Checks a password against the stored hash. Returns whether the hash should be
    /// rewritten in the current format, or why the password was refused.
    pub fn password_check(&self, password: &str) -> (r: DriverResult<bool>)
        requires
            produced_or_none(self.password_hash),
        ensures
            r == password_check_spec(opt_view(self.password_hash), password@),
    {
        password_check(&self.password_hash, password)
    }
}

} // verus!
