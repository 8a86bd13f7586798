use vstd::prelude::*;

verus! {

/// Failures of the storage backend, the authentication chain and the token engine.
#[derive(Debug, Clone, Copy, PartialEq, Eq, Structural)]
pub enum DriverError {
    /// No key value was presented.
    KeyUndefined,
    /// No enabled, unrevoked key matched the presented value.
    KeyNotFound,
    KeyDisabled,
    KeyRevoked,
    /// A key read as a service key has no service.
    KeyServiceUndefined,
    /// The service is absent or disabled.
    ServiceNotFound,
    ServiceUserRegisterDisabled,
    /// The service has no redirect URL for the OAuth2 provider.
    ServiceProviderOauth2Disabled,
    UserNotFound,
    UserDisabled,
    UserPasswordUndefined,
    UserPasswordIncorrect,
    UserPasswordUpdateRequired,
    UserResetPasswordDisabled,
    /// A user with the same email address exists.
    UserEmailConstraint,
    /// A key with the same value exists.
    KeyValueConstraint,
    /// A referenced service or user does not exist.
    ForeignKeyConstraint,
    TokenInvalidOrExpired,
    CsrfNotFoundOrUsed,
    AuditNotFound,
    /// A CSRF record with the same key exists.
    CsrfKeyConstraint,
    TotpInvalid,
    /// The password could not be hashed or the stored hash could not be read.
    PasswordHash,
    /// The advisory lock with this identifier is held elsewhere.
    Locked(i32),
    /// The store has run out of identifiers.
    Unavailable,
}

/// The category a route handler answers with.
#[derive(Debug, Clone, Copy, PartialEq, Eq, Structural)]
pub enum MethodError {
    Unauthorised(DriverError),
    BadRequest(DriverError),
    Forbidden(DriverError),
}

pub type DriverResult<T> = Result<T, DriverError>;

pub type MethodResult<T> = Result<T, MethodError>;

} // verus!
