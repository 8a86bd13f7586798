use vstd::prelude::*;

verus! {

/// What a key may back: key authentication, token signing, or TOTP codes.
#[derive(Debug, Clone, Copy, PartialEq, Eq, Structural)]
pub enum KeyType {
    Key,
    Token,
    Totp,
}

/// A tenant: keys and users are only visible through the service they belong to.
#[derive(Debug)]
pub struct Service {
    pub id: u128,
    pub is_enabled: bool,
    pub name: String,
    pub url: String,
    pub user_allow_register: bool,
    pub provider_local_url: Option<String>,
    pub provider_github_oauth2_url: Option<String>,
    pub provider_microsoft_oauth2_url: Option<String>,
}

/// A user; the password hash is never handed out in a response.
#[derive(Debug)]
pub struct User {
    pub id: u128,
    pub is_enabled: bool,
    pub name: String,
    pub email: String,
    pub locale: String,
    pub timezone: String,
    pub password_allow_reset: bool,
    pub password_require_update: bool,
    pub password_hash: Option<String>,
}

/// A stored secret. Without service and user it is a root key; with a service only, a
/// service key; with both, a user key.
#[derive(Debug)]
pub struct Key {
    pub id: u128,
    pub is_enabled: bool,
    pub is_revoked: bool,
    pub key_type: KeyType,
    pub name: String,
    pub value: String,
    pub service_id: Option<u128>,
    pub user_id: Option<u128>,
}

/// A single-use value binding an OAuth2 authorisation request to its callback.
#[derive(Debug)]
pub struct Csrf {
    pub key: String,
    pub value: String,
    /// Expiry, in seconds since the epoch.
    pub ttl: u64,
    pub service_id: u128,
}

pub fn clone_opt_string(s: &Option<String>) -> (r: Option<String>)
    ensures
        r == *s,
{
    match s {
        Some(v) => Some(v.clone()),
        None => None,
    }
}

impl Clone for Service {
    fn clone(&self) -> (r: Self)
        ensures
            r == *self,
    {
        Service {
            id: self.id,
            is_enabled: self.is_enabled,
            name: self.name.clone(),
            url: self.url.clone(),
            user_allow_register: self.user_allow_register,
            provider_local_url: clone_opt_string(&self.provider_local_url),
            provider_github_oauth2_url: clone_opt_string(&self.provider_github_oauth2_url),
            provider_microsoft_oauth2_url: clone_opt_string(&self.provider_microsoft_oauth2_url),
        }
    }
}

impl Clone for User {
    fn clone(&self) -> (r: Self)
        ensures
            r == *self,
    {
        User {
            id: self.id,
            is_enabled: self.is_enabled,
            name: self.name.clone(),
            email: self.email.clone(),
            locale: self.locale.clone(),
            timezone: self.timezone.clone(),
            password_allow_reset: self.password_allow_reset,
            password_require_update: self.password_require_update,
            password_hash: clone_opt_string(&self.password_hash),
        }
    }
}

impl Clone for Key {
    fn clone(&self) -> (r: Self)
        ensures
            r == *self,
    {
        Key {
            id: self.id,
            is_enabled: self.is_enabled,
            is_revoked: self.is_revoked,
            key_type: self.key_type,
            name: self.name.clone(),
            value: self.value.clone(),
            service_id: self.service_id,
            user_id: self.user_id,
        }
    }
}

impl Clone for Csrf {
    fn clone(&self) -> (r: Self)
        ensures
            r == *self,
    {
        Csrf {
            key: self.key.clone(),
            value: self.value.clone(),
            ttl: self.ttl,
            service_id: self.service_id,
        }
    }
}

} // verus!
