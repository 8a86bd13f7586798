use crate::audit::AuditBuilder;
use crate::auth::{key_service_authenticate, opt_string, service_auth_spec};
use crate::driver::{first_n, id_gt, id_lt, last_n, user_apply, user_lookup, MemoryDriver};
use crate::error::{DriverError, MethodError, MethodResult};
use crate::model::User;
use crate::password::{password_hashable, password_meta, password_meta_spec};
use crate::user::{UserCreate, UserPasswordMeta, UserRead, UserUpdate};
use vstd::prelude::*;

verus! {

/// Page size of a user list that does not give one.
pub const DEFAULT_LIST_LIMIT: usize = 10;

/// List query: users after `gt`, or before `lt` where given.
#[derive(Debug)]
pub struct ListQuery {
    pub gt: Option<u128>,
    pub lt: Option<u128>,
    pub limit: Option<usize>,
}

#[derive(Debug)]
pub struct ListMetaResponse {
    pub gt: Option<u128>,
    pub lt: Option<u128>,
    pub limit: usize,
}

#[derive(Debug)]
pub struct ListResponse {
    pub meta: ListMetaResponse,
    pub data: Vec<User>,
}

#[derive(Debug)]
pub struct CreateBody {
    pub name: String,
    pub email: String,
    pub password: Option<String>,
}

#[derive(Debug)]
pub struct CreateResponse {
    pub meta: UserPasswordMeta,
    pub data: User,
}

#[derive(Debug)]
pub struct ReadResponse {
    pub data: User,
}

#[derive(Debug)]
pub struct UpdateBody {
    pub name: Option<String>,
}

#[derive(Debug)]
pub struct UpdateResponse {
    pub data: User,
}

pub open spec fn service_step(
    d: MemoryDriver,
    user: Option<crate::header::HeaderAuth>,
    auth: Option<String>,
    now: u64,
) -> Result<crate::model::Service, MethodError> {
    match service_auth_spec(d, user, auth, now) {
        Err(e) => Err(MethodError::Unauthorised(e)),
        Ok(s) => Ok(s),
    }
}

pub open spec fn list_limit(query: ListQuery) -> usize {
    match query.limit {
        Some(l) => l,
        None => DEFAULT_LIST_LIMIT,
    }
}

/// Lists users: before `lt` where it is given, else after `gt` (default 0), at most
/// `limit` (default 10).
pub fn list(
    driver: &MemoryDriver,
    audit: &mut AuditBuilder,
    auth: Option<&String>,
    query: &ListQuery,
    now: u64,
) -> (r: MethodResult<ListResponse>)
    ensures
        final(audit).spec_meta() == old(audit).spec_meta(),
        match service_step(*driver, old(audit).spec_meta().user, opt_string(auth), now) {
            Err(e) => r == Err::<ListResponse, MethodError>(e),
            Ok(_) => r matches Ok(page) && page.meta.limit == list_limit(*query) && match query.lt {
                Some(lt) => page.meta.lt == Some(lt) && page.meta.gt is None && page.data@
                    == last_n(driver.users().filter(id_lt(lt)), list_limit(*query) as nat),
                None => {
                    let gt = match query.gt {
                        Some(g) => g,
                        None => 0,
                    };
                    page.meta.gt == Some(gt) && page.meta.lt is None && page.data@ == first_n(
                        driver.users().filter(id_gt(gt)),
                        list_limit(*query) as nat,
                    )
                },
            },
        },
{
    match key_service_authenticate(driver, audit, auth, now) {
        Ok(_) => {},
        Err(e) => return Err(MethodError::Unauthorised(e)),
    }
    let limit = match query.limit {
        Some(l) => l,
        None => DEFAULT_LIST_LIMIT,
    };
    match query.lt {
        Some(lt) => {
            let data = driver.user_list_id_lt(lt, limit);
            Ok(ListResponse { meta: ListMetaResponse { gt: None, lt: Some(lt), limit }, data })
        },
        None => {
            let gt = match query.gt {
                Some(g) => g,
                None => 0,
            };
            let data = driver.user_list_id_gt(gt, limit);
            Ok(ListResponse { meta: ListMetaResponse { gt: Some(gt), lt: None, limit }, data })
        },
    }
}

/// Creates an enabled user with the name, email and optional password; reports the
/// password's metadata with it.
pub fn create(
    driver: &mut MemoryDriver,
    audit: &mut AuditBuilder,
    auth: Option<&String>,
    body: &CreateBody,
    now: u64,
    pwned_enabled: bool,
    range_body: Option<&[u8]>,
) -> (r: MethodResult<CreateResponse>)
    requires
        old(driver).wf(),
    ensures
        final(driver).wf(),
        final(driver).keys() == old(driver).keys(),
        final(audit).spec_meta() == old(audit).spec_meta(),
        match service_step(*old(driver), old(audit).spec_meta().user, opt_string(auth), now) {
            Err(e) => r == Err::<CreateResponse, MethodError>(e) && final(driver).users() == old(driver).users(),
            Ok(_) => match r {
                Ok(c) => c.data.is_enabled && c.data.name@ == body.name@ && c.data.email@
                    == body.email@ && (c.data.password_hash is Some <==> body.password is Some)
                    && final(driver).users() == old(driver).users().push(c.data)
                    && (exists|score: u8|
                    score <= 4 && c.meta == #[trigger] password_meta_spec(
                        pwned_enabled,
                        crate::password::opt_view(body.password),
                        score,
                        crate::password::opt_bytes(range_body),
                    )),
                Err(e) => final(driver).users() == old(driver).users() && ((e == MethodError::BadRequest(
                    DriverError::PasswordHash,
                ) && (body.password matches Some(p) && !password_hashable(p@))) || (e
                    == MethodError::BadRequest(DriverError::Unavailable) && old(driver).next_id()
                    == u128::MAX) || (e
                    == MethodError::BadRequest(DriverError::UserEmailConstraint) && exists|j: int|
                    0 <= j < old(driver).users().len() && (#[trigger] old(driver).users()[j]).email@ == body.email@)),
            },
        },
{
    match key_service_authenticate(driver, audit, auth, now) {
        Ok(_) => {},
        Err(e) => return Err(MethodError::Unauthorised(e)),
    }
    let mut user_create = UserCreate::new(true, body.name.as_str(), body.email.as_str());
    match &body.password {
        Some(p) => {
            user_create = match user_create.with_password(false, false, p.as_str()) {
                Ok(c) => c,
                Err(e) => return Err(MethodError::BadRequest(e)),
            };
        },
        None => {},
    }
    let user = match driver.user_create(&user_create) {
        Ok(u) => u,
        Err(e) => return Err(MethodError::BadRequest(e)),
    };
    let password = match &body.password {
        Some(p) => Some(p.as_str()),
        None => None,
    };
    let meta = match password_meta(pwned_enabled, password, range_body) {
        Ok(m) => m,
        Err(e) => return Err(MethodError::BadRequest(e)),
    };
    Ok(CreateResponse { meta, data: user })
}

/// Reads a user by identifier.
pub fn read(
    driver: &MemoryDriver,
    audit: &mut AuditBuilder,
    auth: Option<&String>,
    user_id: u128,
    now: u64,
) -> (r: MethodResult<ReadResponse>)
    ensures
        final(audit).spec_meta() == old(audit).spec_meta(),
        match service_step(*driver, old(audit).spec_meta().user, opt_string(auth), now) {
            Err(e) => r == Err::<ReadResponse, MethodError>(e),
            Ok(_) => match user_lookup(driver.users(), UserRead::Id(user_id)) {
                Some(u) => r matches Ok(page) && page.data == u,
                None => r == Err::<ReadResponse, MethodError>(MethodError::BadRequest(DriverError::UserNotFound)),
            },
        },
{
    match key_service_authenticate(driver, audit, auth, now) {
        Ok(_) => {},
        Err(e) => return Err(MethodError::Unauthorised(e)),
    }
    match driver.user_read(&UserRead::Id(user_id)) {
        Some(u) => Ok(ReadResponse { data: u }),
        None => Err(MethodError::BadRequest(DriverError::UserNotFound)),
    }
}

/// Renames a user.
pub fn update(
    driver: &mut MemoryDriver,
    audit: &mut AuditBuilder,
    auth: Option<&String>,
    user_id: u128,
    body: &UpdateBody,
    now: u64,
) -> (r: MethodResult<UpdateResponse>)
    requires
        old(driver).wf(),
    ensures
        final(driver).wf(),
        final(driver).keys() == old(driver).keys(),
        final(audit).spec_meta() == old(audit).spec_meta(),
        match service_step(*old(driver), old(audit).spec_meta().user, opt_string(auth), now) {
            Err(e) => r == Err::<UpdateResponse, MethodError>(e) && final(driver).users() == old(driver).users(),
            Ok(_) => match user_lookup(old(driver).users(), UserRead::Id(user_id)) {
                Some(u) => r matches Ok(page) && page.data == (User {
                    name: match body.name {
                        Some(n) => page.data.name,
                        None => u.name,
                    },
                    ..u
                }) && (body.name matches Some(n) ==> page.data.name@ == n@) && user_lookup(
                    final(driver).users(),
                    UserRead::Id(user_id),
                ) == Some(page.data),
                None => r == Err::<UpdateResponse, MethodError>(MethodError::BadRequest(DriverError::UserNotFound))
                    && final(driver).users() == old(driver).users(),
            },
        },
{
    match key_service_authenticate(driver, audit, auth, now) {
        Ok(_) => {},
        Err(e) => return Err(MethodError::Unauthorised(e)),
    }
    let name = match &body.name {
        Some(n) => Some(n.clone()),
        None => None,
    };
    let update = UserUpdate::new(user_id, None, name, None, None, None, None);
    let ghost users0 = driver.users();
    match driver.user_update(&update) {
        Ok(u) => {
            proof {
                let i = choose|i: int|
                    crate::driver::user_first(users0, UserRead::Id(user_id), i) && u
                        == user_apply(users0[i], update) && driver.users() == users0.update(i, u);
                crate::driver::lemma_user_lookup_first(users0, UserRead::Id(user_id), i);
                crate::driver::lemma_user_lookup_after_update(users0, user_id, i, u);
            }
            Ok(UpdateResponse { data: u })
        },
        Err(e) => Err(MethodError::BadRequest(e)),
    }
}

/// Deletes a user; returns how many were deleted.
pub fn delete(
    driver: &mut MemoryDriver,
    audit: &mut AuditBuilder,
    auth: Option<&String>,
    user_id: u128,
    now: u64,
) -> (r: MethodResult<usize>)
    requires
        old(driver).wf(),
    ensures
        final(driver).wf(),
        final(driver).keys() == old(driver).keys(),
        final(audit).spec_meta() == old(audit).spec_meta(),
        match service_step(*old(driver), old(audit).spec_meta().user, opt_string(auth), now) {
            Err(e) => r == Err::<usize, MethodError>(e) && final(driver).users() == old(driver).users(),
            Ok(_) => if exists|i: int| 0 <= i < old(driver).users().len() && (#[trigger] old(driver).users()[i]).id == user_id {
                r == Ok::<usize, MethodError>(1) && exists|i: int|
                    0 <= i < old(driver).users().len() && old(driver).users()[i].id == user_id
                        && final(driver).users() == old(driver).users().remove(i)
            } else {
                r == Err::<usize, MethodError>(MethodError::BadRequest(DriverError::UserNotFound))
                    && final(driver).users() == old(driver).users()
            },
        },
{
    match key_service_authenticate(driver, audit, auth, now) {
        Ok(_) => {},
        Err(e) => return Err(MethodError::Unauthorised(e)),
    }
    match driver.user_delete(user_id) {
        Ok(()) => Ok(1),
        Err(e) => Err(MethodError::BadRequest(e)),
    }
}

} // verus!
