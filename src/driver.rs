use crate::audit::{Audit, AuditCreate};
use crate::error::{DriverError, DriverResult};
use crate::model::{clone_opt_string, Csrf, Key, KeyType, Service, User};
use crate::password::produced_or_none;
use crate::user::{UserCreate, UserRead, UserUpdate};
use vstd::prelude::*;

verus! {

/// Service create.
#[derive(Debug)]
pub struct ServiceCreate {
    pub is_enabled: bool,
    pub name: String,
    pub url: String,
    pub user_allow_register: bool,
    pub provider_local_url: Option<String>,
    pub provider_github_oauth2_url: Option<String>,
    pub provider_microsoft_oauth2_url: Option<String>,
}

/// Key create; the value is a secret chosen by the caller.
#[derive(Debug)]
pub struct KeyCreate {
    pub is_enabled: bool,
    pub is_revoked: bool,
    pub key_type: KeyType,
    pub name: String,
    pub value: String,
    pub service_id: Option<u128>,
    pub user_id: Option<u128>,
}

/// Key update; fields left `None` are kept.
#[derive(Debug)]
pub struct KeyUpdate {
    pub is_enabled: Option<bool>,
    pub is_revoked: Option<bool>,
    pub name: Option<String>,
}

/// Service update; fields left `None` are kept.
#[derive(Debug)]
pub struct ServiceUpdate {
    pub is_enabled: Option<bool>,
    pub name: Option<String>,
}

/// References to link to an audit record after the fact; only references that the record
/// does not hold yet are set.
#[derive(Debug)]
pub struct AuditUpdate {
    pub key_id: Option<u128>,
    pub service_id: Option<u128>,
    pub user_id: Option<u128>,
    pub user_key_id: Option<u128>,
}

/// Key read.
#[derive(Debug)]
pub enum KeyRead {
    /// An enabled, unrevoked root key with this value.
    RootValue(String),
    /// An enabled, unrevoked key with this value and no user, of type key or token.
    ServiceValue(String),
    /// A key of the user on the service, of the type, with these flags.
    UserId { service_id: u128, user_id: u128, is_enabled: bool, is_revoked: bool, key_type: KeyType },
    /// A user key on the service with this value, of the type, with these flags.
    UserValue {
        service_id: u128,
        value: String,
        is_enabled: bool,
        is_revoked: bool,
        key_type: KeyType,
    },
}

impl KeyRead {
    pub fn user_id(
        service_id: u128,
        user_id: u128,
        is_enabled: bool,
        is_revoked: bool,
        key_type: KeyType,
    ) -> (r: Self)
        ensures
            r == (KeyRead::UserId { service_id, user_id, is_enabled, is_revoked, key_type }),
    {
        KeyRead::UserId { service_id, user_id, is_enabled, is_revoked, key_type }
    }

    pub fn user_value(
        service_id: u128,
        value: &str,
        is_enabled: bool,
        is_revoked: bool,
        key_type: KeyType,
    ) -> (r: Self)
        ensures
            r matches KeyRead::UserValue { service_id: s, value: v, is_enabled: e, is_revoked: x, key_type: t }
                && s == service_id && v@ == value@ && e == is_enabled && x == is_revoked && t
                == key_type,
    {
        KeyRead::UserValue { service_id, value: value.to_owned(), is_enabled, is_revoked, key_type }
    }
}

pub open spec fn key_matches(read: KeyRead, k: Key) -> bool {
    match read {
        KeyRead::RootValue(v) => k.value@ == v@ && k.service_id is None && k.user_id is None
            && k.is_enabled && !k.is_revoked && k.key_type != KeyType::Totp,
        KeyRead::ServiceValue(v) => k.value@ == v@ && k.user_id is None && k.is_enabled
            && !k.is_revoked && k.key_type != KeyType::Totp,
        KeyRead::UserId { service_id, user_id, is_enabled, is_revoked, key_type } => k.service_id
            == Some(service_id) && k.user_id == Some(user_id) && k.is_enabled == is_enabled
            && k.is_revoked == is_revoked && k.key_type == key_type,
        KeyRead::UserValue { service_id, value, is_enabled, is_revoked, key_type } => k.service_id
            == Some(service_id) && k.user_id is Some && k.value@ == value@ && k.is_enabled
            == is_enabled && k.is_revoked == is_revoked && k.key_type == key_type,
    }
}

pub open spec fn key_first(keys: Seq<Key>, read: KeyRead, i: int) -> bool {
    0 <= i < keys.len() && key_matches(read, keys[i]) && forall|j: int|
        0 <= j < i ==> !key_matches(read, #[trigger] keys[j])
}

/// The first key, in order of creation, that a read matches.
pub open spec fn key_lookup(keys: Seq<Key>, read: KeyRead) -> Option<Key> {
    if exists|i: int| key_first(keys, read, i) {
        Some(keys[choose|i: int| key_first(keys, read, i)])
    } else {
        None
    }
}

pub open spec fn user_matches(read: UserRead, u: User) -> bool {
    match read {
        UserRead::Id(id) => u.id == id,
        UserRead::Email(e) => u.email@ == e@,
    }
}

pub open spec fn user_first(users: Seq<User>, read: UserRead, i: int) -> bool {
    0 <= i < users.len() && user_matches(read, users[i]) && forall|j: int|
        0 <= j < i ==> !user_matches(read, #[trigger] users[j])
}

/// The first user, in order of creation, that a read matches.
pub open spec fn user_lookup(users: Seq<User>, read: UserRead) -> Option<User> {
    if exists|i: int| user_first(users, read, i) {
        Some(users[choose|i: int| user_first(users, read, i)])
    } else {
        None
    }
}

pub open spec fn service_first(services: Seq<Service>, id: u128, i: int) -> bool {
    0 <= i < services.len() && services[i].id == id && forall|j: int|
        0 <= j < i ==> (#[trigger] services[j]).id != id
}

pub open spec fn service_lookup(services: Seq<Service>, id: u128) -> Option<Service> {
    if exists|i: int| service_first(services, id, i) {
        Some(services[choose|i: int| service_first(services, id, i)])
    } else {
        None
    }
}

pub open spec fn csrf_index(csrfs: Seq<Csrf>, key: Seq<char>, i: int) -> bool {
    0 <= i < csrfs.len() && csrfs[i].key@ == key
}

pub open spec fn user_apply(u: User, up: UserUpdate) -> User {
    User {
        id: u.id,
        is_enabled: match up.is_enabled {
            Some(v) => v,
            None => u.is_enabled,
        },
        name: match up.name {
            Some(v) => v,
            None => u.name,
        },
        email: match up.email {
            Some(v) => v,
            None => u.email,
        },
        locale: match up.locale {
            Some(v) => v,
            None => u.locale,
        },
        timezone: match up.timezone {
            Some(v) => v,
            None => u.timezone,
        },
        password_allow_reset: match up.password_allow_reset {
            Some(v) => v,
            None => u.password_allow_reset,
        },
        password_require_update: match up.password_require_update {
            Some(v) => v,
            None => u.password_require_update,
        },
        password_hash: match up.password_hash {
            Some(v) => Some(v),
            None => u.password_hash,
        },
    }
}

pub open spec fn key_apply(k: Key, up: KeyUpdate) -> Key {
    Key {
        is_enabled: match up.is_enabled {
            Some(v) => v,
            None => k.is_enabled,
        },
        is_revoked: match up.is_revoked {
            Some(v) => v,
            None => k.is_revoked,
        },
        name: match up.name {
            Some(v) => v,
            None => k.name,
        },
        ..k
    }
}

/// The key belongs to the user on the service.
pub open spec fn owned_by(k: Key, service_id: u128, user_id: u128) -> bool {
    k.service_id == Some(service_id) && k.user_id == Some(user_id)
}

pub open spec fn unique_values(s: Seq<Key>) -> bool {
    forall|i: int, j: int| 0 <= i < s.len() && 0 <= j < s.len() && i != j ==> (#[trigger] s[i]).value@ != (#[trigger] s[j]).value@
}

pub open spec fn unique_emails(s: Seq<User>) -> bool {
    forall|i: int, j: int| 0 <= i < s.len() && 0 <= j < s.len() && i != j ==> (#[trigger] s[i]).email@ != (#[trigger] s[j]).email@
}

pub open spec fn unique_csrf_keys(s: Seq<Csrf>) -> bool {
    forall|i: int, j: int| 0 <= i < s.len() && 0 <= j < s.len() && i != j ==> (#[trigger] s[i]).key@ != (#[trigger] s[j]).key@
}

proof fn lemma_unique_values_push(s: Seq<Key>, k: Key)
    requires
        unique_values(s),
        forall|j: int| 0 <= j < s.len() ==> (#[trigger] s[j]).value@ != k.value@,
    ensures
        unique_values(s.push(k)),
{
    let t = s.push(k);
    assert forall|i: int, j: int| 0 <= i < t.len() && 0 <= j < t.len() && i != j implies (#[trigger] t[i]).value@ != (#[trigger] t[j]).value@ by {
        if i < s.len() && j < s.len() {
            assert(t[i] == s[i] && t[j] == s[j]);
        } else if i < s.len() {
            assert(t[i] == s[i]);
        } else {
            assert(t[j] == s[j]);
        }
    }
}

proof fn lemma_unique_values_same(s: Seq<Key>, t: Seq<Key>)
    requires
        unique_values(s),
        s.len() == t.len(),
        forall|j: int| 0 <= j < s.len() ==> (#[trigger] t[j]).value@ == s[j].value@,
    ensures
        unique_values(t),
{
    assert forall|i: int, j: int| 0 <= i < t.len() && 0 <= j < t.len() && i != j implies (#[trigger] t[i]).value@ != (#[trigger] t[j]).value@ by {
        assert(s[i].value@ != s[j].value@);
    }
}

proof fn lemma_unique_values_remove(s: Seq<Key>, r: int)
    requires
        unique_values(s),
        0 <= r < s.len(),
    ensures
        unique_values(s.remove(r)),
{
    let t = s.remove(r);
    assert forall|i: int, j: int| 0 <= i < t.len() && 0 <= j < t.len() && i != j implies (#[trigger] t[i]).value@ != (#[trigger] t[j]).value@ by {
        let i2 = if i < r { i } else { i + 1 };
        let j2 = if j < r { j } else { j + 1 };
        assert(t[i] == s[i2]);
        assert(t[j] == s[j2]);
    }
}

proof fn lemma_unique_emails_push(s: Seq<User>, u: User)
    requires
        unique_emails(s),
        forall|j: int| 0 <= j < s.len() ==> (#[trigger] s[j]).email@ != u.email@,
    ensures
        unique_emails(s.push(u)),
{
    let t = s.push(u);
    assert forall|i: int, j: int| 0 <= i < t.len() && 0 <= j < t.len() && i != j implies (#[trigger] t[i]).email@ != (#[trigger] t[j]).email@ by {
        if i < s.len() && j < s.len() {
            assert(t[i] == s[i] && t[j] == s[j]);
        } else if i < s.len() {
            assert(t[i] == s[i]);
        } else {
            assert(t[j] == s[j]);
        }
    }
}

proof fn lemma_unique_emails_update(s: Seq<User>, k: int, u: User)
    requires
        unique_emails(s),
        0 <= k < s.len(),
        forall|j: int| 0 <= j < s.len() && j != k ==> (#[trigger] s[j]).email@ != u.email@,
    ensures
        unique_emails(s.update(k, u)),
{
    let t = s.update(k, u);
    assert forall|i: int, j: int| 0 <= i < t.len() && 0 <= j < t.len() && i != j implies (#[trigger] t[i]).email@ != (#[trigger] t[j]).email@ by {
        if i != k && j != k {
            assert(t[i] == s[i] && t[j] == s[j]);
        } else if i != k {
            assert(t[i] == s[i]);
        } else {
            assert(t[j] == s[j]);
        }
    }
}

proof fn lemma_unique_csrf_push(s: Seq<Csrf>, c: Csrf)
    requires
        unique_csrf_keys(s),
        forall|j: int| 0 <= j < s.len() ==> (#[trigger] s[j]).key@ != c.key@,
    ensures
        unique_csrf_keys(s.push(c)),
{
    let t = s.push(c);
    assert forall|i: int, j: int| 0 <= i < t.len() && 0 <= j < t.len() && i != j implies (#[trigger] t[i]).key@ != (#[trigger] t[j]).key@ by {
        if i < s.len() && j < s.len() {
            assert(t[i] == s[i] && t[j] == s[j]);
        } else if i < s.len() {
            assert(t[i] == s[i]);
        } else {
            assert(t[j] == s[j]);
        }
    }
}

proof fn lemma_unique_csrf_remove(s: Seq<Csrf>, r: int)
    requires
        unique_csrf_keys(s),
        0 <= r < s.len(),
    ensures
        unique_csrf_keys(s.remove(r)),
        forall|j: int| 0 <= j < s.remove(r).len() ==> (#[trigger] s.remove(r)[j]).key@ != s[r].key@,
{
    let t = s.remove(r);
    assert forall|i: int, j: int| 0 <= i < t.len() && 0 <= j < t.len() && i != j implies (#[trigger] t[i]).key@ != (#[trigger] t[j]).key@ by {
        let i2 = if i < r { i } else { i + 1 };
        let j2 = if j < r { j } else { j + 1 };
        assert(t[i] == s[i2]);
        assert(t[j] == s[j2]);
    }
    assert forall|j: int| 0 <= j < t.len() implies (#[trigger] t[j]).key@ != s[r].key@ by {
        let j2 = if j < r { j } else { j + 1 };
        assert(t[j] == s[j2]);
    }
}

/// The first user a read matches is what the lookup returns.
pub proof fn lemma_user_lookup_first(users: Seq<User>, read: UserRead, i: int)
    requires
        user_first(users, read, i),
    ensures
        user_lookup(users, read) == Some(users[i]),
{
    let k = choose|k: int| user_first(users, read, k);
    if k < i {
        assert(!user_matches(read, users[k]));
    }
    if i < k {
        assert(!user_matches(read, users[i]));
    }
}

/// Replacing the first user with an identifier by a user with the same identifier makes
/// the new one what a read by that identifier finds.
pub proof fn lemma_user_lookup_after_update(users: Seq<User>, id: u128, i: int, u: User)
    requires
        user_first(users, UserRead::Id(id), i),
        u.id == id,
    ensures
        user_lookup(users.update(i, u), UserRead::Id(id)) == Some(u),
{
    let t = users.update(i, u);
    assert forall|j: int| 0 <= j < i implies !user_matches(UserRead::Id(id), #[trigger] t[j]) by {
        assert(t[j] == users[j]);
    }
    assert(user_first(t, UserRead::Id(id), i));
    lemma_user_lookup_first(t, UserRead::Id(id), i);
}


/// User identifiers are distinct and below `n`.
pub open spec fn user_ids_below(s: Seq<User>, n: u128) -> bool {
    &&& forall|i: int| 0 <= i < s.len() ==> (#[trigger] s[i]).id < n
    &&& forall|i: int, j: int| 0 <= i < s.len() && 0 <= j < s.len() && i != j ==> (#[trigger] s[i]).id != (#[trigger] s[j]).id
}

proof fn lemma_user_ids_push(s: Seq<User>, n: u128, u: User)
    requires
        user_ids_below(s, n),
        u.id == n,
        n < u128::MAX,
    ensures
        user_ids_below(s.push(u), (n + 1) as u128),
{
    let t = s.push(u);
    assert forall|i: int| 0 <= i < t.len() implies (#[trigger] t[i]).id < n + 1 by {
        if i < s.len() {
            assert(t[i] == s[i]);
        }
    }
    assert forall|i: int, j: int| 0 <= i < t.len() && 0 <= j < t.len() && i != j implies (#[trigger] t[i]).id != (#[trigger] t[j]).id by {
        if i < s.len() && j < s.len() {
            assert(t[i] == s[i] && t[j] == s[j]);
        } else if i < s.len() {
            assert(t[i] == s[i]);
        } else {
            assert(t[j] == s[j]);
        }
    }
}

proof fn lemma_user_ids_update(s: Seq<User>, n: u128, k: int, u: User)
    requires
        user_ids_below(s, n),
        0 <= k < s.len(),
        u.id == s[k].id,
    ensures
        user_ids_below(s.update(k, u), n),
{
    let t = s.update(k, u);
    assert forall|i: int| 0 <= i < t.len() implies (#[trigger] t[i]).id < n by {
        if i != k {
            assert(t[i] == s[i]);
        }
    }
    assert forall|i: int, j: int| 0 <= i < t.len() && 0 <= j < t.len() && i != j implies (#[trigger] t[i]).id != (#[trigger] t[j]).id by {
        if i != k && j != k {
            assert(t[i] == s[i] && t[j] == s[j]);
        } else if i != k {
            assert(t[i] == s[i]);
        } else {
            assert(t[j] == s[j]);
        }
    }
}

proof fn lemma_user_ids_grow(s: Seq<User>, n: u128, m: u128)
    requires
        user_ids_below(s, n),
        n <= m,
    ensures
        user_ids_below(s, m),
{
}

/// With identifiers unique, a read by a user's identifier finds that user.
pub proof fn lemma_user_lookup_id_unique(users: Seq<User>, n: u128, i: int)
    requires
        user_ids_below(users, n),
        0 <= i < users.len(),
    ensures
        user_lookup(users, UserRead::Id(users[i].id)) == Some(users[i]),
{
    let read = UserRead::Id(users[i].id);
    assert forall|j: int| 0 <= j < i implies !user_matches(read, #[trigger] users[j]) by {
        assert(users[j].id != users[i].id);
    }
    assert(user_first(users, read, i));
    lemma_user_lookup_first(users, read, i);
}

/// A read that finds nothing matches no user.
pub proof fn lemma_user_lookup_none(users: Seq<User>, read: UserRead, j: int)
    requires
        user_lookup(users, read) is None,
        0 <= j < users.len(),
    ensures
        !user_matches(read, users[j]),
    decreases j,
{
    if user_matches(read, users[j]) {
        if exists|k: int| 0 <= k < j && user_matches(read, #[trigger] users[k]) {
            let k = choose|k: int| 0 <= k < j && user_matches(read, #[trigger] users[k]);
            lemma_user_lookup_none(users, read, k);
        } else {
            assert(user_first(users, read, j));
        }
    }
}

proof fn lemma_unique_emails_remove(s: Seq<User>, r: int)
    requires
        unique_emails(s),
        0 <= r < s.len(),
    ensures
        unique_emails(s.remove(r)),
{
    let t = s.remove(r);
    assert forall|i: int, j: int| 0 <= i < t.len() && 0 <= j < t.len() && i != j implies (#[trigger] t[i]).email@ != (#[trigger] t[j]).email@ by {
        let i2 = if i < r { i } else { i + 1 };
        let j2 = if j < r { j } else { j + 1 };
        assert(t[i] == s[i2]);
        assert(t[j] == s[j2]);
    }
}

proof fn lemma_user_ids_remove(s: Seq<User>, n: u128, r: int)
    requires
        user_ids_below(s, n),
        0 <= r < s.len(),
    ensures
        user_ids_below(s.remove(r), n),
{
    let t = s.remove(r);
    assert forall|i: int| 0 <= i < t.len() implies (#[trigger] t[i]).id < n by {
        let i2 = if i < r { i } else { i + 1 };
        assert(t[i] == s[i2]);
    }
    assert forall|i: int, j: int| 0 <= i < t.len() && 0 <= j < t.len() && i != j implies (#[trigger] t[i]).id != (#[trigger] t[j]).id by {
        let i2 = if i < r { i } else { i + 1 };
        let j2 = if j < r { j } else { j + 1 };
        assert(t[i] == s[i2]);
        assert(t[j] == s[j2]);
    }
}

/// At most `limit` of a sequence, from its start.
pub open spec fn first_n<A>(s: Seq<A>, limit: nat) -> Seq<A> {
    if s.len() <= limit {
        s
    } else {
        s.take(limit as int)
    }
}

/// At most `limit` of a sequence, from its end.
pub open spec fn last_n<A>(s: Seq<A>, limit: nat) -> Seq<A> {
    if s.len() <= limit {
        s
    } else {
        s.subrange(s.len() - limit, s.len() as int)
    }
}

pub open spec fn id_gt(gt: u128) -> spec_fn(User) -> bool {
    |u: User| u.id > gt
}

pub open spec fn id_lt(lt: u128) -> spec_fn(User) -> bool {
    |u: User| u.id < lt
}

pub open spec fn link(current: Option<u128>, given: Option<u128>) -> Option<u128> {
    match current {
        Some(v) => Some(v),
        None => given,
    }
}

pub open spec fn audit_link(a: Audit, up: AuditUpdate) -> Audit {
    Audit {
        key_id: link(a.key_id, up.key_id),
        service_id: link(a.service_id, up.service_id),
        user_id: link(a.user_id, up.user_id),
        user_key_id: link(a.user_key_id, up.user_key_id),
        ..a
    }
}

pub open spec fn service_apply(s: Service, up: ServiceUpdate) -> Service {
    Service {
        is_enabled: match up.is_enabled {
            Some(v) => v,
            None => s.is_enabled,
        },
        name: match up.name {
            Some(v) => v,
            None => s.name,
        },
        ..s
    }
}

fn link_exec(current: Option<u128>, given: Option<u128>) -> (r: Option<u128>)
    ensures
        r == link(current, given),
{
    match current {
        Some(v) => Some(v),
        None => given,
    }
}

/// A hold blocks taking the lock `key`: any hold for an exclusive take, an exclusive one for
/// a shared take.
pub open spec fn blocks(hold: (i32, bool), key: i32, exclusive: bool) -> bool {
    hold.0 == key && (exclusive || hold.1)
}

pub open spec fn lock_blocked_spec(locks: Seq<(i32, bool)>, key: i32, exclusive: bool) -> bool {
    exists|j: int| 0 <= j < locks.len() && #[trigger] blocks(locks[j], key, exclusive)
}

/// Two stores hold the same entities and the same next identifier; audit records are the
/// same record for record.
pub open spec fn same_store(a: MemoryDriver, b: MemoryDriver) -> bool {
    &&& a.services() == b.services()
    &&& a.users() == b.users()
    &&& a.keys() == b.keys()
    &&& a.csrfs() == b.csrfs()
    &&& a.next_id() == b.next_id()
    &&& a.audits().len() == b.audits().len()
    &&& forall|i: int| 0 <= i < a.audits().len() ==> (#[trigger] a.audits()[i]).same(&b.audits()[i])
}

/// The outcome of running a body under a lock: `Locked` and nothing changed where the lock
/// is blocked; else the body ran on the store with the lock held, its result is returned,
/// its store is kept on success and the old one restored on failure, and the lock table is
/// as before.
pub open spec fn lock_outcome<T, F: FnOnce(MemoryDriver) -> (MemoryDriver, DriverResult<T>)>(
    before: MemoryDriver,
    after: MemoryDriver,
    key: i32,
    exclusive: bool,
    body: F,
    r: DriverResult<T>,
) -> bool {
    &&& after.wf()
    &&& after.locks() == before.locks()
    &&& if lock_blocked_spec(before.locks(), key, exclusive) {
        r == Err::<T, DriverError>(DriverError::Locked(key)) && same_store(after, before)
    } else {
        exists|d: MemoryDriver, out: (MemoryDriver, DriverResult<T>)|
            #![trigger body.ensures((d,), out)]
            same_store(d, before) && d.locks() == before.locks().push((key, exclusive))
                && body.ensures((d,), out) && out.1 == r && if r is Ok {
                same_store(after, out.0)
            } else {
                same_store(after, before)
            }
    }
}

/// Every password hash held is one this library produced.
pub open spec fn hashes_produced(s: Seq<User>) -> bool {
    forall|i: int| 0 <= i < s.len() ==> produced_or_none(#[trigger] s[i].password_hash)
}

proof fn lemma_hashes_push(s: Seq<User>, u: User)
    requires
        hashes_produced(s),
        produced_or_none(u.password_hash),
    ensures
        hashes_produced(s.push(u)),
{
    assert forall|i: int| 0 <= i < s.len() + 1 implies produced_or_none(#[trigger] s.push(u)[i].password_hash) by {
        if i < s.len() {
            assert(s.push(u)[i] == s[i]);
        }
    }
}

proof fn lemma_hashes_update(s: Seq<User>, k: int, u: User)
    requires
        hashes_produced(s),
        0 <= k < s.len(),
        produced_or_none(u.password_hash),
    ensures
        hashes_produced(s.update(k, u)),
{
    assert forall|i: int| 0 <= i < s.len() implies produced_or_none(#[trigger] s.update(k, u)[i].password_hash) by {
        if i != k {
            assert(s.update(k, u)[i] == s[i]);
        }
    }
}

proof fn lemma_hashes_remove(s: Seq<User>, r: int)
    requires
        hashes_produced(s),
        0 <= r < s.len(),
    ensures
        hashes_produced(s.remove(r)),
{
    assert forall|i: int| 0 <= i < s.len() - 1 implies produced_or_none(#[trigger] s.remove(r)[i].password_hash) by {
        let i2 = if i < r { i } else { i + 1 };
        assert(s.remove(r)[i] == s[i2]);
    }
}

/// A user a read finds holds no hash, or one this library produced.
pub proof fn lemma_lookup_hash_produced(users: Seq<User>, read: UserRead)
    requires
        hashes_produced(users),
    ensures
        user_lookup(users, read) matches Some(u) ==> produced_or_none(u.password_hash),
{
    if exists|i: int| user_first(users, read, i) {
        let i = choose|i: int| user_first(users, read, i);
        assert(produced_or_none(users[i].password_hash));
    }
}

/// Storage backend kept in memory: entities in order of creation, identifiers from a counter.
pub struct MemoryDriver {
    services: Vec<Service>,
    users: Vec<User>,
    keys: Vec<Key>,
    csrfs: Vec<Csrf>,
    audits: Vec<Audit>,
    next_id: u128,
    locks: Vec<(i32, bool)>,
}

impl MemoryDriver {
    pub closed spec fn services(&self) -> Seq<Service> {
        self.services@
    }

    pub closed spec fn users(&self) -> Seq<User> {
        self.users@
    }

    pub closed spec fn keys(&self) -> Seq<Key> {
        self.keys@
    }

    pub closed spec fn csrfs(&self) -> Seq<Csrf> {
        self.csrfs@
    }

    pub closed spec fn audits(&self) -> Seq<Audit> {
        self.audits@
    }

    /// Advisory locks held: identifier, and whether the hold is exclusive.
    pub closed spec fn locks(&self) -> Seq<(i32, bool)> {
        self.locks@
    }

    /// The identifier the next created entity gets.
    pub closed spec fn next_id(&self) -> u128 {
        self.next_id
    }

    /// Key values, user emails, user identifiers and CSRF keys are each unique; user
/// identifiers are below the next identifier; every stored password hash is one that this
/// library produced.
    pub open spec fn wf(&self) -> bool {
        &&& unique_values(self.keys())
        &&& unique_emails(self.users())
        &&& unique_csrf_keys(self.csrfs())
        &&& user_ids_below(self.users(), self.next_id())
        &&& hashes_produced(self.users())
    }

    pub fn new() -> (r: Self)
        ensures
            r.wf(),
            r.services().len() == 0,
            r.users().len() == 0,
            r.keys().len() == 0,
            r.csrfs().len() == 0,
            r.audits().len() == 0,
    {
        MemoryDriver {
            services: Vec::new(),
            users: Vec::new(),
            keys: Vec::new(),
            csrfs: Vec::new(),
            audits: Vec::new(),
            next_id: 1,
            locks: Vec::new(),
        }
    }

    fn alloc_id(&mut self) -> (r: Option<u128>)
        ensures
            final(self).services() == old(self).services(),
            final(self).users() == old(self).users(),
            final(self).keys() == old(self).keys(),
            final(self).csrfs() == old(self).csrfs(),
            final(self).audits() == old(self).audits(),
            old(self).wf() ==> final(self).wf(),
            match r {
                Some(id) => id == old(self).next_id() && final(self).next_id() == id + 1,
                None => old(self).next_id() == u128::MAX && final(self).next_id()
                    == old(self).next_id(),
            },
    {
        if self.next_id == u128::MAX {
            None
        } else {
            let id = self.next_id;
            proof {
                if old(self).wf() {
                    lemma_user_ids_grow(self.users@, id, (id + 1) as u128);
                }
            }
            self.next_id = id + 1;
            Some(id)
        }
    }

    pub fn service_create(&mut self, create: &ServiceCreate) -> (r: DriverResult<Service>)
        requires
            old(self).wf(),
        ensures
            final(self).wf(),
            final(self).users() == old(self).users(),
            final(self).keys() == old(self).keys(),
            final(self).csrfs() == old(self).csrfs(),
            final(self).audits() == old(self).audits(),
            match r {
                Ok(s) => s.id == old(self).next_id() && s.is_enabled == create.is_enabled
                    && s.name == create.name && s.url == create.url && s.user_allow_register
                    == create.user_allow_register && s.provider_local_url
                    == create.provider_local_url && s.provider_github_oauth2_url
                    == create.provider_github_oauth2_url && s.provider_microsoft_oauth2_url
                    == create.provider_microsoft_oauth2_url && final(self).services() == old(self).services().push(s),
                Err(e) => e == DriverError::Unavailable && old(self).next_id() == u128::MAX
                    && final(self).services() == old(self).services(),
            },
    {
        let id = match self.alloc_id() {
            Some(id) => id,
            None => return Err(DriverError::Unavailable),
        };
        let s = Service {
            id,
            is_enabled: create.is_enabled,
            name: create.name.clone(),
            url: create.url.clone(),
            user_allow_register: create.user_allow_register,
            provider_local_url: clone_opt_string(&create.provider_local_url),
            provider_github_oauth2_url: clone_opt_string(&create.provider_github_oauth2_url),
            provider_microsoft_oauth2_url: clone_opt_string(&create.provider_microsoft_oauth2_url),
        };
        self.services.push(s.clone());
        Ok(s)
    }

    pub fn service_read(&self, id: u128) -> (r: Option<Service>)
        ensures
            r == service_lookup(self.services(), id),
    {
        let mut i: usize = 0;
        while i < self.services.len()
            invariant
                i <= self.services@.len(),
                forall|j: int| 0 <= j < i ==> (#[trigger] self.services@[j]).id != id,
            decreases self.services@.len() - i,
        {
            if self.services[i].id == id {
                proof {
                    assert(service_first(self.services@, id, i as int));
                    let k = choose|k: int| service_first(self.services@, id, k);
                    assert(k == i);
                }
                return Some(self.services[i].clone());
            }
            i = i + 1;
        }
        None
    }

    fn user_index(&self, read: &UserRead) -> (r: Option<usize>)
        ensures
            match r {
                Some(i) => user_first(self.users(), *read, i as int),
                None => forall|j: int|
                    0 <= j < self.users().len() ==> !user_matches(*read, #[trigger] self.users()[j]),
            },
    {
        let mut i: usize = 0;
        while i < self.users.len()
            invariant
                i <= self.users@.len(),
                forall|j: int| 0 <= j < i ==> !user_matches(*read, #[trigger] self.users@[j]),
            decreases self.users@.len() - i,
        {
            let hit = match read {
                UserRead::Id(id) => self.users[i].id == *id,
                UserRead::Email(e) => self.users[i].email == *e,
            };
            if hit {
                return Some(i);
            }
            i = i + 1;
        }
        None
    }

    pub fn user_read(&self, read: &UserRead) -> (r: Option<User>)
        ensures
            r == user_lookup(self.users(), *read),
    {
        match self.user_index(read) {
            Some(i) => {
                proof {
                    let k = choose|k: int| user_first(self.users@, *read, k);
                    if k < i {
                        assert(!user_matches(*read, self.users@[k]));
                    }
                    if i < k {
                        assert(!user_matches(*read, self.users@[i as int]));
                    }
                }
                Some(self.users[i].clone())
            },
            None => None,
        }
    }

    fn email_taken(&self, email: &String, except: Option<usize>) -> (r: bool)
        ensures
            r == exists|j: int|
                0 <= j < self.users().len() && !(except matches Some(x) && j == x as int) && (
                #[trigger] self.users()[j]).email@ == email@,
    {
        let mut i: usize = 0;
        while i < self.users.len()
            invariant
                i <= self.users@.len(),
                forall|j: int|
                    0 <= j < i && !(except matches Some(x) && j == x as int) ==> (
                    #[trigger] self.users@[j]).email@ != email@,
            decreases self.users@.len() - i,
        {
            if self.users[i].email == *email {
                let skip = match except {
                    Some(x) => x == i,
                    None => false,
                };
                if !skip {
                    return true;
                }
            }
            i = i + 1;
        }
        false
    }

    pub fn user_create(&mut self, create: &UserCreate) -> (r: DriverResult<User>)
        requires
            old(self).wf(),
            produced_or_none(create.password_hash),
        ensures
            final(self).wf(),
            final(self).services() == old(self).services(),
            final(self).keys() == old(self).keys(),
            final(self).csrfs() == old(self).csrfs(),
            final(self).audits() == old(self).audits(),
            match r {
                Ok(u) => u.id == old(self).next_id() && u.is_enabled == create.is_enabled && u.name
                    == create.name && u.email == create.email && u.locale == create.locale
                    && u.timezone == create.timezone && u.password_allow_reset
                    == create.password_allow_reset && u.password_require_update
                    == create.password_require_update && u.password_hash == create.password_hash
                    && final(self).users() == old(self).users().push(u),
                Err(e) => final(self).users() == old(self).users() && (e
                    == DriverError::UserEmailConstraint || e == DriverError::Unavailable),
            },
            r matches Err(DriverError::UserEmailConstraint) <==> exists|j: int|
                0 <= j < old(self).users().len() && (#[trigger] old(self).users()[j]).email@
                    == create.email@,
            r matches Err(DriverError::Unavailable) ==> old(self).next_id() == u128::MAX,
            r is Ok ==> old(self).next_id() < u128::MAX && final(self).next_id() == old(self).next_id() + 1,
            r is Err ==> final(self).next_id() == old(self).next_id(),
    {
        if self.email_taken(&create.email, None) {
            return Err(DriverError::UserEmailConstraint);
        }
        let id = match self.alloc_id() {
            Some(id) => id,
            None => return Err(DriverError::Unavailable),
        };
        let u = User {
            id,
            is_enabled: create.is_enabled,
            name: create.name.clone(),
            email: create.email.clone(),
            locale: create.locale.clone(),
            timezone: create.timezone.clone(),
            password_allow_reset: create.password_allow_reset,
            password_require_update: create.password_require_update,
            password_hash: clone_opt_string(&create.password_hash),
        };
        proof {
            lemma_unique_emails_push(self.users@, u);
            lemma_hashes_push(self.users@, u);
            lemma_user_ids_push(self.users@, id, u);
            lemma_user_ids_grow(old(self).users(), id, id);
        }
        self.users.push(u.clone());
        Ok(u)
    }

    /// Applies an update to the user with its identifier.
    pub fn user_update(&mut self, update: &UserUpdate) -> (r: DriverResult<User>)
        requires
            old(self).wf(),
            produced_or_none(update.password_hash),
        ensures
            final(self).wf(),
            final(self).services() == old(self).services(),
            final(self).keys() == old(self).keys(),
            final(self).csrfs() == old(self).csrfs(),
            final(self).audits() == old(self).audits(),
            final(self).next_id() == old(self).next_id(),
            match r {
                Ok(u) => exists|i: int|
                    user_first(old(self).users(), UserRead::Id(update.id), i) && u == user_apply(
                        old(self).users()[i],
                        *update,
                    ) && final(self).users() == old(self).users().update(i, u),
                Err(e) => final(self).users() == old(self).users() && (e
                    == DriverError::UserNotFound || e == DriverError::UserEmailConstraint),
            },
            r matches Err(DriverError::UserNotFound) <==> user_lookup(
                old(self).users(),
                UserRead::Id(update.id),
            ) is None,
            r matches Err(DriverError::UserEmailConstraint) <==> exists|i: int|
                user_first(old(self).users(), UserRead::Id(update.id), i) && (update.email matches Some(
                    e,
                ) && exists|j: int|
                    0 <= j < old(self).users().len() && j != i && (#[trigger] old(self).users()[j]).email@
                        == e@),
    {
        let read = UserRead::Id(update.id);
        let i = match self.user_index(&read) {
            Some(i) => i,
            None => {
                proof {
                    if exists|k: int| user_first(self.users@, read, k) {
                        let k = choose|k: int| user_first(self.users@, read, k);
                        assert(!user_matches(read, self.users@[k]));
                    }
                }
                return Err(DriverError::UserNotFound);
            },
        };
        assert(user_lookup(old(self).users(), read) is Some);
        proof {
            assert forall|k: int| user_first(self.users@, read, k) implies k == i by {
                if k < i {
                    assert(!user_matches(read, self.users@[k]));
                }
                if i < k {
                    assert(!user_matches(read, self.users@[i as int]));
                }
            }
        }
        match &update.email {
            Some(e) => {
                if self.email_taken(e, Some(i)) {
                    return Err(DriverError::UserEmailConstraint);
                }
            },
            None => {},
        }
        let old_u = &self.users[i];
        let u = User {
            id: old_u.id,
            is_enabled: match update.is_enabled {
                Some(v) => v,
                None => old_u.is_enabled,
            },
            name: match &update.name {
                Some(v) => v.clone(),
                None => old_u.name.clone(),
            },
            email: match &update.email {
                Some(v) => v.clone(),
                None => old_u.email.clone(),
            },
            locale: match &update.locale {
                Some(v) => v.clone(),
                None => old_u.locale.clone(),
            },
            timezone: match &update.timezone {
                Some(v) => v.clone(),
                None => old_u.timezone.clone(),
            },
            password_allow_reset: match update.password_allow_reset {
                Some(v) => v,
                None => old_u.password_allow_reset,
            },
            password_require_update: match update.password_require_update {
                Some(v) => v,
                None => old_u.password_require_update,
            },
            password_hash: match &update.password_hash {
                Some(v) => Some(v.clone()),
                None => clone_opt_string(&old_u.password_hash),
            },
        };
        assert(u == user_apply(old(self).users()[i as int], *update));
        proof {
            if update.email is None {
                assert forall|j: int| 0 <= j < self.users@.len() && j != i implies (#[trigger] self.users@[j]).email@ != u.email@ by {
                    assert(u.email == self.users@[i as int].email);
                }
            }
            lemma_unique_emails_update(self.users@, i as int, u);
            lemma_hashes_update(self.users@, i as int, u);
            lemma_user_ids_update(self.users@, self.next_id, i as int, u);
        }
        self.users.set(i, u.clone());
        Ok(u)
    }

    fn key_value_taken(&self, value: &String) -> (r: bool)
        ensures
            r == exists|j: int|
                0 <= j < self.keys().len() && (#[trigger] self.keys()[j]).value@ == value@,
    {
        let mut i: usize = 0;
        while i < self.keys.len()
            invariant
                i <= self.keys@.len(),
                forall|j: int| 0 <= j < i ==> (#[trigger] self.keys@[j]).value@ != value@,
            decreases self.keys@.len() - i,
        {
            if self.keys[i].value == *value {
                return true;
            }
            i = i + 1;
        }
        false
    }

    pub fn key_create(&mut self, create: &KeyCreate) -> (r: DriverResult<Key>)
        requires
            old(self).wf(),
        ensures
            final(self).wf(),
            final(self).services() == old(self).services(),
            final(self).users() == old(self).users(),
            final(self).csrfs() == old(self).csrfs(),
            final(self).audits() == old(self).audits(),
            match r {
                Ok(k) => k.id == old(self).next_id() && k.is_enabled == create.is_enabled
                    && k.is_revoked == create.is_revoked && k.key_type == create.key_type && k.name
                    == create.name && k.value == create.value && k.service_id == create.service_id
                    && k.user_id == create.user_id && final(self).keys() == old(self).keys().push(
                    k,
                ),
                Err(e) => final(self).keys() == old(self).keys() && (e
                    == DriverError::KeyValueConstraint || e == DriverError::Unavailable),
            },
            r matches Err(DriverError::KeyValueConstraint) <==> exists|j: int|
                0 <= j < old(self).keys().len() && (#[trigger] old(self).keys()[j]).value@
                    == create.value@,
            r matches Err(DriverError::Unavailable) ==> old(self).next_id() == u128::MAX,
    {
        if self.key_value_taken(&create.value) {
            return Err(DriverError::KeyValueConstraint);
        }
        let id = match self.alloc_id() {
            Some(id) => id,
            None => return Err(DriverError::Unavailable),
        };
        let k = Key {
            id,
            is_enabled: create.is_enabled,
            is_revoked: create.is_revoked,
            key_type: create.key_type,
            name: create.name.clone(),
            value: create.value.clone(),
            service_id: create.service_id,
            user_id: create.user_id,
        };
        proof {
            lemma_unique_values_push(self.keys@, k);
        }
        self.keys.push(k.clone());
        Ok(k)
    }

    pub fn key_read(&self, read: &KeyRead) -> (r: Option<Key>)
        ensures
            r == key_lookup(self.keys(), *read),
    {
        let mut i: usize = 0;
        while i < self.keys.len()
            invariant
                i <= self.keys@.len(),
                forall|j: int| 0 <= j < i ==> !key_matches(*read, #[trigger] self.keys@[j]),
            decreases self.keys@.len() - i,
        {
            let k = &self.keys[i];
            let hit = match read {
                KeyRead::RootValue(v) => k.value == *v && k.service_id.is_none()
                    && k.user_id.is_none() && k.is_enabled && !k.is_revoked && k.key_type
                    != KeyType::Totp,
                KeyRead::ServiceValue(v) => k.value == *v && k.user_id.is_none() && k.is_enabled
                    && !k.is_revoked && k.key_type != KeyType::Totp,
                KeyRead::UserId { service_id, user_id, is_enabled, is_revoked, key_type } => {
                    let s = match k.service_id {
                        Some(x) => x == *service_id,
                        None => false,
                    };
                    let u = match k.user_id {
                        Some(x) => x == *user_id,
                        None => false,
                    };
                    s && u && k.is_enabled == *is_enabled && k.is_revoked == *is_revoked
                        && k.key_type == *key_type
                },
                KeyRead::UserValue { service_id, value, is_enabled, is_revoked, key_type } => {
                    let s = match k.service_id {
                        Some(x) => x == *service_id,
                        None => false,
                    };
                    s && k.user_id.is_some() && k.value == *value && k.is_enabled == *is_enabled
                        && k.is_revoked == *is_revoked && k.key_type == *key_type
                },
            };
            if hit {
                proof {
                    assert(key_first(self.keys@, *read, i as int));
                    let c = choose|c: int| key_first(self.keys@, *read, c);
                    if c < i {
                        assert(!key_matches(*read, self.keys@[c]));
                    }
                    if i < c {
                        assert(!key_matches(*read, self.keys@[i as int]));
                    }
                }
                return Some(k.clone());
            }
            i = i + 1;
        }
        proof {
            if exists|c: int| key_first(self.keys@, *read, c) {
                let c = choose|c: int| key_first(self.keys@, *read, c);
                assert(!key_matches(*read, self.keys@[c]));
            }
        }
        None
    }

    /// Applies an update to every key of the user on the service; returns how many.
    pub fn key_update_many(&mut self, service_id: u128, user_id: u128, update: &KeyUpdate) -> (r:
        usize)
        requires
            old(self).wf(),
        ensures
            final(self).wf(),
            final(self).services() == old(self).services(),
            final(self).users() == old(self).users(),
            final(self).csrfs() == old(self).csrfs(),
            final(self).audits() == old(self).audits(),
            final(self).next_id() == old(self).next_id(),
            final(self).keys().len() == old(self).keys().len(),
            forall|i: int|
                0 <= i < old(self).keys().len() ==> #[trigger] final(self).keys()[i] == if owned_by(
                    old(self).keys()[i],
                    service_id,
                    user_id,
                ) {
                    key_apply(old(self).keys()[i], *update)
                } else {
                    old(self).keys()[i]
                },
    {
        let mut count: usize = 0;
        let mut i: usize = 0;
        while i < self.keys.len()
            invariant
                i <= self.keys@.len(),
                count <= i,
                self.keys@.len() == old(self).keys().len(),
                self.services@ == old(self).services(),
                self.users@ == old(self).users(),
                self.csrfs@ == old(self).csrfs(),
                self.audits@ == old(self).audits(),
                self.next_id == old(self).next_id(),
                forall|j: int|
                    0 <= j < self.keys@.len() ==> (#[trigger] self.keys@[j]).value == old(self).keys()[j].value,
                forall|j: int|
                    0 <= j < self.keys@.len() ==> #[trigger] self.keys@[j] == if j < i && owned_by(
                        old(self).keys()[j],
                        service_id,
                        user_id,
                    ) {
                        key_apply(old(self).keys()[j], *update)
                    } else {
                        old(self).keys()[j]
                    },
            decreases self.keys@.len() - i,
        {
            let k = &self.keys[i];
            let owned = match (k.service_id, k.user_id) {
                (Some(s), Some(u)) => s == service_id && u == user_id,
                _ => false,
            };
            if owned {
                let nk = Key {
                    id: k.id,
                    is_enabled: match update.is_enabled {
                        Some(v) => v,
                        None => k.is_enabled,
                    },
                    is_revoked: match update.is_revoked {
                        Some(v) => v,
                        None => k.is_revoked,
                    },
                    key_type: k.key_type,
                    name: match &update.name {
                        Some(v) => v.clone(),
                        None => k.name.clone(),
                    },
                    value: k.value.clone(),
                    service_id: k.service_id,
                    user_id: k.user_id,
                };
                self.keys.set(i, nk);
                count = count + 1;
            }
            i = i + 1;
        }
        proof {
            lemma_unique_values_same(old(self).keys(), self.keys@);
        }
        count
    }

    /// Deletes the key with the identifier.
    pub fn key_delete(&mut self, id: u128) -> (r: DriverResult<()>)
        requires
            old(self).wf(),
        ensures
            final(self).wf(),
            final(self).services() == old(self).services(),
            final(self).users() == old(self).users(),
            final(self).csrfs() == old(self).csrfs(),
            final(self).audits() == old(self).audits(),
            final(self).next_id() == old(self).next_id(),
            match r {
                Ok(()) => exists|i: int|
                    0 <= i < old(self).keys().len() && old(self).keys()[i].id == id && final(self).keys() == old(self).keys().remove(i),
                Err(e) => e == DriverError::KeyNotFound && final(self).keys() == old(self).keys()
                    && forall|i: int|
                    0 <= i < old(self).keys().len() ==> (#[trigger] old(self).keys()[i]).id != id,
            },
    {
        let mut i: usize = 0;
        while i < self.keys.len()
            invariant
                old(self).wf(),
                self.services@ == old(self).services(),
                self.users@ == old(self).users(),
                self.keys@ == old(self).keys(),
                self.csrfs@ == old(self).csrfs(),
                self.audits@ == old(self).audits(),
                self.next_id == old(self).next_id(),
                i <= self.keys@.len(),
                forall|j: int| 0 <= j < i ==> (#[trigger] self.keys@[j]).id != id,
            decreases self.keys@.len() - i,
        {
            if self.keys[i].id == id {
                proof {
                    lemma_unique_values_remove(self.keys@, i as int);
                }
                self.keys.remove(i);
                return Ok(());
            }
            i = i + 1;
        }
        Err(DriverError::KeyNotFound)
    }

    pub fn csrf_create(&mut self, key: &str, value: &str, ttl: u64, service_id: u128) -> (r:
        DriverResult<Csrf>)
        requires
            old(self).wf(),
        ensures
            final(self).wf(),
            final(self).services() == old(self).services(),
            final(self).users() == old(self).users(),
            final(self).keys() == old(self).keys(),
            final(self).audits() == old(self).audits(),
            final(self).next_id() == old(self).next_id(),
            match r {
                Ok(c) => c.key@ == key@ && c.value@ == value@ && c.ttl == ttl && c.service_id
                    == service_id && final(self).csrfs() == old(self).csrfs().push(c),
                Err(e) => e == DriverError::CsrfKeyConstraint && final(self).csrfs() == old(self).csrfs(),
            },
            r is Err <==> exists|j: int| csrf_index(old(self).csrfs(), key@, j),
    {
        let mut i: usize = 0;
        while i < self.csrfs.len()
            invariant
                old(self).wf(),
                self.services@ == old(self).services(),
                self.users@ == old(self).users(),
                self.keys@ == old(self).keys(),
                self.csrfs@ == old(self).csrfs(),
                self.audits@ == old(self).audits(),
                self.next_id == old(self).next_id(),
                i <= self.csrfs@.len(),
                forall|j: int| 0 <= j < i ==> !csrf_index(self.csrfs@, key@, j),
            decreases self.csrfs@.len() - i,
        {
            if str_eq(self.csrfs[i].key.as_str(), key) {
                assert(csrf_index(self.csrfs@, key@, i as int));
                return Err(DriverError::CsrfKeyConstraint);
            }
            i = i + 1;
        }
        let c = Csrf { key: key.to_owned(), value: value.to_owned(), ttl, service_id };
        proof {
            assert forall|j: int| 0 <= j < self.csrfs@.len() implies (#[trigger] self.csrfs@[j]).key@ != c.key@ by {
                assert(!csrf_index(self.csrfs@, key@, j));
            }
            lemma_unique_csrf_push(self.csrfs@, c);
        }
        self.csrfs.push(c.clone());
        Ok(c)
    }

    /// Reads and consumes the CSRF record with the key: it is removed whether or not it
    /// has expired, and returned only if it expires after `now`.
    pub fn csrf_read(&mut self, key: &str, now: u64) -> (r: Option<Csrf>)
        requires
            old(self).wf(),
        ensures
            final(self).wf(),
            final(self).services() == old(self).services(),
            final(self).users() == old(self).users(),
            final(self).keys() == old(self).keys(),
            final(self).audits() == old(self).audits(),
            final(self).next_id() == old(self).next_id(),
            forall|j: int| !csrf_index(final(self).csrfs(), key@, j),
            (exists|j: int| csrf_index(old(self).csrfs(), key@, j)) ==> exists|j: int|
                csrf_index(old(self).csrfs(), key@, j) && final(self).csrfs() == old(self).csrfs().remove(j) && r == if now < old(self).csrfs()[j].ttl {
                    Some(old(self).csrfs()[j])
                } else {
                    None
                },
            !(exists|j: int| csrf_index(old(self).csrfs(), key@, j)) ==> r is None && final(self).csrfs() == old(self).csrfs(),
    {
        let mut i: usize = 0;
        while i < self.csrfs.len()
            invariant
                old(self).wf(),
                self.services@ == old(self).services(),
                self.users@ == old(self).users(),
                self.keys@ == old(self).keys(),
                self.csrfs@ == old(self).csrfs(),
                self.audits@ == old(self).audits(),
                self.next_id == old(self).next_id(),
                i <= self.csrfs@.len(),
                forall|j: int| 0 <= j < i ==> !csrf_index(self.csrfs@, key@, j),
            decreases self.csrfs@.len() - i,
        {
            if str_eq(self.csrfs[i].key.as_str(), key) {
                proof {
                    assert(csrf_index(self.csrfs@, key@, i as int));
                    lemma_unique_csrf_remove(self.csrfs@, i as int);
                }
                let c = self.csrfs.remove(i);
                if now < c.ttl {
                    return Some(c);
                } else {
                    return None;
                }
            }
            i = i + 1;
        }
        None
    }

    pub fn audit_create(&mut self, create: &AuditCreate, now: u64) -> (r: DriverResult<Audit>)
        requires
            old(self).wf(),
        ensures
            final(self).wf(),
            final(self).services() == old(self).services(),
            final(self).users() == old(self).users(),
            final(self).keys() == old(self).keys(),
            final(self).csrfs() == old(self).csrfs(),
            match r {
                Ok(a) => a.id == old(self).next_id() && a.created_at == now && a.user_agent
                    == create.user_agent && a.remote == create.remote && a.forwarded_for
                    == create.forwarded_for && a.path == create.path && a.data.same(&create.data)
                    && a.key_id == create.key_id && a.service_id == create.service_id
                    && a.user_id == create.user_id && a.user_key_id == create.user_key_id && final(self).audits().len() == old(self).audits().len() + 1 && final(self).audits().drop_last()
                    == old(self).audits() && final(self).audits().last().same(&a),
                Err(e) => e == DriverError::Unavailable && final(self).audits() == old(self).audits(),
            },
            r is Err <==> old(self).next_id() == u128::MAX,
            final(self).next_id() == (if r is Ok { old(self).next_id() + 1 } else { old(self).next_id() as int }),
    {
        let id = match self.alloc_id() {
            Some(id) => id,
            None => return Err(DriverError::Unavailable),
        };
        let a = Audit {
            id,
            created_at: now,
            user_agent: create.user_agent.clone(),
            remote: create.remote.clone(),
            forwarded_for: clone_opt_string(&create.forwarded_for),
            path: create.path.clone(),
            data: create.data.clone(),
            key_id: create.key_id,
            service_id: create.service_id,
            user_id: create.user_id,
            user_key_id: create.user_key_id,
        };
        let r = a.clone();
        self.audits.push(a);
        assert(self.audits@.drop_last() =~= old(self).audits());
        Ok(r)
    }

    /// Users with an identifier above `gt`, in order of creation, at most `limit`.
    pub fn user_list_id_gt(&self, gt: u128, limit: usize) -> (r: Vec<User>)
        ensures
            r@ == first_n(self.users().filter(id_gt(gt)), limit as nat),
    {
        let ghost all = self.users@;
        let n = self.users.len();
        let mut out: Vec<User> = Vec::new();
        let mut i: usize = 0;
        while i < n && out.len() < limit
            invariant
                all == self.users@,
                n == all.len(),
                i <= n,
                out@ == all.subrange(0, i as int).filter(id_gt(gt)),
                out@.len() <= limit,
            decreases n - i,
        {
            proof {
                assert(all.subrange(0, i as int + 1).drop_last() =~= all.subrange(0, i as int));
                reveal(Seq::filter);
            }
            if self.users[i].id > gt {
                out.push(self.users[i].clone());
            }
            i = i + 1;
        }
        proof {
            let p = all.subrange(0, i as int);
            let q = all.subrange(i as int, n as int);
            assert(p + q =~= all);
            Seq::filter_distributes_over_add(p, q, id_gt(gt));
            all.lemma_filter_len(id_gt(gt));
            if i < n {
                assert(out@.len() == limit);
                assert(all.filter(id_gt(gt)).take(limit as int) =~= out@);
            } else {
                assert(q =~= Seq::<User>::empty());
                reveal(Seq::filter);
                assert(q.filter(id_gt(gt)) =~= Seq::<User>::empty());
                assert(all.filter(id_gt(gt)) =~= out@);
            }
        }
        out
    }

    /// Users with an identifier below `lt`, in order of creation, at most `limit` of those
    /// closest to it.
    pub fn user_list_id_lt(&self, lt: u128, limit: usize) -> (r: Vec<User>)
        ensures
            r@ == last_n(self.users().filter(id_lt(lt)), limit as nat),
    {
        let ghost all = self.users@;
        let n = self.users.len();
        let mut matched: Vec<User> = Vec::new();
        let mut i: usize = 0;
        while i < n
            invariant
                all == self.users@,
                n == all.len(),
                i <= n,
                matched@ == all.subrange(0, i as int).filter(id_lt(lt)),
            decreases n - i,
        {
            proof {
                assert(all.subrange(0, i as int + 1).drop_last() =~= all.subrange(0, i as int));
                reveal(Seq::filter);
            }
            if self.users[i].id < lt {
                matched.push(self.users[i].clone());
            }
            i = i + 1;
        }
        assert(all.subrange(0, n as int) =~= all);
        proof {
            all.lemma_filter_len(id_lt(lt));
        }
        let m = matched.len();
        let start = if m <= limit { 0 } else { m - limit };
        let mut out: Vec<User> = Vec::new();
        let mut j: usize = start;
        while j < m
            invariant
                matched@ == all.filter(id_lt(lt)),
                m == matched@.len(),
                start <= j <= m,
                out@ == matched@.subrange(start as int, j as int),
            decreases m - j,
        {
            out.push(matched[j].clone());
            j = j + 1;
            assert(out@ =~= matched@.subrange(start as int, j as int));
        }
        assert(out@ =~= last_n(matched@, limit as nat));
        out
    }

    /// Deletes the user with the identifier.
    pub fn user_delete(&mut self, id: u128) -> (r: DriverResult<()>)
        requires
            old(self).wf(),
        ensures
            final(self).wf(),
            final(self).services() == old(self).services(),
            final(self).keys() == old(self).keys(),
            final(self).csrfs() == old(self).csrfs(),
            final(self).audits() == old(self).audits(),
            final(self).next_id() == old(self).next_id(),
            match r {
                Ok(()) => exists|i: int|
                    0 <= i < old(self).users().len() && old(self).users()[i].id == id && final(self).users() == old(self).users().remove(i),
                Err(e) => e == DriverError::UserNotFound && final(self).users() == old(self).users()
                    && forall|i: int| 0 <= i < old(self).users().len() ==> (#[trigger] old(self).users()[i]).id != id,
            },
    {
        let mut i: usize = 0;
        while i < self.users.len()
            invariant
                old(self).wf(),
                self.services@ == old(self).services(),
                self.users@ == old(self).users(),
                self.keys@ == old(self).keys(),
                self.csrfs@ == old(self).csrfs(),
                self.audits@ == old(self).audits(),
                self.next_id == old(self).next_id(),
                i <= self.users@.len(),
                forall|j: int| 0 <= j < i ==> (#[trigger] self.users@[j]).id != id,
            decreases self.users@.len() - i,
        {
            if self.users[i].id == id {
                proof {
                    lemma_unique_emails_remove(self.users@, i as int);
                    lemma_hashes_remove(self.users@, i as int);
                    lemma_user_ids_remove(self.users@, self.next_id, i as int);
                }
                self.users.remove(i);
                return Ok(());
            }
            i = i + 1;
        }
        Err(DriverError::UserNotFound)
    }

    /// Whether a hold of the advisory lock `key` blocks taking it: any hold blocks an
    /// exclusive one, an exclusive hold blocks a shared one.
    fn lock_blocked(&self, key: i32, exclusive: bool) -> (r: bool)
        ensures
            r == lock_blocked_spec(self.locks(), key, exclusive),
    {
        let mut i: usize = 0;
        while i < self.locks.len()
            invariant
                i <= self.locks@.len(),
                forall|j: int| 0 <= j < i ==> !#[trigger] blocks(self.locks@[j], key, exclusive),
            decreases self.locks@.len() - i,
        {
            if self.locks[i].0 == key && (exclusive || self.locks[i].1) {
                assert(blocks(self.locks@[i as int], key, exclusive));
                return true;
            }
            i = i + 1;
        }
        false
    }

    fn copy_locks(&self) -> (r: Vec<(i32, bool)>)
        ensures
            r@ == self.locks(),
    {
        let mut out: Vec<(i32, bool)> = Vec::new();
        let mut i: usize = 0;
        while i < self.locks.len()
            invariant
                i <= self.locks@.len(),
                out@ == self.locks@.subrange(0, i as int),
            decreases self.locks@.len() - i,
        {
            out.push(self.locks[i]);
            i = i + 1;
            assert(out@ =~= self.locks@.subrange(0, i as int));
        }
        assert(out@ =~= self.locks@);
        out
    }

    /// A copy of the store, to roll a lock body back to.
    fn snapshot(&self) -> (r: MemoryDriver)
        ensures
            same_store(r, *self),
            r.locks() == self.locks(),
    {
        let mut services: Vec<Service> = Vec::new();
        let mut i: usize = 0;
        while i < self.services.len()
            invariant
                i <= self.services@.len(),
                services@ == self.services@.subrange(0, i as int),
            decreases self.services@.len() - i,
        {
            services.push(self.services[i].clone());
            i = i + 1;
            assert(services@ =~= self.services@.subrange(0, i as int));
        }
        let mut users: Vec<User> = Vec::new();
        let mut i: usize = 0;
        while i < self.users.len()
            invariant
                i <= self.users@.len(),
                users@ == self.users@.subrange(0, i as int),
            decreases self.users@.len() - i,
        {
            users.push(self.users[i].clone());
            i = i + 1;
            assert(users@ =~= self.users@.subrange(0, i as int));
        }
        let mut keys: Vec<Key> = Vec::new();
        let mut i: usize = 0;
        while i < self.keys.len()
            invariant
                i <= self.keys@.len(),
                keys@ == self.keys@.subrange(0, i as int),
            decreases self.keys@.len() - i,
        {
            keys.push(self.keys[i].clone());
            i = i + 1;
            assert(keys@ =~= self.keys@.subrange(0, i as int));
        }
        let mut csrfs: Vec<Csrf> = Vec::new();
        let mut i: usize = 0;
        while i < self.csrfs.len()
            invariant
                i <= self.csrfs@.len(),
                csrfs@ == self.csrfs@.subrange(0, i as int),
            decreases self.csrfs@.len() - i,
        {
            csrfs.push(self.csrfs[i].clone());
            i = i + 1;
            assert(csrfs@ =~= self.csrfs@.subrange(0, i as int));
        }
        let mut audits: Vec<Audit> = Vec::new();
        let mut i: usize = 0;
        while i < self.audits.len()
            invariant
                i <= self.audits@.len(),
                audits@.len() == i,
                forall|j: int| 0 <= j < i ==> (#[trigger] audits@[j]).same(&self.audits@[j]),
            decreases self.audits@.len() - i,
        {
            audits.push(self.audits[i].clone());
            i = i + 1;
        }
        assert(services@ =~= self.services@);
        assert(users@ =~= self.users@);
        assert(keys@ =~= self.keys@);
        assert(csrfs@ =~= self.csrfs@);
        MemoryDriver {
            services,
            users,
            keys,
            csrfs,
            audits,
            next_id: self.next_id,
            locks: self.copy_locks(),
        }
    }

    fn run_locked<T, F: FnOnce(MemoryDriver) -> (MemoryDriver, DriverResult<T>)>(
        &mut self,
        key: i32,
        exclusive: bool,
        body: F,
    ) -> (r: DriverResult<T>)
        requires
            old(self).wf(),
            forall|d: MemoryDriver| d.wf() ==> #[trigger] body.requires((d,)),
            forall|d: MemoryDriver, out: (MemoryDriver, DriverResult<T>)|
                d.wf() && #[trigger] body.ensures((d,), out) ==> out.0.wf(),
        ensures
            lock_outcome(*old(self), *final(self), key, exclusive, body, r),
    {
        if self.lock_blocked(key, exclusive) {
            return Err(DriverError::Locked(key));
        }
        let saved_locks = self.copy_locks();
        let backup = self.snapshot();
        self.locks.push((key, exclusive));
        let mut cur = MemoryDriver::new();
        core::mem::swap(&mut cur, self);
        let ghost d = cur;
        assert(same_store(d, *old(self)));
        let (after, res) = body(cur);
        match res {
            Ok(v) => {
                *self = after;
                self.locks = saved_locks;
                assert(same_store(*self, after));
                Ok(v)
            },
            Err(e) => {
                *self = backup;
                self.locks = saved_locks;
                Err(e)
            },
        }
    }

    /// Runs `body` with the store under the advisory lock `key`, held exclusively; returns
    /// `Locked` without running it where anyone holds the lock. The body's changes are
    /// kept when it succeeds and rolled back when it fails; the lock is released either way.
    pub fn exclusive_lock<T, F: FnOnce(MemoryDriver) -> (MemoryDriver, DriverResult<T>)>(
        &mut self,
        key: i32,
        body: F,
    ) -> (r: DriverResult<T>)
        requires
            old(self).wf(),
            forall|d: MemoryDriver| d.wf() ==> #[trigger] body.requires((d,)),
            forall|d: MemoryDriver, out: (MemoryDriver, DriverResult<T>)|
                d.wf() && #[trigger] body.ensures((d,), out) ==> out.0.wf(),
        ensures
            lock_outcome(*old(self), *final(self), key, true, body, r),
    {
        self.run_locked(key, true, body)
    }

    /// Runs `body` with the store under the advisory lock `key`, held shared; returns
    /// `Locked` without running it where someone holds the lock exclusively. The body's
    /// changes are kept when it succeeds and rolled back when it fails; the lock is
    /// released either way.
    pub fn shared_lock<T, F: FnOnce(MemoryDriver) -> (MemoryDriver, DriverResult<T>)>(
        &mut self,
        key: i32,
        body: F,
    ) -> (r: DriverResult<T>)
        requires
            old(self).wf(),
            forall|d: MemoryDriver| d.wf() ==> #[trigger] body.requires((d,)),
            forall|d: MemoryDriver, out: (MemoryDriver, DriverResult<T>)|
                d.wf() && #[trigger] body.ensures((d,), out) ==> out.0.wf(),
        ensures
            lock_outcome(*old(self), *final(self), key, false, body, r),
    {
        self.run_locked(key, false, body)
    }

    /// Applies an update to the key with the identifier.
    pub fn key_update(&mut self, id: u128, update: &KeyUpdate) -> (r: DriverResult<Key>)
        requires
            old(self).wf(),
        ensures
            final(self).wf(),
            final(self).services() == old(self).services(),
            final(self).users() == old(self).users(),
            final(self).csrfs() == old(self).csrfs(),
            final(self).audits() == old(self).audits(),
            final(self).next_id() == old(self).next_id(),
            match r {
                Ok(k) => exists|i: int|
                    0 <= i < old(self).keys().len() && old(self).keys()[i].id == id && (forall|j: int|
                        0 <= j < i ==> (#[trigger] old(self).keys()[j]).id != id) && k == key_apply(
                        old(self).keys()[i],
                        *update,
                    ) && final(self).keys() == old(self).keys().update(i, k),
                Err(e) => e == DriverError::KeyNotFound && final(self).keys() == old(self).keys()
                    && forall|i: int| 0 <= i < old(self).keys().len() ==> (#[trigger] old(self).keys()[i]).id != id,
            },
    {
        let mut i: usize = 0;
        while i < self.keys.len()
            invariant
                old(self).wf(),
                self.services@ == old(self).services(),
                self.users@ == old(self).users(),
                self.keys@ == old(self).keys(),
                self.csrfs@ == old(self).csrfs(),
                self.audits@ == old(self).audits(),
                self.next_id == old(self).next_id(),
                i <= self.keys@.len(),
                forall|j: int| 0 <= j < i ==> (#[trigger] self.keys@[j]).id != id,
            decreases self.keys@.len() - i,
        {
            if self.keys[i].id == id {
                let k = &self.keys[i];
                let nk = Key {
                    id: k.id,
                    is_enabled: match update.is_enabled {
                        Some(v) => v,
                        None => k.is_enabled,
                    },
                    is_revoked: match update.is_revoked {
                        Some(v) => v,
                        None => k.is_revoked,
                    },
                    key_type: k.key_type,
                    name: match &update.name {
                        Some(v) => v.clone(),
                        None => k.name.clone(),
                    },
                    value: k.value.clone(),
                    service_id: k.service_id,
                    user_id: k.user_id,
                };
                proof {
                    let t = self.keys@.update(i as int, nk);
                    assert forall|j: int| 0 <= j < t.len() implies (#[trigger] t[j]).value@ == self.keys@[j].value@ by {}
                    lemma_unique_values_same(self.keys@, t);
                }
                self.keys.set(i, nk.clone());
                return Ok(nk);
            }
            i = i + 1;
        }
        Err(DriverError::KeyNotFound)
    }

    /// Applies an update to the service with the identifier.
    pub fn service_update(&mut self, id: u128, update: &ServiceUpdate) -> (r: DriverResult<Service>)
        requires
            old(self).wf(),
        ensures
            final(self).wf(),
            final(self).users() == old(self).users(),
            final(self).keys() == old(self).keys(),
            final(self).csrfs() == old(self).csrfs(),
            final(self).audits() == old(self).audits(),
            match r {
                Ok(s) => exists|i: int|
                    service_first(old(self).services(), id, i) && s == service_apply(
                        old(self).services()[i],
                        *update,
                    ) && final(self).services() == old(self).services().update(i, s),
                Err(e) => e == DriverError::ServiceNotFound && final(self).services() == old(self).services()
                    && service_lookup(old(self).services(), id) is None,
            },
    {
        let mut i: usize = 0;
        while i < self.services.len()
            invariant
                old(self).wf(),
                self.services@ == old(self).services(),
                self.users@ == old(self).users(),
                self.keys@ == old(self).keys(),
                self.csrfs@ == old(self).csrfs(),
                self.audits@ == old(self).audits(),
                self.next_id == old(self).next_id(),
                i <= self.services@.len(),
                forall|j: int| 0 <= j < i ==> (#[trigger] self.services@[j]).id != id,
            decreases self.services@.len() - i,
        {
            if self.services[i].id == id {
                let s = &self.services[i];
                let ns = Service {
                    id: s.id,
                    is_enabled: match update.is_enabled {
                        Some(v) => v,
                        None => s.is_enabled,
                    },
                    name: match &update.name {
                        Some(v) => v.clone(),
                        None => s.name.clone(),
                    },
                    url: s.url.clone(),
                    user_allow_register: s.user_allow_register,
                    provider_local_url: clone_opt_string(&s.provider_local_url),
                    provider_github_oauth2_url: clone_opt_string(&s.provider_github_oauth2_url),
                    provider_microsoft_oauth2_url: clone_opt_string(&s.provider_microsoft_oauth2_url),
                };
                assert(service_first(self.services@, id, i as int));
                self.services.set(i, ns.clone());
                return Ok(ns);
            }
            i = i + 1;
        }
        proof {
            if exists|k: int| service_first(self.services@, id, k) {
                let k = choose|k: int| service_first(self.services@, id, k);
                assert(self.services@[k].id != id);
            }
        }
        Err(DriverError::ServiceNotFound)
    }

    /// Reads the audit record with the identifier.
    pub fn audit_read(&self, id: u128) -> (r: Option<Audit>)
        ensures
            match r {
                Some(a) => exists|i: int|
                    0 <= i < self.audits().len() && self.audits()[i].id == id && (forall|j: int|
                        0 <= j < i ==> (#[trigger] self.audits()[j]).id != id) && a.same(&self.audits()[i]),
                None => forall|i: int| 0 <= i < self.audits().len() ==> (#[trigger] self.audits()[i]).id != id,
            },
    {
        let mut i: usize = 0;
        while i < self.audits.len()
            invariant
                i <= self.audits@.len(),
                forall|j: int| 0 <= j < i ==> (#[trigger] self.audits@[j]).id != id,
            decreases self.audits@.len() - i,
        {
            if self.audits[i].id == id {
                return Some(self.audits[i].clone());
            }
            i = i + 1;
        }
        None
    }

    /// Links references to the audit record with the identifier, where it holds none yet;
    /// nothing else of a record ever changes.
    pub fn audit_update(&mut self, id: u128, update: &AuditUpdate) -> (r: DriverResult<()>)
        requires
            old(self).wf(),
        ensures
            final(self).wf(),
            final(self).services() == old(self).services(),
            final(self).users() == old(self).users(),
            final(self).keys() == old(self).keys(),
            final(self).csrfs() == old(self).csrfs(),
            final(self).next_id() == old(self).next_id(),
            final(self).audits().len() == old(self).audits().len(),
            match r {
                Ok(()) => exists|i: int|
                    0 <= i < old(self).audits().len() && old(self).audits()[i].id == id && (forall|j: int|
                        0 <= j < i ==> (#[trigger] old(self).audits()[j]).id != id) && final(self).audits()[i]
                        == audit_link(old(self).audits()[i], *update) && forall|j: int|
                        0 <= j < old(self).audits().len() && j != i ==> #[trigger] final(self).audits()[j]
                            == old(self).audits()[j],
                Err(e) => e == DriverError::AuditNotFound && final(self).audits() == old(self).audits()
                    && forall|i: int| 0 <= i < old(self).audits().len() ==> (#[trigger] old(self).audits()[i]).id != id,
            },
    {
        let mut i: usize = 0;
        while i < self.audits.len()
            invariant
                old(self).wf(),
                self.services@ == old(self).services(),
                self.users@ == old(self).users(),
                self.keys@ == old(self).keys(),
                self.csrfs@ == old(self).csrfs(),
                self.audits@ == old(self).audits(),
                self.next_id == old(self).next_id(),
                i <= self.audits@.len(),
                forall|j: int| 0 <= j < i ==> (#[trigger] self.audits@[j]).id != id,
            decreases self.audits@.len() - i,
        {
            if self.audits[i].id == id {
                let mut all: Vec<Audit> = Vec::new();
                core::mem::swap(&mut all, &mut self.audits);
                let mut a = all.remove(i);
                let ghost a0 = a;
                assert(a0 == old(self).audits()[i as int]);
                a.key_id = link_exec(a.key_id, update.key_id);
                a.service_id = link_exec(a.service_id, update.service_id);
                a.user_id = link_exec(a.user_id, update.user_id);
                a.user_key_id = link_exec(a.user_key_id, update.user_key_id);
                assert(a == audit_link(a0, *update));
                all.insert(i, a);
                assert(all@[i as int] == audit_link(old(self).audits()[i as int], *update));
                proof {
                    assert forall|j: int| 0 <= j < old(self).audits().len() && j != i implies #[trigger] all@[j]
                        == old(self).audits()[j] by {
                        if j < i {
                            assert(all@[j] == old(self).audits()[j]);
                        } else {
                            assert(all@[j] == old(self).audits()[j]);
                        }
                    }
                }
                self.audits = all;
                return Ok(());
            }
            i = i + 1;
        }
        Err(DriverError::AuditNotFound)
    }

    /// Deletes every audit record created before `created_at`; returns how many.
    pub fn audit_delete_by_created_at(&mut self, created_at: u64) -> (r: usize)
        requires
            old(self).wf(),
        ensures
            final(self).wf(),
            final(self).services() == old(self).services(),
            final(self).users() == old(self).users(),
            final(self).keys() == old(self).keys(),
            final(self).csrfs() == old(self).csrfs(),
            final(self).next_id() == old(self).next_id(),
            final(self).audits() == old(self).audits().filter(|a: Audit| a.created_at >= created_at),
            r == old(self).audits().len() - final(self).audits().len(),
    {
        let mut all: Vec<Audit> = Vec::new();
        core::mem::swap(&mut all, &mut self.audits);
        let ghost orig = all@;
        let n = all.len();
        let mut kept: Vec<Audit> = Vec::new();
        let mut i: usize = 0;
        while i < n
            invariant
                n == orig.len(),
                i <= n,
                all@ == orig.subrange(i as int, n as int),
                kept@ == orig.subrange(0, i as int).filter(|a: Audit| a.created_at >= created_at),
                self.audits@.len() == 0,
                self.services@ == old(self).services(),
                self.users@ == old(self).users(),
                self.keys@ == old(self).keys(),
                self.csrfs@ == old(self).csrfs(),
                self.next_id == old(self).next_id(),
                orig == old(self).audits(),
            decreases n - i,
        {
            proof {
                assert(orig.subrange(0, i as int + 1).drop_last() =~= orig.subrange(0, i as int));
                reveal(Seq::filter);
            }
            let a = all.remove(0);
            assert(a == orig[i as int]);
            assert(all@ =~= orig.subrange(i as int + 1, n as int));
            if a.created_at >= created_at {
                kept.push(a);
            }
            i = i + 1;
        }
        assert(orig.subrange(0, n as int) =~= orig);
        proof {
            orig.lemma_filter_len(|a: Audit| a.created_at >= created_at);
        }
        let removed = n - kept.len();
        self.audits = kept;
        removed
    }
}

/// Character-wise equality of two strings.
pub fn str_eq(a: &str, b: &str) -> (r: bool)
    ensures
        r == (a@ == b@),
{
    let n = a.unicode_len();
    if n != b.unicode_len() {
        return false;
    }
    let mut i: usize = 0;
    while i < n
        invariant
            n == a@.len(),
            n == b@.len(),
            i <= n,
            forall|j: int| 0 <= j < i ==> a@[j] == b@[j],
        decreases n - i,
    {
        if a.get_char(i) != b.get_char(i) {
            return false;
        }
        i = i + 1;
    }
    assert(a@ =~= b@);
    true
}

} // verus!
