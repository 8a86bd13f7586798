use crate::error::{DriverError, DriverResult};
use crate::hex::{hex_bytes, lemma_hex_bytes_len, push_hex_bytes};
use crate::user::UserPasswordMeta;
use vstd::prelude::*;

verus! {

/// Version of the password hash format that new hashes are written in.
pub const USER_PASSWORD_HASH_VERSION: usize = 1;

/// User password minimum length.
pub const USER_PASSWORD_MIN_LEN: usize = 8;

/// User password maximum length.
pub const USER_PASSWORD_MAX_LEN: usize = 128;

/// Whether a stored PHC string can be read back as a hasher.
pub uninterp spec fn phc_readable(hash: Seq<char>) -> bool;

/// Whether a password matches a stored PHC string.
pub uninterp spec fn phc_accepts(hash: Seq<char>, password: Seq<char>) -> bool;

/// Whether a stored PHC string is older than the given format version.
pub uninterp spec fn phc_outdated(hash: Seq<char>, version: nat) -> bool;

/// SHA-1 digest of the UTF-8 bytes of a text.
pub uninterp spec fn sha1_of(text: Seq<char>) -> Seq<u8>;

/// The string is a PHC hash that this library's hashing produced.
pub uninterp spec fn phc_produced(hash: Seq<char>) -> bool;

/// Whether a password, once normalised, can be hashed within the length bounds.
pub uninterp spec fn phc_hashable(password: Seq<char>, min_len: nat, max_len: nat) -> bool;

/// Whether a text is a usable base32 TOTP key.
pub uninterp spec fn totp_key_readable(key: Seq<char>) -> bool;

/// Relies on libreauth's `HashBuilder` (`version` adds one, so `version` stays below the
/// maximum) and `Hasher::hash`: a PHC string of the password in the given format version,
/// or `None` where the normalised password is outside the length bounds. The salt is
/// random, so of the string only what reading it back gives is stated: it reads, accepts
/// the password, and is not older than `version`.
#[verifier::external_body]
fn phc_hash(password: &str, version: usize, min_len: usize, max_len: usize) -> (r: Option<
    String,
>)
    requires
        version < usize::MAX,
    ensures
        r is Some <==> phc_hashable(password@, min_len as nat, max_len as nat),
        r matches Some(h) ==> phc_produced(h@) && phc_readable(h@) && phc_accepts(h@, password@) && !phc_outdated(
            h@,
            version as nat,
        ),
{
    libreauth::pass::HashBuilder::new().version(version).min_len(min_len).max_len(max_len)
        .finalize().ok()?.hash(password).ok()
}

/// Relies on libreauth's `HashBuilder::from_phc`, `Hasher::is_valid` and
/// `Hasher::needs_update`: `None` where the string cannot be read, else whether the
/// password matches and whether the string is older than `version` (`needs_update` adds
/// one to it, so `version` stays below the maximum). Only strings this library hashed are
/// admitted: `is_valid` unwraps argon2's refusal of parameters that a foreign string could
/// hold.
#[verifier::external_body]
fn phc_check(hash: &str, password: &str, version: usize) -> (r: Option<(bool, bool)>)
    requires
        version < usize::MAX,
        phc_produced(hash@),
    ensures
        r is Some <==> phc_readable(hash@),
        r matches Some(p) ==> p.0 == phc_accepts(hash@, password@) && p.1 == phc_outdated(
            hash@,
            version as nat,
        ),
{
    let hasher = libreauth::pass::HashBuilder::from_phc(hash).ok()?;
    Some((hasher.is_valid(password), hasher.needs_update(Some(version))))
}

/// Relies on `zxcvbn::zxcvbn` and `Entropy::score`: a score from 0 to 4, 0 for the empty
/// password. The score also depends on the current year, so no more is stated.
#[verifier::external_body]
fn zxcvbn_score(password: &str) -> (r: u8)
    ensures
        r <= 4,
        password@.len() == 0 ==> r == 0,
{
    u8::from(zxcvbn::zxcvbn(password, &[]).score())
}

/// Relies on `sha1::Sha1::digest`: the twenty-byte digest of the UTF-8 bytes of `text`.
#[verifier::external_body]
fn sha1_digest(text: &str) -> (r: Vec<u8>)
    ensures
        r@ == sha1_of(text@),
        r@.len() == 20,
{
    <sha1::Sha1 as sha1::Digest>::digest(text.as_bytes()).to_vec()
}

/// Relies on libreauth's `TOTPBuilder` (base32 key) and `TOTP::is_valid`: `None` where the
/// key cannot be read, else whether the code is valid now. Validity depends on the system
/// clock, so nothing is stated of it.
#[verifier::external_body]
fn totp_check(key: &str, code: &str) -> (r: Option<bool>)
    ensures
        r is Some <==> totp_key_readable(key@),
{
    let totp = libreauth::oath::TOTPBuilder::new().base32_key(key).finalize().ok()?;
    Some(totp.is_valid(code))
}

/// Whether a password can be hashed with the library's length bounds.
pub open spec fn password_hashable(password: Seq<char>) -> bool {
    phc_hashable(password, USER_PASSWORD_MIN_LEN as nat, USER_PASSWORD_MAX_LEN as nat)
}

/// Hashes a password in the current format version with the library's length bounds. The
/// hash verifies the password it was made from and needs no rewrite.
pub fn hash_password(password: &str) -> (r: DriverResult<String>)
    ensures
        r is Ok <==> password_hashable(password@),
        r matches Ok(h) ==> phc_produced(h@) && password_check_spec(Some(h@), password@) == Ok::<
            bool,
            DriverError,
        >(false),
        r matches Err(e) ==> e == DriverError::PasswordHash,
{
    match phc_hash(password, USER_PASSWORD_HASH_VERSION, USER_PASSWORD_MIN_LEN, USER_PASSWORD_MAX_LEN) {
        Some(h) => Ok(h),
        None => Err(DriverError::PasswordHash),
    }
}

/// The outcome of checking a password against an optional stored hash: whether it must be
/// rehashed, or why it was refused.
pub open spec fn password_check_spec(hash: Option<Seq<char>>, password: Seq<char>) -> DriverResult<
    bool,
> {
    match hash {
        None => Err(DriverError::UserPasswordUndefined),
        Some(h) => if !phc_readable(h) {
            Err(DriverError::PasswordHash)
        } else if !phc_accepts(h, password) {
            Err(DriverError::UserPasswordIncorrect)
        } else {
            Ok(phc_outdated(h, USER_PASSWORD_HASH_VERSION as nat))
        },
    }
}

pub open spec fn opt_chars(p: Option<&str>) -> Option<Seq<char>> {
    match p {
        Some(p) => Some(p@),
        None => None,
    }
}

pub open spec fn opt_bytes(b: Option<&[u8]>) -> Option<Seq<u8>> {
    match b {
        Some(b) => Some(b@),
        None => None,
    }
}

/// No hash, or one this library produced.
pub open spec fn produced_or_none(hash: Option<String>) -> bool {
    hash matches Some(h) ==> phc_produced(h@)
}

pub open spec fn opt_view(s: Option<String>) -> Option<Seq<char>> {
    match s {
        Some(v) => Some(v@),
        None => None,
    }
}

/// Checks a password against an optional stored hash.
pub(crate) fn password_check(hash: &Option<String>, password: &str) -> (r: DriverResult<bool>)
    requires
        produced_or_none(*hash),
    ensures
        r == password_check_spec(opt_view(*hash), password@),
{
    match hash {
        None => Err(DriverError::UserPasswordUndefined),
        Some(h) => match phc_check(h.as_str(), password, USER_PASSWORD_HASH_VERSION) {
            None => Err(DriverError::PasswordHash),
            Some((valid, outdated)) => if valid {
                Ok(outdated)
            } else {
                Err(DriverError::UserPasswordIncorrect)
            },
        },
    }
}

/// Verifies a TOTP code with a base32 key against the current time. A key that cannot be
/// read always fails; otherwise the clock decides.
pub fn totp_verify(key: &str, code: &str) -> (r: DriverResult<()>)
    ensures
        !totp_key_readable(key@) ==> r == Err::<(), DriverError>(DriverError::TotpInvalid),
        r matches Err(e) ==> e == DriverError::TotpInvalid,
{
    totp_outcome(totp_check(key, code))
}

/// The result of a TOTP check: `None` for a key that cannot be read, else whether the code
/// was valid.
pub fn totp_outcome(check: Option<bool>) -> (r: DriverResult<()>)
    ensures
        r == match check {
            Some(true) => Ok::<(), DriverError>(()),
            _ => Err(DriverError::TotpInvalid),
        },
{
    match check {
        Some(true) => Ok(()),
        _ => Err(DriverError::TotpInvalid),
    }
}

/// Upper-case hexadecimal form of a digest, as the breach index writes it.
pub open spec fn upper(c: char) -> char {
    if 'a' <= c && c <= 'f' {
        ((c as u32) - 32) as char
    } else {
        c
    }
}

pub open spec fn upper_hex(b: Seq<u8>) -> Seq<char> {
    hex_bytes(b).map_values(|c: char| upper(c))
}

/// SHA-1 of the password in upper-case hexadecimal: the first five characters are sent to
/// the breach index, the other thirty-five are compared with its answer.
pub open spec fn pwned_hash_spec(password: Seq<char>) -> Seq<char> {
    upper_hex(sha1_of(password))
}

fn to_upper_hex(b: &Vec<u8>) -> (r: Vec<char>)
    ensures
        r@ == upper_hex(b@),
{
    let mut s = String::new();
    push_hex_bytes(&mut s, b);
    let n = s.unicode_len();
    let mut out: Vec<char> = Vec::new();
    let mut i: usize = 0;
    while i < n
        invariant
            n == s@.len(),
            s@ == hex_bytes(b@),
            i <= n,
            out@ == s@.subrange(0, i as int).map_values(|c: char| upper(c)),
        decreases n - i,
    {
        let c = s.as_str().get_char(i);
        let u = if 'a' <= c && c <= 'f' {
            char_from_u32((c as u32) - 32)
        } else {
            c
        };
        out.push(u);
        i = i + 1;
        assert(out@ =~= s@.subrange(0, i as int).map_values(|c: char| upper(c)));
    }
    assert(s@.subrange(0, n as int) =~= s@);
    out
}

fn char_from_u32(u: u32) -> (r: char)
    requires
        0x41 <= u <= 0x46,
    ensures
        r == u as char,
{
    if u == 0x41 {
        'A'
    } else if u == 0x42 {
        'B'
    } else if u == 0x43 {
        'C'
    } else if u == 0x44 {
        'D'
    } else if u == 0x45 {
        'E'
    } else {
        'F'
    }
}

/// The upper-case SHA-1 of a password, forty characters.
pub fn pwned_hash(password: &str) -> (r: Vec<char>)
    ensures
        r@ == pwned_hash_spec(password@),
        r@.len() == 40,
{
    let d = sha1_digest(password);
    proof {
        lemma_hex_bytes_len(d@);
    }
    to_upper_hex(&d)
}

/// The five-character range prefix that the breach index is asked for.
pub fn pwned_range_prefix(password: &str) -> (r: Vec<char>)
    ensures
        r@ == pwned_hash_spec(password@).subrange(0, 5),
{
    let h = pwned_hash(password);
    let mut out: Vec<char> = Vec::new();
    let mut i: usize = 0;
    while i < 5
        invariant
            h@ == pwned_hash_spec(password@),
            h@.len() == 40,
            i <= 5,
            out@ == h@.subrange(0, i as int),
        decreases 5 - i,
    {
        out.push(h[i]);
        i = i + 1;
        assert(out@ =~= h@.subrange(0, i as int));
    }
    out
}

/// A line of the answer starts at `p` with `suffix`.
pub open spec fn line_starts_with(body: Seq<u8>, p: int, suffix: Seq<char>) -> bool {
    (p == 0 || body[p - 1] == 10) && p + suffix.len() <= body.len() && forall|j: int|
        0 <= j < suffix.len() ==> #[trigger] body[p + j] as u32 == suffix[j] as u32
}

/// Whether the answer of the breach index for the range lists the password: some line
/// starts with the last thirty-five characters of its hash.
pub open spec fn pwned_in_range_spec(hash: Seq<char>, body: Seq<u8>) -> bool {
    exists|p: int| 0 <= p <= body.len() && #[trigger] line_starts_with(body, p, hash.subrange(5, 40))
}

fn line_matches(hash: &Vec<char>, body: &[u8], p: usize) -> (r: bool)
    requires
        hash@.len() == 40,
        p <= body@.len(),
    ensures
        r == line_starts_with(body@, p as int, hash@.subrange(5, 40)),
{
    let n = body.len();
    if !(p == 0 || body[p - 1] == 10) || n - p < 35 {
        return false;
    }
    let mut j: usize = 0;
    while j < 35
        invariant
            hash@.len() == 40,
            n == body@.len(),
            p + 35 <= n,
            p == 0 || body@[p - 1] == 10,
            j <= 35,
            forall|k: int| 0 <= k < j ==> #[trigger] body@[p + k] as u32 == hash@.subrange(
                5,
                40,
            )[k] as u32,
        decreases 35 - j,
    {
        if body[p + j] as u32 != hash[5 + j] as u32 {
            assert(body@[p + j] as u32 != hash@.subrange(5, 40)[j as int] as u32);
            return false;
        }
        j = j + 1;
    }
    true
}

/// Whether the answer of the breach index lists the password whose upper-case SHA-1 is
/// `hash`.
pub fn pwned_in_range(hash: &Vec<char>, body: &[u8]) -> (r: bool)
    requires
        hash@.len() == 40,
    ensures
        r == pwned_in_range_spec(hash@, body@),
{
    let n = body.len();
    let mut p: usize = 0;
    while p <= n
        invariant
            hash@.len() == 40,
            n == body@.len(),
            p <= n + 1,
            forall|q: int| 0 <= q < p ==> !#[trigger] line_starts_with(body@, q, hash@.subrange(5, 40)),
        decreases n + 1 - p,
    {
        if line_matches(hash, body, p) {
            assert(line_starts_with(body@, p as int, hash@.subrange(5, 40)));
            return true;
        }
        if p == n {
            assert(forall|q: int| 0 <= q <= n ==> !#[trigger] line_starts_with(body@, q, hash@.subrange(5, 40)));
            return false;
        }
        p = p + 1;
    }
    false
}

/// Password strength and breach metadata; advisory only.
///
/// An empty password scores 0 and counts as breached. Without a password nothing is
/// reported. The strength is the estimator's score, from 0 to 4. Breach data is reported
/// only where checking is enabled and the range answer could be fetched.
pub fn password_meta(enabled: bool, password: Option<&str>, range_body: Option<&[u8]>) -> (r:
    DriverResult<UserPasswordMeta>)
    ensures
        exists|score: u8|
            score <= 4 && r == Ok::<UserPasswordMeta, DriverError>(
                #[trigger] password_meta_spec(enabled, opt_chars(password), score, opt_bytes(range_body)),
            ),
        r matches Ok(m) ==> (m.password_strength matches Some(x) ==> x <= 4),
{
    let score = match password {
        Some(p) => zxcvbn_score(p),
        None => 0,
    };
    Ok(password_meta_scored(enabled, password, score, range_body))
}

/// Password metadata for a given strength score.
pub fn password_meta_scored(
    enabled: bool,
    password: Option<&str>,
    score: u8,
    range_body: Option<&[u8]>,
) -> (r: UserPasswordMeta)
    ensures
        r == password_meta_spec(
            enabled,
            match password {
                Some(p) => Some(p@),
                None => None,
            },
            score,
            match range_body {
                Some(b) => Some(b@),
                None => None,
            },
        ),
{
    match password {
        None => UserPasswordMeta::default(),
        Some(p) => {
            if p.unicode_len() == 0 {
                UserPasswordMeta::invalid()
            } else {
                let password_pwned = if enabled {
                    match range_body {
                        Some(body) => {
                            let h = pwned_hash(p);
                            Some(pwned_in_range(&h, body))
                        },
                        None => None,
                    }
                } else {
                    None
                };
                UserPasswordMeta { password_strength: Some(score), password_pwned }
            }
        },
    }
}

pub open spec fn password_meta_spec(
    enabled: bool,
    password: Option<Seq<char>>,
    score: u8,
    range_body: Option<Seq<u8>>,
) -> UserPasswordMeta {
    match password {
        None => UserPasswordMeta { password_strength: None, password_pwned: None },
        Some(p) => if p.len() == 0 {
            UserPasswordMeta { password_strength: Some(0), password_pwned: Some(true) }
        } else {
            UserPasswordMeta {
                password_strength: Some(score),
                password_pwned: if enabled && range_body is Some {
                    Some(pwned_in_range_spec(pwned_hash_spec(p), range_body.unwrap()))
                } else {
                    None
                },
            }
        },
    }
}

} // verus!
