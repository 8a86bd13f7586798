use crate::error::{DriverError, DriverResult};
use crate::hex::{
    all_hex, hex_bytes, hex_fixed, hex_value, lemma_hex_bytes_injective, lemma_hex_bytes_len,
    lemma_hex_fixed, lemma_pow16_32, pow16, push_hex, push_hex_bytes, read_hex,
};
use crate::model::{Key, Service, User};
use vstd::prelude::*;

verus! {

/// The purpose a token was issued for.
#[derive(Debug, Clone, Copy, PartialEq, Eq, Structural)]
pub enum TokenKind {
    Access,
    Refresh,
    Register,
    ResetPassword,
    Revoke,
}

/// What a token states; only ever signed, never stored.
#[derive(Debug, Clone, Copy, PartialEq, Eq, Structural)]
pub struct TokenClaims {
    pub kind: TokenKind,
    /// The user.
    pub subject: u128,
    /// The service.
    pub audience: u128,
    pub issued_at: u64,
    pub expires_at: u64,
}

/// Characters of the payload: one digit of kind, then subject, audience, issue and expiry
/// times as 32, 32, 16 and 16 digits.
pub open spec fn payload_len() -> int {
    97
}

pub open spec fn kind_code(k: TokenKind) -> nat {
    match k {
        TokenKind::Access => 0,
        TokenKind::Refresh => 1,
        TokenKind::Register => 2,
        TokenKind::ResetPassword => 3,
        TokenKind::Revoke => 4,
    }
}

pub open spec fn kind_from_code(n: nat) -> TokenKind {
    if n == 0 {
        TokenKind::Access
    } else if n == 1 {
        TokenKind::Refresh
    } else if n == 2 {
        TokenKind::Register
    } else if n == 3 {
        TokenKind::ResetPassword
    } else {
        TokenKind::Revoke
    }
}

pub open spec fn payload_spec(c: TokenClaims) -> Seq<char> {
    hex_fixed(kind_code(c.kind), 1) + hex_fixed(c.subject as nat, 32) + hex_fixed(
        c.audience as nat,
        32,
    ) + hex_fixed(c.issued_at as nat, 16) + hex_fixed(c.expires_at as nat, 16)
}

/// HMAC-SHA1 of the UTF-8 bytes of `message` under the UTF-8 bytes of `key`.
pub uninterp spec fn hmac_sha1_of(key: Seq<char>, message: Seq<char>) -> Seq<u8>;

pub open spec fn signature_spec(key: Seq<char>, payload: Seq<char>) -> Seq<char> {
    hex_bytes(hmac_sha1_of(key, payload))
}

/// The compact token: payload, a dot, and the signature of the payload under the key value.
pub open spec fn token_spec(c: TokenClaims, key: Seq<char>) -> Seq<char> {
    payload_spec(c) + seq!['.'] + signature_spec(key, payload_spec(c))
}

/// The claims a token states, read without checking its signature.
pub open spec fn peek_spec(s: Seq<char>) -> Option<TokenClaims> {
    if s.len() > payload_len() && s[payload_len()] == '.' && all_hex(s.subrange(0, payload_len()))
        && hex_value(s.subrange(0, 1)) <= 4 {
        Some(
            TokenClaims {
                kind: kind_from_code(hex_value(s.subrange(0, 1))),
                subject: hex_value(s.subrange(1, 33)) as u128,
                audience: hex_value(s.subrange(33, 65)) as u128,
                issued_at: hex_value(s.subrange(65, 81)) as u64,
                expires_at: hex_value(s.subrange(81, 97)) as u64,
            },
        )
    } else {
        None
    }
}

/// A token is accepted for `kind`, service `audience` and user `subject` under a key value
/// when it is well formed, states exactly those, has not expired at `now`, and carries the
/// signature of its payload under that key value.
pub open spec fn verify_spec(
    s: Seq<char>,
    kind: TokenKind,
    audience: u128,
    subject: u128,
    key: Seq<char>,
    now: u64,
) -> bool {
    match peek_spec(s) {
        Some(c) => c.kind == kind && c.audience == audience && c.subject == subject && now
            < c.expires_at && s.subrange(payload_len() + 1, s.len() as int) == signature_spec(
            key,
            s.subrange(0, payload_len()),
        ),
        None => false,
    }
}

pub open spec fn saturating_add(a: u64, b: u64) -> u64 {
    if a + b > u64::MAX {
        u64::MAX
    } else {
        (a + b) as u64
    }
}

/// Relies on `hmac::Hmac<sha1::Sha1>`: the tag of `message` under `key`, twenty bytes.
/// HMAC accepts keys of any length, so creating the instance does not fail.
#[verifier::external_body]
fn hmac_sha1(key: &str, message: &str) -> (r: Vec<u8>)
    ensures
        r@ == hmac_sha1_of(key@, message@),
        r@.len() == 20,
{
    let mut mac = <hmac::Hmac<sha1::Sha1> as hmac::KeyInit>::new_from_slice(key.as_bytes())
        .expect("HMAC accepts keys of any length");
    hmac::Mac::update(&mut mac, message.as_bytes());
    hmac::Mac::finalize(mac).into_bytes().to_vec()
}

proof fn lemma_payload(c: TokenClaims)
    ensures
        payload_spec(c).len() == payload_len(),
        all_hex(payload_spec(c)),
        payload_spec(c).subrange(0, 1) == hex_fixed(kind_code(c.kind), 1),
        payload_spec(c).subrange(1, 33) == hex_fixed(c.subject as nat, 32),
        payload_spec(c).subrange(33, 65) == hex_fixed(c.audience as nat, 32),
        payload_spec(c).subrange(65, 81) == hex_fixed(c.issued_at as nat, 16),
        payload_spec(c).subrange(81, 97) == hex_fixed(c.expires_at as nat, 16),
{
    let k = hex_fixed(kind_code(c.kind), 1);
    let s = hex_fixed(c.subject as nat, 32);
    let a = hex_fixed(c.audience as nat, 32);
    let i = hex_fixed(c.issued_at as nat, 16);
    let e = hex_fixed(c.expires_at as nat, 16);
    lemma_hex_fixed(kind_code(c.kind), 1);
    lemma_hex_fixed(c.subject as nat, 32);
    lemma_hex_fixed(c.audience as nat, 32);
    lemma_hex_fixed(c.issued_at as nat, 16);
    lemma_hex_fixed(c.expires_at as nat, 16);
    let p = payload_spec(c);
    assert(p =~= k + s + a + i + e);
    assert(p.subrange(0, 1) =~= k);
    assert(p.subrange(1, 33) =~= s);
    assert(p.subrange(33, 65) =~= a);
    assert(p.subrange(65, 81) =~= i);
    assert(p.subrange(81, 97) =~= e);
    assert forall|j: int| 0 <= j < p.len() implies crate::hex::is_hex(#[trigger] p[j]) by {
        if j < 1 {
            assert(p[j] == k[j]);
        } else if j < 33 {
            assert(p[j] == s[j - 1]);
        } else if j < 65 {
            assert(p[j] == a[j - 33]);
        } else if j < 81 {
            assert(p[j] == i[j - 65]);
        } else {
            assert(p[j] == e[j - 81]);
        }
    }
}

/// Reading back an encoded token gives the claims it was made from.
pub proof fn lemma_peek_encoded(c: TokenClaims, key: Seq<char>)
    ensures
        peek_spec(token_spec(c, key)) == Some(c),
        token_spec(c, key).subrange(0, payload_len()) == payload_spec(c),
        token_spec(c, key).subrange(payload_len() + 1, token_spec(c, key).len() as int)
            == signature_spec(key, payload_spec(c)),
{
    lemma_payload(c);
    let t = token_spec(c, key);
    let p = payload_spec(c);
    assert(t.subrange(0, payload_len()) =~= p);
    assert(t.subrange(payload_len() + 1, t.len() as int) =~= signature_spec(key, p));
    assert(t.subrange(0, 1) =~= p.subrange(0, 1));
    assert(t.subrange(1, 33) =~= p.subrange(1, 33));
    assert(t.subrange(33, 65) =~= p.subrange(33, 65));
    assert(t.subrange(65, 81) =~= p.subrange(65, 81));
    assert(t.subrange(81, 97) =~= p.subrange(81, 97));
    lemma_pow16_32();
    reveal_with_fuel(pow16, 17);
    assert(pow16(1) == 16);
    assert(pow16(16) == 0x1_0000_0000_0000_0000);
    assert(t[payload_len()] == '.');
    lemma_hex_fixed(kind_code(c.kind), 1);
    lemma_hex_fixed(c.subject as nat, 32);
    lemma_hex_fixed(c.audience as nat, 32);
    lemma_hex_fixed(c.issued_at as nat, 16);
    lemma_hex_fixed(c.expires_at as nat, 16);
    vstd::arithmetic::div_mod::lemma_small_mod(kind_code(c.kind), 16);
    vstd::arithmetic::div_mod::lemma_small_mod(c.subject as nat, pow16(32));
    vstd::arithmetic::div_mod::lemma_small_mod(c.audience as nat, pow16(32));
    vstd::arithmetic::div_mod::lemma_small_mod(c.issued_at as nat, pow16(16));
    vstd::arithmetic::div_mod::lemma_small_mod(c.expires_at as nat, pow16(16));
    assert(kind_from_code(kind_code(c.kind)) == c.kind);
}

/// Round trip: a token verifies under the key, kind, service and user it was encoded with
/// exactly while it has not expired, and states the claims it was made from.
pub proof fn lemma_round_trip(c: TokenClaims, key: Seq<char>, now: u64)
    ensures
        peek_spec(token_spec(c, key)) == Some(c),
        verify_spec(token_spec(c, key), c.kind, c.audience, c.subject, key, now) == (now
            < c.expires_at),
{
    lemma_peek_encoded(c, key);
}

/// A token does not verify under a key whose signature of its payload differs, nor for
/// another kind, service or user.
pub proof fn lemma_other_key_rejected(
    c: TokenClaims,
    key: Seq<char>,
    other: Seq<char>,
    kind: TokenKind,
    audience: u128,
    subject: u128,
    now: u64,
)
    requires
        hmac_sha1_of(other, payload_spec(c)) != hmac_sha1_of(key, payload_spec(c)) || kind
            != c.kind || audience != c.audience || subject != c.subject,
    ensures
        !verify_spec(token_spec(c, key), kind, audience, subject, other, now),
{
    lemma_peek_encoded(c, key);
    let p = payload_spec(c);
    if signature_spec(other, p) == signature_spec(key, p) {
        lemma_hex_bytes_len(hmac_sha1_of(other, p));
        lemma_hex_bytes_len(hmac_sha1_of(key, p));
        lemma_hex_bytes_injective(hmac_sha1_of(other, p), hmac_sha1_of(key, p));
    }
}

fn kind_digit(k: TokenKind) -> (r: u128)
    ensures
        r as nat == kind_code(k),
{
    match k {
        TokenKind::Access => 0,
        TokenKind::Refresh => 1,
        TokenKind::Register => 2,
        TokenKind::ResetPassword => 3,
        TokenKind::Revoke => 4,
    }
}

fn kind_from_digit(n: u128) -> (r: TokenKind)
    ensures
        r == kind_from_code(n as nat),
{
    if n == 0 {
        TokenKind::Access
    } else if n == 1 {
        TokenKind::Refresh
    } else if n == 2 {
        TokenKind::Register
    } else if n == 3 {
        TokenKind::ResetPassword
    } else {
        TokenKind::Revoke
    }
}

fn payload(c: &TokenClaims) -> (r: String)
    ensures
        r@ == payload_spec(*c),
{
    let mut out = String::new();
    push_hex(&mut out, kind_digit(c.kind), 1);
    push_hex(&mut out, c.subject, 32);
    push_hex(&mut out, c.audience, 32);
    push_hex(&mut out, c.issued_at as u128, 16);
    push_hex(&mut out, c.expires_at as u128, 16);
    assert(out@ =~= payload_spec(*c));
    out
}

/// Signs the claims with a key value.
pub fn encode(c: &TokenClaims, key_value: &str) -> (r: String)
    ensures
        r@ == token_spec(*c, key_value@),
{
    let p = payload(c);
    let mac = hmac_sha1(key_value, p.as_str());
    let mut out = p.clone();
    let dot = ".";
    proof {
        reveal_strlit(".");
    }
    out.append(dot);
    push_hex_bytes(&mut out, &mac);
    assert(out@ =~= token_spec(*c, key_value@));
    out
}

/// Reads the claims of a token without checking its signature. What it returns locates the
/// key to verify with; it grants nothing.
pub fn peek(token: &str) -> (r: Option<TokenClaims>)
    ensures
        r == peek_spec(token@),
{
    let n = token.unicode_len();
    if n <= 97 || token.get_char(97) != '.' {
        return None;
    }
    let ghost s = token@;
    let k = read_hex(token, 0, 1);
    let sub = read_hex(token, 1, 32);
    let aud = read_hex(token, 33, 32);
    let iat = read_hex(token, 65, 16);
    let exp = read_hex(token, 81, 16);
    proof {
        let p = s.subrange(0, 97);
        assert(p.subrange(0, 1) =~= s.subrange(0, 1));
        assert(p.subrange(1, 33) =~= s.subrange(1, 33));
        assert(p.subrange(33, 65) =~= s.subrange(33, 65));
        assert(p.subrange(65, 81) =~= s.subrange(65, 81));
        assert(p.subrange(81, 97) =~= s.subrange(81, 97));
        if all_hex(p) {
            assert forall|j: int| 0 <= j < 1 implies crate::hex::is_hex(
                #[trigger] s.subrange(0, 1)[j],
            ) by {
                assert(s.subrange(0, 1)[j] == p[j]);
            }
            assert forall|j: int| 0 <= j < 32 implies crate::hex::is_hex(
                #[trigger] s.subrange(1, 33)[j],
            ) by {
                assert(s.subrange(1, 33)[j] == p[j + 1]);
            }
            assert forall|j: int| 0 <= j < 32 implies crate::hex::is_hex(
                #[trigger] s.subrange(33, 65)[j],
            ) by {
                assert(s.subrange(33, 65)[j] == p[j + 33]);
            }
            assert forall|j: int| 0 <= j < 16 implies crate::hex::is_hex(
                #[trigger] s.subrange(65, 81)[j],
            ) by {
                assert(s.subrange(65, 81)[j] == p[j + 65]);
            }
            assert forall|j: int| 0 <= j < 16 implies crate::hex::is_hex(
                #[trigger] s.subrange(81, 97)[j],
            ) by {
                assert(s.subrange(81, 97)[j] == p[j + 81]);
            }
        }
        if k.is_some() && sub.is_some() && aud.is_some() && iat.is_some() && exp.is_some() {
            assert forall|j: int| 0 <= j < 97 implies crate::hex::is_hex(#[trigger] p[j]) by {
                if j < 1 {
                    assert(p[j] == s.subrange(0, 1)[j]);
                } else if j < 33 {
                    assert(p[j] == s.subrange(1, 33)[j - 1]);
                } else if j < 65 {
                    assert(p[j] == s.subrange(33, 65)[j - 33]);
                } else if j < 81 {
                    assert(p[j] == s.subrange(65, 81)[j - 65]);
                } else {
                    assert(p[j] == s.subrange(81, 97)[j - 81]);
                }
            }
            crate::hex::lemma_hex_value_bound(s.subrange(65, 81));
            crate::hex::lemma_hex_value_bound(s.subrange(81, 97));
            reveal_with_fuel(pow16, 17);
            assert(pow16(16) == 0x1_0000_0000_0000_0000);
        }
    }
    match (k, sub, aud, iat, exp) {
        (Some(k), Some(sub), Some(aud), Some(iat), Some(exp)) => {
            if k > 4 {
                None
            } else {
                Some(
                    TokenClaims {
                        kind: kind_from_digit(k),
                        subject: sub,
                        audience: aud,
                        issued_at: iat as u64,
                        expires_at: exp as u64,
                    },
                )
            }
        },
        _ => None,
    }
}

/// Whether the text after the payload is the signature of the payload under the key
/// value; every character is compared whatever the first difference.
fn signature_matches(token: &str, n: usize, key_value: &str) -> (r: bool)
    requires
        n == token@.len(),
        n > 97,
    ensures
        r == (token@.subrange(98, n as int) == signature_spec(key_value@, token@.subrange(0, 97))),
{
    let p = token.substring_char(0, 97);
    let mac = hmac_sha1(key_value, p);
    let mut sig = String::new();
    push_hex_bytes(&mut sig, &mac);
    assert(sig@ =~= signature_spec(key_value@, token@.subrange(0, 97)));
    let m = sig.unicode_len();
    if n - 98 != m {
        return false;
    }
    let mut same = true;
    let mut i: usize = 0;
    while i < m
        invariant
            n == token@.len(),
            n > 97,
            m == sig@.len(),
            n - 98 == m,
            i <= m,
            same == (forall|j: int| 0 <= j < i ==> token@[98 + j] == sig@[j]),
        decreases m - i,
    {
        if token.get_char(98 + i) != sig.as_str().get_char(i) {
            same = false;
        }
        i = i + 1;
    }
    proof {
        let t = token@.subrange(98, n as int);
        if same {
            assert(t =~= sig@);
        } else {
            if t == sig@ {
                assert forall|j: int| 0 <= j < m implies token@[98 + j] == sig@[j] by {
                    assert(t[j] == token@[98 + j]);
                }
            }
        }
    }
    same
}

/// Checks a token against the kind the caller expects, the service, the user and the key
/// value that signs that user's tokens.
pub fn verify(
    token: &str,
    kind: TokenKind,
    audience: u128,
    subject: u128,
    key_value: &str,
    now: u64,
) -> (r: Option<TokenClaims>)
    ensures
        r is Some <==> verify_spec(token@, kind, audience, subject, key_value@, now),
        r is Some ==> r == peek_spec(token@),
{
    match peek(token) {
        None => None,
        Some(c) => {
            if c.kind != kind || c.audience != audience || c.subject != subject || now
                >= c.expires_at {
                None
            } else if signature_matches(token, token.unicode_len(), key_value) {
                Some(c)
            } else {
                None
            }
        },
    }
}

/// Builds and signs claims of `kind` for the user on the service with the user's token key,
/// issued at `now` and expiring `expires_in` seconds later (saturating). Returns the token
/// and its expiry.
pub fn encode_token(
    kind: TokenKind,
    service: &Service,
    user: &User,
    key: &Key,
    now: u64,
    expires_in: u64,
) -> (r: (String, u64))
    ensures
        r.1 == saturating_add(now, expires_in),
        r.0@ == token_spec(
            TokenClaims {
                kind,
                subject: user.id,
                audience: service.id,
                issued_at: now,
                expires_at: r.1,
            },
            key.value@,
        ),
{
    let expires_at = now.saturating_add(expires_in);
    let c = TokenClaims {
        kind,
        subject: user.id,
        audience: service.id,
        issued_at: now,
        expires_at,
    };
    (encode(&c, key.value.as_str()), expires_at)
}

/// Reads the user a token names without checking its signature, if it is addressed to the
/// service. Only used to locate the key to verify with.
pub fn decode_unsafe(token: &str, service_id: u128) -> (r: DriverResult<u128>)
    ensures
        r == match peek_spec(token@) {
            Some(c) => if c.audience == service_id {
                Ok(c.subject)
            } else {
                Err(DriverError::TokenInvalidOrExpired)
            },
            None => Err(DriverError::TokenInvalidOrExpired),
        },
{
    match peek(token) {
        Some(c) => if c.audience == service_id {
            Ok(c.subject)
        } else {
            Err(DriverError::TokenInvalidOrExpired)
        },
        None => Err(DriverError::TokenInvalidOrExpired),
    }
}

/// Checked decode of a token of `kind` for the user on the service, with the user's key.
/// Every failure is the same error.
pub fn decode(
    token: &str,
    kind: TokenKind,
    service: &Service,
    user: &User,
    key: &Key,
    now: u64,
) -> (r: DriverResult<TokenClaims>)
    ensures
        r is Ok <==> verify_spec(token@, kind, service.id, user.id, key.value@, now),
        r matches Ok(c) ==> peek_spec(token@) == Some(c),
        r matches Err(e) ==> e == DriverError::TokenInvalidOrExpired,
{
    match verify(token, kind, service.id, user.id, key.value.as_str(), now) {
        Some(c) => Ok(c),
        None => Err(DriverError::TokenInvalidOrExpired),
    }
}

} // verus!
