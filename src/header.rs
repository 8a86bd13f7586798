use vstd::prelude::*;

verus! {

/// Unicode `White_Space`, the set that `char::is_whitespace` tests.
pub open spec fn is_ws(c: char) -> bool {
    let u = c as u32;
    (9 <= u <= 13) || u == 32 || u == 0x85 || u == 0xA0 || u == 0x1680 || (0x2000 <= u
        <= 0x200A) || u == 0x2028 || u == 0x2029 || u == 0x202F || u == 0x205F || u == 0x3000
}

/// The first index at or after `i` that holds no whitespace (or the length).
pub open spec fn skip_ws(s: Seq<char>, i: int) -> int
    decreases s.len() - i,
{
    if i >= s.len() {
        s.len() as int
    } else if is_ws(s[i]) {
        skip_ws(s, i + 1)
    } else {
        i
    }
}

/// The first index at or after `i` that holds whitespace (or the length).
pub open spec fn word_end(s: Seq<char>, i: int) -> int
    decreases s.len() - i,
{
    if i >= s.len() {
        s.len() as int
    } else if is_ws(s[i]) {
        i
    } else {
        word_end(s, i + 1)
    }
}

/// Bounds of the first whitespace-separated word at or after `i`, if any.
pub open spec fn word_at(s: Seq<char>, i: int) -> Option<(int, int)> {
    let start = skip_ws(s, i);
    if start >= s.len() {
        None
    } else {
        Some((start, word_end(s, start)))
    }
}

pub open spec fn token_word() -> Seq<char> {
    seq!['t', 'o', 'k', 'e', 'n']
}

pub open spec fn key_prefix() -> Seq<char> {
    seq!['k', 'e', 'y', ' ']
}

pub open spec fn bearer_prefix() -> Seq<char> {
    seq!['B', 'e', 'a', 'r', 'e', 'r', ' ']
}

pub open spec fn has_prefix(s: Seq<char>, p: Seq<char>) -> bool {
    p.len() <= s.len() && s.subrange(0, p.len() as int) == p
}

/// A header value read as a key: the second word after `key ` or `Bearer `, else the
/// whole value.
pub open spec fn parse_key_spec(s: Seq<char>) -> Option<Seq<char>> {
    if has_prefix(s, key_prefix()) || has_prefix(s, bearer_prefix()) {
        match word_at(s, 0) {
            Some((a, b)) => match word_at(s, b) {
                Some((c, d)) => Some(s.subrange(c, d)),
                None => None,
            },
            None => None,
        }
    } else {
        Some(s)
    }
}

/// A header value read as a key or a token: `token X` is a token, `<any> X` and a lone
/// word `X` are keys. The flag is true for a token.
pub open spec fn parse_spec(s: Seq<char>) -> Option<(bool, Seq<char>)> {
    match word_at(s, 0) {
        None => None,
        Some((a, b)) => match word_at(s, b) {
            Some((c, d)) => Some((s.subrange(a, b) == token_word(), s.subrange(c, d))),
            None => Some((false, s.subrange(a, b))),
        },
    }
}

/// The credential presented with a request.
#[derive(Debug)]
pub enum HeaderAuth {
    Key(String),
    Token(String),
}

impl Clone for HeaderAuth {
    fn clone(&self) -> (r: Self)
        ensures
            r == *self,
    {
        match self {
            HeaderAuth::Key(v) => HeaderAuth::Key(v.clone()),
            HeaderAuth::Token(v) => HeaderAuth::Token(v.clone()),
        }
    }
}

pub fn is_white_space(c: char) -> (r: bool)
    ensures
        r == is_ws(c),
{
    let u = c as u32;
    (9 <= u && u <= 13) || u == 32 || u == 0x85 || u == 0xA0 || u == 0x1680 || (0x2000 <= u
        && u <= 0x200A) || u == 0x2028 || u == 0x2029 || u == 0x202F || u == 0x205F || u
        == 0x3000
}

fn skip_ws_from(s: &str, n: usize, i: usize) -> (r: usize)
    requires
        n == s@.len(),
        i <= n,
    ensures
        r == skip_ws(s@, i as int),
        i <= r <= n,
{
    let mut j = i;
    while j < n && is_white_space(s.get_char(j))
        invariant
            n == s@.len(),
            i <= j <= n,
            skip_ws(s@, j as int) == skip_ws(s@, i as int),
        decreases n - j,
    {
        j = j + 1;
    }
    j
}

fn word_end_from(s: &str, n: usize, i: usize) -> (r: usize)
    requires
        n == s@.len(),
        i <= n,
    ensures
        r == word_end(s@, i as int),
        i <= r <= n,
{
    let mut j = i;
    while j < n && !is_white_space(s.get_char(j))
        invariant
            n == s@.len(),
            i <= j <= n,
            word_end(s@, j as int) == word_end(s@, i as int),
        decreases n - j,
    {
        j = j + 1;
    }
    j
}


proof fn lemma_skip_ws(s: Seq<char>, i: int)
    requires
        0 <= i <= s.len(),
    ensures
        i <= skip_ws(s, i) <= s.len(),
        skip_ws(s, i) < s.len() ==> !is_ws(s[skip_ws(s, i)]),
    decreases s.len() - i,
{
    if i < s.len() && is_ws(s[i]) {
        lemma_skip_ws(s, i + 1);
    }
}

proof fn lemma_word_end(s: Seq<char>, i: int)
    requires
        0 <= i <= s.len(),
    ensures
        i <= word_end(s, i) <= s.len(),
    decreases s.len() - i,
{
    if i < s.len() && !is_ws(s[i]) {
        lemma_word_end(s, i + 1);
    }
}

/// Bounds of the word at or after `i`, if any.
fn next_word(s: &str, n: usize, i: usize) -> (r: Option<(usize, usize)>)
    requires
        n == s@.len(),
        i <= n,
    ensures
        match r {
            Some((a, b)) => word_at(s@, i as int) == Some((a as int, b as int)) && i <= a < b
                <= n,
            None => word_at(s@, i as int) is None,
        },
{
    let a = skip_ws_from(s, n, i);
    if a >= n {
        None
    } else {
        let b = word_end_from(s, n, a);
        proof {
            lemma_skip_ws(s@, i as int);
            lemma_word_end(s@, a as int + 1);
        }
        Some((a, b))
    }
}

fn starts_with(s: &str, p: &str) -> (r: bool)
    ensures
        r == has_prefix(s@, p@),
{
    let n = s.unicode_len();
    let m = p.unicode_len();
    if m > n {
        return false;
    }
    let mut i: usize = 0;
    while i < m
        invariant
            n == s@.len(),
            m == p@.len(),
            m <= n,
            i <= m,
            forall|k: int| 0 <= k < i ==> s@[k] == p@[k],
        decreases m - i,
    {
        if s.get_char(i) != p.get_char(i) {
            assert(s@.subrange(0, m as int)[i as int] != p@[i as int]);
            return false;
        }
        i = i + 1;
    }
    assert(s@.subrange(0, m as int) =~= p@);
    true
}

fn is_token_word(s: &str, a: usize, b: usize) -> (r: bool)
    requires
        a <= b <= s@.len(),
    ensures
        r == (s@.subrange(a as int, b as int) == token_word()),
{
    let w = s.substring_char(a, b);
    let t = "token";
    proof {
        reveal_strlit("token");
    }
    assert(t@ =~= token_word());
    let n = w.unicode_len();
    if n != 5 {
        return false;
    }
    let mut i: usize = 0;
    while i < 5
        invariant
            w@ == s@.subrange(a as int, b as int),
            w@.len() == 5,
            t@ == token_word(),
            i <= 5,
            forall|k: int| 0 <= k < i ==> w@[k] == t@[k],
        decreases 5 - i,
    {
        if w.get_char(i) != t.get_char(i) {
            return false;
        }
        i = i + 1;
    }
    assert(w@ =~= t@);
    true
}

impl HeaderAuth {
    pub open spec fn spec_pair(&self) -> (bool, Seq<char>) {
        match self {
            HeaderAuth::Key(v) => (false, v@),
            HeaderAuth::Token(v) => (true, v@),
        }
    }

    /// Parse header value, returns key value.
    /// Formats: `$KEY`, `key $KEY`, `Bearer $KEY`
    pub fn parse_key(value: &str) -> (r: Option<String>)
        ensures
            match r {
                Some(k) => parse_key_spec(value@) == Some(k@),
                None => parse_key_spec(value@) is None,
            },
    {
        let key = "key ";
        let bearer = "Bearer ";
        proof {
            reveal_strlit("key ");
            reveal_strlit("Bearer ");
        }
        assert(key@ =~= key_prefix());
        assert(bearer@ =~= bearer_prefix());
        if starts_with(value, key) || starts_with(value, bearer) {
            let n = value.unicode_len();
            match next_word(value, n, 0) {
                Some((_a, b)) => match next_word(value, n, b) {
                    Some((c, d)) => Some(value.substring_char(c, d).to_owned()),
                    None => None,
                },
                None => None,
            }
        } else {
            Some(value.to_owned())
        }
    }

    /// Parse header value, extract key or token.
    /// Formats: `$KEY`, `key $KEY`, `token $TOKEN`
    pub fn parse(value: &str) -> (r: Option<Self>)
        ensures
            match r {
                Some(h) => parse_spec(value@) == Some(h.spec_pair()),
                None => parse_spec(value@) is None,
            },
    {
        let n = value.unicode_len();
        match next_word(value, n, 0) {
            None => None,
            Some((a, b)) => match next_word(value, n, b) {
                Some((c, d)) => {
                    let v = value.substring_char(c, d).to_owned();
                    if is_token_word(value, a, b) {
                        Some(HeaderAuth::Token(v))
                    } else {
                        Some(HeaderAuth::Key(v))
                    }
                },
                None => Some(HeaderAuth::Key(value.substring_char(a, b).to_owned())),
            },
        }
    }
}

} // verus!
