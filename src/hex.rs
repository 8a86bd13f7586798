use vstd::prelude::*;

verus! {

/// Lower-case hexadecimal digit for `d < 16`.
pub open spec fn hex_char(d: nat) -> char {
    if d == 0 { '0' }
    else if d == 1 { '1' }
    else if d == 2 { '2' }
    else if d == 3 { '3' }
    else if d == 4 { '4' }
    else if d == 5 { '5' }
    else if d == 6 { '6' }
    else if d == 7 { '7' }
    else if d == 8 { '8' }
    else if d == 9 { '9' }
    else if d == 10 { 'a' }
    else if d == 11 { 'b' }
    else if d == 12 { 'c' }
    else if d == 13 { 'd' }
    else if d == 14 { 'e' }
    else { 'f' }
}

pub open spec fn is_hex(c: char) -> bool {
    ('0' <= c && c <= '9') || ('a' <= c && c <= 'f')
}

pub open spec fn hex_val(c: char) -> nat {
    if c <= '9' {
        (c as int - '0' as int) as nat
    } else {
        (c as int - 'a' as int + 10) as nat
    }
}

pub open spec fn all_hex(s: Seq<char>) -> bool {
    forall|i: int| 0 <= i < s.len() ==> is_hex(#[trigger] s[i])
}

pub open spec fn pow16(n: nat) -> nat
    decreases n,
{
    if n == 0 {
        1
    } else {
        16 * pow16((n - 1) as nat)
    }
}

/// `x` modulo `16^n` as exactly `n` lower-case digits, most significant first.
pub open spec fn hex_fixed(x: nat, n: nat) -> Seq<char>
    decreases n,
{
    if n == 0 {
        Seq::empty()
    } else {
        hex_fixed(x / 16, (n - 1) as nat).push(hex_char(x % 16))
    }
}

/// The number that a string of hexadecimal digits denotes.
pub open spec fn hex_value(s: Seq<char>) -> nat
    decreases s.len(),
{
    if s.len() == 0 {
        0
    } else {
        hex_value(s.drop_last()) * 16 + hex_val(s.last())
    }
}

/// Two lower-case digits per byte.
pub open spec fn hex_bytes(b: Seq<u8>) -> Seq<char>
    decreases b.len(),
{
    if b.len() == 0 {
        Seq::empty()
    } else {
        hex_bytes(b.drop_last()) + hex_fixed(b.last() as nat, 2)
    }
}

pub proof fn lemma_hex_char(d: nat)
    requires
        d < 16,
    ensures
        is_hex(hex_char(d)),
        hex_val(hex_char(d)) == d,
{
}

pub proof fn lemma_pow16_pos(n: nat)
    ensures
        pow16(n) >= 1,
    decreases n,
{
    if n > 0 {
        lemma_pow16_pos((n - 1) as nat);
    }
}

pub proof fn lemma_pow16_mono(a: nat, b: nat)
    requires
        a <= b,
    ensures
        pow16(a) <= pow16(b),
    decreases b - a,
{
    if a < b {
        lemma_pow16_mono(a, (b - 1) as nat);
        lemma_pow16_pos((b - 1) as nat);
    }
}

pub proof fn lemma_pow16_32()
    ensures
        pow16(32) == 0x1_0000_0000_0000_0000_0000_0000_0000_0000,
{
    reveal_with_fuel(pow16, 33);
}

pub proof fn lemma_hex_fixed(x: nat, n: nat)
    ensures
        hex_fixed(x, n).len() == n,
        all_hex(hex_fixed(x, n)),
        hex_value(hex_fixed(x, n)) == x % pow16(n),
    decreases n,
{
    if n > 0 {
        let m = (n - 1) as nat;
        lemma_hex_fixed(x / 16, m);
        lemma_hex_char(x % 16);
        let s = hex_fixed(x, n);
        assert(s.drop_last() =~= hex_fixed(x / 16, m));
        lemma_pow16_pos(m);
        vstd::arithmetic::div_mod::lemma_mod_breakdown(x as int, 16, pow16(m) as int);
        assert(pow16(n) == 16 * pow16(m));
        assert(hex_value(s) == ((x / 16) % pow16(m)) * 16 + x % 16);
        assert(16 * ((x / 16) % pow16(m)) == ((x / 16) % pow16(m)) * 16) by (nonlinear_arith);
    }
}

pub proof fn lemma_hex_value_bound(s: Seq<char>)
    requires
        all_hex(s),
    ensures
        hex_value(s) < pow16(s.len()),
    decreases s.len(),
{
    if s.len() > 0 {
        let t = s.drop_last();
        assert(all_hex(t)) by {
            assert forall|i: int| 0 <= i < t.len() implies is_hex(#[trigger] t[i]) by {
                assert(t[i] == s[i]);
            }
        }
        lemma_hex_value_bound(t);
        assert(is_hex(s[s.len() - 1]));
        let v = hex_value(t);
        let p = pow16(t.len());
        assert(v * 16 + hex_val(s.last()) < p * 16) by (nonlinear_arith)
            requires
                v < p,
                hex_val(s.last()) < 16,
        ;
    }
}

pub proof fn lemma_hex_bytes_len(b: Seq<u8>)
    ensures
        hex_bytes(b).len() == 2 * b.len(),
    decreases b.len(),
{
    if b.len() > 0 {
        lemma_hex_bytes_len(b.drop_last());
        lemma_hex_fixed(b.last() as nat, 2);
    }
}

/// Distinct byte strings of one length have distinct hexadecimal forms.
pub proof fn lemma_hex_bytes_injective(a: Seq<u8>, b: Seq<u8>)
    requires
        a.len() == b.len(),
        hex_bytes(a) == hex_bytes(b),
    ensures
        a == b,
    decreases a.len(),
{
    if a.len() > 0 {
        let (a0, b0) = (a.drop_last(), b.drop_last());
        lemma_hex_bytes_len(a0);
        lemma_hex_bytes_len(b0);
        lemma_hex_fixed(a.last() as nat, 2);
        lemma_hex_fixed(b.last() as nat, 2);
        let ha = hex_bytes(a);
        let k = hex_bytes(a0).len() as int;
        assert(ha.subrange(0, k) =~= hex_bytes(a0));
        assert(hex_bytes(b).subrange(0, k) =~= hex_bytes(b0));
        assert(ha.subrange(k, k + 2) =~= hex_fixed(a.last() as nat, 2));
        assert(hex_bytes(b).subrange(k, k + 2) =~= hex_fixed(b.last() as nat, 2));
        reveal_with_fuel(pow16, 3);
        assert(pow16(2) == 256);
        assert(hex_fixed(a.last() as nat, 2) == hex_fixed(b.last() as nat, 2));
        assert((a.last() as nat) % 256 == (b.last() as nat) % 256);
        lemma_hex_bytes_injective(a0, b0);
        assert(a =~= a0.push(a.last()));
        assert(b =~= b0.push(b.last()));
    }
}

/// The digit for `d < 16`, as a one-character string.
pub fn hex_digit(d: u8) -> (r: &'static str)
    requires
        d < 16,
    ensures
        r@ == seq![hex_char(d as nat)],
{
    proof {
        reveal_strlit("0");
        reveal_strlit("1");
        reveal_strlit("2");
        reveal_strlit("3");
        reveal_strlit("4");
        reveal_strlit("5");
        reveal_strlit("6");
        reveal_strlit("7");
        reveal_strlit("8");
        reveal_strlit("9");
        reveal_strlit("a");
        reveal_strlit("b");
        reveal_strlit("c");
        reveal_strlit("d");
        reveal_strlit("e");
        reveal_strlit("f");
    }
    let r = if d == 0 { "0" }
    else if d == 1 { "1" }
    else if d == 2 { "2" }
    else if d == 3 { "3" }
    else if d == 4 { "4" }
    else if d == 5 { "5" }
    else if d == 6 { "6" }
    else if d == 7 { "7" }
    else if d == 8 { "8" }
    else if d == 9 { "9" }
    else if d == 10 { "a" }
    else if d == 11 { "b" }
    else if d == 12 { "c" }
    else if d == 13 { "d" }
    else if d == 14 { "e" }
    else { "f" };
    assert(r@ =~= seq![hex_char(d as nat)]);
    r
}

/// Appends the `n` low hexadecimal digits of `x`.
pub fn push_hex(out: &mut String, x: u128, n: usize)
    ensures
        final(out)@ == old(out)@ + hex_fixed(x as nat, n as nat),
    decreases n,
{
    if n > 0 {
        push_hex(out, x / 16, n - 1);
        out.append(hex_digit((x % 16) as u8));
        assert(final(out)@ =~= old(out)@ + hex_fixed(x as nat, n as nat));
    }
}

/// Appends two digits per byte.
pub fn push_hex_bytes(out: &mut String, b: &Vec<u8>)
    ensures
        final(out)@ == old(out)@ + hex_bytes(b@),
{
    let ghost start = out@;
    let mut i: usize = 0;
    while i < b.len()
        invariant
            i <= b@.len(),
            out@ == start + hex_bytes(b@.subrange(0, i as int)),
        decreases b@.len() - i,
    {
        push_hex(out, b[i] as u128, 2);
        proof {
            let s = b@.subrange(0, i as int + 1);
            assert(s.drop_last() =~= b@.subrange(0, i as int));
            assert(s.last() == b@[i as int]);
        }
        i = i + 1;
        assert(out@ =~= start + hex_bytes(b@.subrange(0, i as int)));
    }
    assert(b@.subrange(0, b@.len() as int) =~= b@);
}

pub fn is_hex_char(c: char) -> (r: bool)
    ensures
        r == is_hex(c),
{
    ('0' <= c && c <= '9') || ('a' <= c && c <= 'f')
}

fn hex_char_value(c: char) -> (r: u8)
    requires
        is_hex(c),
    ensures
        r as nat == hex_val(c),
        r < 16,
{
    if c <= '9' {
        ((c as u32) - ('0' as u32)) as u8
    } else {
        ((c as u32) - ('a' as u32) + 10) as u8
    }
}

/// Reads `len <= 32` hexadecimal digits of `s` from `start`.
pub fn read_hex(s: &str, start: usize, len: usize) -> (r: Option<u128>)
    requires
        start + len <= s@.len(),
        s@.len() <= usize::MAX,
        len <= 32,
    ensures
        match r {
            Some(v) => all_hex(s@.subrange(start as int, start + len)) && v as nat == hex_value(
                s@.subrange(start as int, start + len),
            ),
            None => !all_hex(s@.subrange(start as int, start + len)),
        },
{
    let mut acc: u128 = 0;
    let mut i: usize = 0;
    while i < len
        invariant
            start + len <= s@.len(),
            s@.len() <= usize::MAX,
            len <= 32,
            i <= len,
            all_hex(s@.subrange(start as int, start + i)),
            acc as nat == hex_value(s@.subrange(start as int, start + i)),
            acc < pow16(i as nat),
        decreases len - i,
    {
        let c = s.get_char(start + i);
        if !is_hex_char(c) {
            assert(s@.subrange(start as int, start + len)[i as int] == c);
            return None;
        }
        let d = hex_char_value(c);
        proof {
            let t = s@.subrange(start as int, start + i + 1);
            assert(t.drop_last() =~= s@.subrange(start as int, start + i));
            assert(t.last() == c);
            lemma_pow16_mono((i + 1) as nat, 32);
            lemma_pow16_32();
            assert(acc * 16 + d < pow16(i as nat) * 16) by (nonlinear_arith)
                requires
                    acc < pow16(i as nat),
                    d < 16,
            ;
            assert forall|k: int| 0 <= k < t.len() implies is_hex(#[trigger] t[k]) by {
                if k < i {
                    assert(t[k] == s@.subrange(start as int, start + i)[k]);
                }
            }
        }
        acc = acc * 16 + d as u128;
        i = i + 1;
    }
    Some(acc)
}

} // verus!
