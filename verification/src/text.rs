//! Text building blocks: decimal and fixed-point numerals, ASCII lower-casing and
//! the trimming of leading dots.
use vstd::prelude::*;

verus! {

/// `String::push`: appends one character to the end of the string, as std documents.
#[verifier::external_body]
pub(crate) fn push_char(s: &mut String, c: char)
    ensures
        final(s)@ == old(s)@.push(c),
{
    s.push(c);
}

/// The character of a decimal digit.
pub open spec fn digit_char(d: nat) -> char {
    if d == 0 { '0' }
    else if d == 1 { '1' }
    else if d == 2 { '2' }
    else if d == 3 { '3' }
    else if d == 4 { '4' }
    else if d == 5 { '5' }
    else if d == 6 { '6' }
    else if d == 7 { '7' }
    else if d == 8 { '8' }
    else { '9' }
}

/// The decimal numeral of a natural number, without leading zeros.
pub open spec fn decimal(n: nat) -> Seq<char>
    decreases n,
{
    if n < 10 {
        seq![digit_char(n)]
    } else {
        decimal(n / 10).push(digit_char(n % 10))
    }
}

/// The decimal numeral of an integer, with a leading minus sign when it is negative.
pub open spec fn signed_decimal(i: int) -> Seq<char> {
    if i < 0 {
        seq!['-'] + decimal((-i) as nat)
    } else {
        decimal(i as nat)
    }
}

/// `10` to the power `k`.
pub open spec fn pow10(k: nat) -> nat
    decreases k,
{
    if k == 0 { 1 } else { 10 * pow10((k - 1) as nat) }
}

/// `k` copies of the character `'0'`.
pub open spec fn zeros(k: nat) -> Seq<char> {
    Seq::new(k, |i: int| '0')
}

/// The decimal numeral of `n`, with zeros in front of it up to `width` characters.
pub open spec fn zero_padded(n: nat, width: nat) -> Seq<char> {
    if decimal(n).len() < width {
        zeros((width - decimal(n).len()) as nat) + decimal(n)
    } else {
        decimal(n)
    }
}

/// The numeral of `v / 10^places` with exactly `places` digits after the point
/// (no point when `places` is zero): the value `1001` with two places is `10.01`.
pub open spec fn fixed_point(v: nat, places: nat) -> Seq<char> {
    if places == 0 {
        decimal(v)
    } else {
        decimal(v / pow10(places)) + seq!['.'] + zero_padded(v % pow10(places), places)
    }
}

/// An ASCII upper-case letter mapped to its lower-case letter; every other character unchanged.
pub open spec fn ascii_lower_char(c: char) -> char {
    if 'A' <= c && c <= 'Z' {
        ((c as u32) + 32) as char
    } else {
        c
    }
}

/// The string with each ASCII upper-case letter in lower case, as `str::to_ascii_lowercase`.
pub open spec fn ascii_lower(s: Seq<char>) -> Seq<char> {
    s.map_values(|c: char| ascii_lower_char(c))
}

/// The number of leading `'.'` characters of `s`.
pub open spec fn leading_dots(s: Seq<char>) -> nat
    decreases s.len(),
{
    if s.len() > 0 && s[0] == '.' {
        1 + leading_dots(s.drop_first())
    } else {
        0
    }
}

/// `s` without its leading `'.'` characters, as `str::trim_start_matches('.')`.
pub open spec fn trim_leading_dots(s: Seq<char>) -> Seq<char> {
    s.skip(leading_dots(s) as int)
}

pub proof fn lemma_leading_dots_bound(s: Seq<char>)
    ensures
        leading_dots(s) <= s.len(),
        forall|i: int| 0 <= i < leading_dots(s) ==> s[i] == '.',
        leading_dots(s) < s.len() ==> s[leading_dots(s) as int] != '.',
    decreases s.len(),
{
    if s.len() > 0 && s[0] == '.' {
        lemma_leading_dots_bound(s.drop_first());
        assert forall|i: int| 0 <= i < leading_dots(s) implies s[i] == '.' by {
            if i > 0 {
                assert(s[i] == s.drop_first()[i - 1]);
            }
        }
    }
}

proof fn lemma_leading_dots_unique(s: Seq<char>, k: nat)
    requires
        k <= s.len(),
        forall|i: int| 0 <= i < k ==> s[i] == '.',
        k < s.len() ==> s[k as int] != '.',
    ensures
        leading_dots(s) == k,
    decreases s.len(),
{
    if k > 0 {
        let t = s.drop_first();
        assert forall|i: int| 0 <= i < k - 1 implies t[i] == '.' by {
            assert(t[i] == s[i + 1]);
        }
        if k - 1 < t.len() {
            assert(t[k - 1] == s[k as int]);
        }
        lemma_leading_dots_unique(t, (k - 1) as nat);
    } else if s.len() > 0 {
        assert(s[0] != '.');
    }
}

proof fn lemma_decimal_len(n: nat)
    ensures
        decimal(n).len() >= 1,
    decreases n,
{
    if n >= 10 {
        lemma_decimal_len(n / 10);
    }
}

/// The character of the decimal digit `d`.
pub(crate) fn digit(d: u64) -> (c: char)
    requires
        d < 10,
    ensures
        c == digit_char(d as nat),
{
    match d {
        0 => '0',
        1 => '1',
        2 => '2',
        3 => '3',
        4 => '4',
        5 => '5',
        6 => '6',
        7 => '7',
        8 => '8',
        _ => '9',
    }
}

/// Appends the decimal numeral of `n`.
pub(crate) fn push_decimal(s: &mut String, n: u64)
    ensures
        final(s)@ == old(s)@ + decimal(n as nat),
    decreases n,
{
    if n >= 10 {
        push_decimal(s, n / 10);
    }
    push_char(s, digit(n % 10));
    proof {
        if n >= 10 {
            assert(old(s)@ + decimal(n as nat) == (old(s)@ + decimal((n / 10) as nat)).push(
                digit_char((n % 10) as nat),
            ));
        } else {
            assert(n % 10 == n);
        }
    }
}

/// The number of digits of the decimal numeral of `n`.
fn decimal_len(n: u64) -> (len: u64)
    ensures
        len == decimal(n as nat).len(),
        1 <= len <= 20,
    decreases n,
{
    if n < 10 {
        1
    } else {
        let l: u64 = decimal_len(n / 10);
        proof {
            assert(n / 10 < 0x1999_9999_9999_999a);
            if l == 20 {
                lemma_decimal_at_least((n / 10) as nat, 19);
                reveal_with_fuel(pow10, 20);
                assert(false);
            }
        }
        l + 1
    }
}

/// A numeral of at least `k + 1` digits stands for a number of at least `10^k`.
proof fn lemma_decimal_at_least(n: nat, k: nat)
    requires
        decimal(n).len() > k,
        k >= 1,
    ensures
        n >= pow10(k),
    decreases n,
{
    assert(n >= 10);
    if k == 1 {
        assert(pow10(1) == 10 * pow10(0));
    } else {
        lemma_decimal_at_least(n / 10, (k - 1) as nat);
        let q = n / 10;
        let p = pow10((k - 1) as nat);
        assert(10 * q >= 10 * p) by (nonlinear_arith)
            requires
                q >= p,
        ;
        assert(n >= 10 * q);
    }
}

/// `10^k` grows with `k`.
pub proof fn lemma_pow10_monotone(a: nat, b: nat)
    requires
        a <= b,
    ensures
        1 <= pow10(a) <= pow10(b),
    decreases b,
{
    if b > a {
        lemma_pow10_monotone(a, (b - 1) as nat);
    } else {
        lemma_pow10_positive(a);
    }
}

pub proof fn lemma_pow10_positive(a: nat)
    ensures
        pow10(a) >= 1,
    decreases a,
{
    if a > 0 {
        lemma_pow10_positive((a - 1) as nat);
    }
}

/// Appends `width` characters at least: the numeral of `n` with zeros in front.
pub(crate) fn push_zero_padded(s: &mut String, n: u64, width: u64)
    ensures
        final(s)@ == old(s)@ + zero_padded(n as nat, width as nat),
{
    let len = decimal_len(n);
    if len < width {
        let mut k: u64 = 0;
        while k < width - len
            invariant
                k <= width - len,
                len < width,
                s@ == old(s)@ + zeros(k as nat),
            decreases width - len - k,
        {
            push_char(s, '0');
            k = k + 1;
            proof {
                assert(zeros(k as nat) == zeros((k - 1) as nat).push('0'));
            }
        }
    }
    push_decimal(s, n);
    proof {
        if len < width {
            assert(s@ == old(s)@ + (zeros((width - len) as nat) + decimal(n as nat)));
        }
    }
}

/// `10^k` as a machine integer.
pub(crate) fn pow10_u64(k: u64) -> (p: u64)
    requires
        k <= 19,
    ensures
        p == pow10(k as nat),
        p >= 1,
    decreases k,
{
    if k == 0 {
        1
    } else {
        let q = pow10_u64(k - 1);
        proof {
            lemma_pow10_bound((k - 1) as nat);
        }
        10 * q
    }
}

proof fn lemma_pow10_bound(k: nat)
    requires
        k <= 18,
    ensures
        pow10(k) <= 1_000_000_000_000_000_000,
{
    lemma_pow10_monotone(k, 18);
    reveal_with_fuel(pow10, 19);
}

/// Appends the fixed-point numeral of `v` with `places` digits after the point.
pub(crate) fn push_fixed_point(s: &mut String, v: u64, places: u64)
    requires
        places <= 19,
    ensures
        final(s)@ == old(s)@ + fixed_point(v as nat, places as nat),
{
    if places == 0 {
        push_decimal(s, v);
    } else {
        let p = pow10_u64(places);
        push_decimal(s, v / p);
        push_char(s, '.');
        push_zero_padded(s, v % p, places);
        proof {
            assert(s@ == old(s)@ + (decimal((v / p) as nat) + seq!['.'] + zero_padded(
                (v % p) as nat,
                places as nat,
            )));
        }
    }
}

/// The decimal numeral of `n` as a new string.
pub fn decimal_string(n: u64) -> (s: String)
    ensures
        s@ == decimal(n as nat),
{
    let mut s = String::new();
    push_decimal(&mut s, n);
    proof {
        assert(s@ == Seq::<char>::empty() + decimal(n as nat));
    }
    s
}

/// The decimal numeral of a signed number as a new string.
pub fn signed_decimal_string(i: i64) -> (s: String)
    ensures
        s@ == signed_decimal(i as int),
{
    let mut s = String::new();
    if i < 0 {
        push_char(&mut s, '-');
        let m: u64 = if i == i64::MIN { 0x8000_0000_0000_0000 } else { (-i) as u64 };
        push_decimal(&mut s, m);
    } else {
        push_decimal(&mut s, i as u64);
        proof {
            assert(s@ == Seq::<char>::empty() + decimal(i as nat));
        }
    }
    s
}

/// The fixed-point numeral of `v / 10^places` as a new string.
pub fn fixed_point_string(v: u64, places: u64) -> (s: String)
    requires
        places <= 19,
    ensures
        s@ == fixed_point(v as nat, places as nat),
{
    let mut s = String::new();
    push_fixed_point(&mut s, v, places);
    proof {
        assert(s@ == Seq::<char>::empty() + fixed_point(v as nat, places as nat));
    }
    s
}

/// Appends `t` to `s`.
pub(crate) fn push_str(s: &mut String, t: &str)
    ensures
        final(s)@ == old(s)@ + t@,
{
    s.append(t);
}

/// The string with each ASCII upper-case letter in lower case.
pub fn to_ascii_lower(t: &str) -> (s: String)
    ensures
        s@ == ascii_lower(t@),
{
    let n = t.unicode_len();
    let mut s = String::new();
    let mut i: usize = 0;
    while i < n
        invariant
            n == t@.len(),
            i <= n,
            s@ == ascii_lower(t@.take(i as int)),
        decreases n - i,
    {
        let c = t.get_char(i);
        let lc = if 'A' <= c && c <= 'Z' {
            char_shift_lower(c)
        } else {
            c
        };
        push_char(&mut s, lc);
        proof {
            assert(t@.take((i + 1) as int) == t@.take(i as int).push(c));
        }
        i = i + 1;
    }
    proof {
        assert(t@.take(n as int) == t@);
    }
    s
}

/// The lower-case letter of an ASCII upper-case letter.
fn char_shift_lower(c: char) -> (l: char)
    requires
        'A' <= c && c <= 'Z',
    ensures
        l == ascii_lower_char(c),
{
    let b: u8 = (c as u32 + 32) as u8;
    b as char
}

/// `t` without its leading `'.'` characters.
pub fn trim_start_dots(t: &str) -> (s: String)
    ensures
        s@ == trim_leading_dots(t@),
{
    let n = t.unicode_len();
    let mut k: usize = 0;
    while k < n && t.get_char(k) == '.'
        invariant
            n == t@.len(),
            k <= n,
            forall|i: int| 0 <= i < k ==> t@[i] == '.',
        decreases n - k,
    {
        k = k + 1;
    }
    proof {
        lemma_leading_dots_unique(t@, k as nat);
    }
    let rest = t.substring_char(k, n);
    proof {
        assert(t@.subrange(k as int, n as int) == t@.skip(k as int));
    }
    String::from_str(rest)
}

} // verus!
