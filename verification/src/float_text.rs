//! The fixed-point text of binary floating-point values, as Rust's `{:.N}` writes it:
//! the exact value of the float, rounded to `N` decimals with ties to even, with a
//! minus sign wherever the sign bit is set; `NaN`, `inf` and `-inf` otherwise.
//!
//! Values are taken as their IEEE 754 bit patterns, so that every step is integer
//! arithmetic on the exact value the float holds.
use vstd::prelude::*;
use crate::text::{
    decimal, digit, digit_char, fixed_point, pow10, pow10_u64, push_char, push_fixed_point,
    push_zero_padded, zero_padded,
};

verus! {

/// `2` to the power `k`.
pub open spec fn pow2n(k: nat) -> nat
    decreases k,
{
    if k == 0 { 1 } else { 2 * pow2n((k - 1) as nat) }
}

/// What a float holds.
pub enum FloatValue {
    /// The value `(-1)^negative * mantissa * 2^exponent`.
    Finite { negative: bool, mantissa: nat, exponent: int },
    Infinite { negative: bool },
    NotANumber,
}

/// The value of a double-precision bit pattern.
pub open spec fn f64_value(bits: u64) -> FloatValue {
    let negative = bits >= 0x8000_0000_0000_0000;
    let e = (bits / 0x10_0000_0000_0000) % 2048;
    let f = bits % 0x10_0000_0000_0000;
    if e == 2047 {
        if f == 0 {
            FloatValue::Infinite { negative }
        } else {
            FloatValue::NotANumber
        }
    } else if e == 0 {
        FloatValue::Finite { negative, mantissa: f as nat, exponent: -1074 }
    } else {
        FloatValue::Finite {
            negative,
            mantissa: (f + 0x10_0000_0000_0000) as nat,
            exponent: e - 1075,
        }
    }
}

/// The value of a single-precision bit pattern.
pub open spec fn f32_value(bits: u32) -> FloatValue {
    let negative = bits >= 0x8000_0000;
    let e = (bits / 0x80_0000) % 256;
    let f = bits % 0x80_0000;
    if e == 255 {
        if f == 0 {
            FloatValue::Infinite { negative }
        } else {
            FloatValue::NotANumber
        }
    } else if e == 0 {
        FloatValue::Finite { negative, mantissa: f as nat, exponent: -149 }
    } else {
        FloatValue::Finite { negative, mantissa: (f + 0x80_0000) as nat, exponent: e - 150 }
    }
}

/// `n / d` rounded to the nearest integer, ties to the even one.
pub open spec fn round_half_even(n: nat, d: nat) -> nat
    recommends
        d > 0,
{
    let q = n / d;
    let r = n % d;
    if 2 * r < d {
        q
    } else if 2 * r > d {
        q + 1
    } else if q % 2 == 0 {
        q
    } else {
        q + 1
    }
}

/// `mantissa * 2^exponent * 10^places`, rounded to an integer with ties to even.
pub open spec fn scaled_value(mantissa: nat, exponent: int, places: nat) -> nat {
    if exponent >= 0 {
        mantissa * pow2n(exponent as nat) * pow10(places)
    } else {
        round_half_even(mantissa * pow10(places), pow2n((-exponent) as nat))
    }
}

/// The text of a float with `places` decimals, as `{:.places}` writes it.
pub open spec fn float_fixed(v: FloatValue, places: nat) -> Seq<char> {
    match v {
        FloatValue::NotANumber => "NaN"@,
        FloatValue::Infinite { negative } => if negative {
            "-inf"@
        } else {
            "inf"@
        },
        FloatValue::Finite { negative, mantissa, exponent } => (if negative {
            "-"@
        } else {
            Seq::empty()
        }) + fixed_point(scaled_value(mantissa, exponent, places), places),
    }
}

/// Whether a double is a finite number greater than zero.
pub open spec fn f64_is_positive_finite(bits: u64) -> bool {
    0 < bits < 0x7ff0_0000_0000_0000
}

pub(crate) proof fn lemma_pow2n_positive(k: nat)
    ensures
        pow2n(k) >= 1,
    decreases k,
{
    if k > 0 {
        lemma_pow2n_positive((k - 1) as nat);
    }
}

pub(crate) proof fn lemma_pow2n_monotone(a: nat, b: nat)
    requires
        a <= b,
    ensures
        pow2n(a) <= pow2n(b),
    decreases b,
{
    if b > a {
        lemma_pow2n_monotone(a, (b - 1) as nat);
        lemma_pow2n_positive((b - 1) as nat);
    }
}

pub(crate) proof fn lemma_pow2n_adds(a: nat, b: nat)
    ensures
        pow2n(a + b) == pow2n(a) * pow2n(b),
    decreases b,
{
    if b > 0 {
        let b1 = (b - 1) as nat;
        lemma_pow2n_adds(a, b1);
        assert((a + b - 1) as nat == a + b1);
        assert(pow2n(a + b) == 2 * pow2n(a + b1));
        assert(pow2n(b) == 2 * pow2n(b1));
        let x = pow2n(a);
        let y = pow2n(b1);
        assert(x * (2 * y) == 2 * (x * y)) by (nonlinear_arith);
        assert(pow2n(a) * pow2n(b) == x * (2 * y));
    } else {
        assert(a + b == a);
        assert(pow2n(b) == 1);
        assert(pow2n(a) * 1 == pow2n(a));
    }
}

/// `2^k` for `k <= 61`.
fn pow2_u64(k: u64) -> (p: u64)
    requires
        k <= 61,
    ensures
        p == pow2n(k as nat),
{
    let mut p: u64 = 1;
    let mut i: u64 = 0;
    proof {
        reveal_with_fuel(pow2n, 62);
        assert(pow2n(61) == 0x2000_0000_0000_0000);
    }
    while i < k
        invariant
            i <= k <= 61,
            p == pow2n(i as nat),
            pow2n(i as nat) * pow2n((61 - i) as nat) == 0x2000_0000_0000_0000,
        decreases k - i,
    {
        proof {
            lemma_pow2n_adds(i as nat, (61 - i) as nat);
            assert(pow2n((61 - i) as nat) == 2 * pow2n((61 - i - 1) as nat));
            lemma_pow2n_positive((61 - i - 1) as nat);
            assert(p * 2 <= 0x2000_0000_0000_0000) by (nonlinear_arith)
                requires
                    p * (2 * pow2n((61 - i - 1) as nat)) == 0x2000_0000_0000_0000,
                    pow2n((61 - i - 1) as nat) >= 1,
                    p >= 0,
            ;
            lemma_pow2n_adds((i + 1) as nat, (61 - i - 1) as nat);
        }
        p = p * 2;
        i = i + 1;
    }
    p
}

/// `2^k` for `k <= 72`, as a 128-bit integer.
pub(crate) fn pow2_u128(k: u64) -> (p: u128)
    requires
        k <= 72,
    ensures
        p == pow2n(k as nat),
        p <= 0x100_0000_0000_0000_0000,
{
    let mut p: u128 = 1;
    let mut i: u64 = 0;
    proof {
        reveal_with_fuel(pow2n, 73);
        assert(pow2n(72) == 0x100_0000_0000_0000_0000);
    }
    while i < k
        invariant
            i <= k <= 72,
            p == pow2n(i as nat),
            pow2n(i as nat) * pow2n((72 - i) as nat) == 0x100_0000_0000_0000_0000,
        decreases k - i,
    {
        proof {
            lemma_pow2n_adds(i as nat, (72 - i) as nat);
            assert(pow2n((72 - i) as nat) == 2 * pow2n((72 - i - 1) as nat));
            lemma_pow2n_positive((72 - i - 1) as nat);
            assert(p * 2 <= 0x100_0000_0000_0000_0000) by (nonlinear_arith)
                requires
                    p * (2 * pow2n((72 - i - 1) as nat)) == 0x100_0000_0000_0000_0000,
                    pow2n((72 - i - 1) as nat) >= 1,
                    p >= 0,
            ;
            lemma_pow2n_adds((i + 1) as nat, (72 - i - 1) as nat);
        }
        p = p * 2;
        i = i + 1;
    }
    proof {
        lemma_pow2n_positive((72 - i) as nat);
        assert(p <= 0x100_0000_0000_0000_0000) by (nonlinear_arith)
            requires
                p * pow2n((72 - i) as nat) == 0x100_0000_0000_0000_0000,
                pow2n((72 - i) as nat) >= 1,
                p >= 0,
        ;
    }
    p
}

/// `n / 2^k` rounded with ties to even, for `n < 2^61`.
fn round_half_even_pow2(n: u64, k: u64) -> (q: u64)
    requires
        n < 0x2000_0000_0000_0000,
    ensures
        q == round_half_even(n as nat, pow2n(k as nat)),
{
    if k > 61 {
        proof {
            lemma_pow2n_monotone(62, k as nat);
            reveal_with_fuel(pow2n, 63);
            assert(pow2n(62) == 0x4000_0000_0000_0000);
            let d = pow2n(k as nat);
            assert(n as nat / d == 0) by (nonlinear_arith)
                requires
                    n < d,
            ;
            assert(n as nat % d == n) by (nonlinear_arith)
                requires
                    n < d,
            ;
        }
        0
    } else {
        let d = pow2_u64(k);
        proof {
            lemma_pow2n_positive(k as nat);
        }
        let q = n / d;
        let r = n % d;
        proof {
            assert(r < d);
            assert(q <= n) by (nonlinear_arith)
                requires
                    d >= 1,
                    q == n / d,
            ;
        }
        if r < d - r {
            q
        } else if r > d - r {
            q + 1
        } else if q % 2 == 0 {
            q
        } else {
            q + 1
        }
    }
}

/// The value of little-endian decimal digits.
pub open spec fn digits_value(ds: Seq<u8>) -> nat
    decreases ds.len(),
{
    if ds.len() == 0 {
        0
    } else {
        digits_value(ds.drop_last()) + (ds.last() as nat) * pow10((ds.len() - 1) as nat)
    }
}

/// The text of little-endian decimal digits, most significant first.
pub open spec fn digits_text(ds: Seq<u8>) -> Seq<char>
    decreases ds.len(),
{
    if ds.len() == 0 {
        Seq::empty()
    } else {
        digits_text(ds.drop_first()).push(digit_char(ds[0] as nat))
    }
}

/// Decimal digits: each below ten.
pub open spec fn are_digits(ds: Seq<u8>) -> bool {
    forall|i: int| 0 <= i < ds.len() ==> #[trigger] ds[i] < 10
}

proof fn lemma_digits_value_first(ds: Seq<u8>)
    requires
        ds.len() > 0,
    ensures
        digits_value(ds) == ds[0] as nat + 10 * digits_value(ds.drop_first()),
    decreases ds.len(),
{
    if ds.len() == 1 {
        assert(ds.drop_last().len() == 0);
        assert(ds.drop_first().len() == 0);
        assert(digits_value(ds.drop_last()) == 0);
        assert(digits_value(ds.drop_first()) == 0);
        assert(pow10(0) == 1);
        assert(ds.last() == ds[0]);
        assert(digits_value(ds) == (ds.last() as nat) * pow10(0));
    } else {
        let t = ds.drop_last();
        let u = ds.drop_first();
        let k = (ds.len() - 2) as nat;
        lemma_digits_value_first(t);
        assert(t[0] == ds[0]);
        assert(u.drop_last() =~= t.drop_first());
        assert(u.last() == ds.last());
        assert(u.len() - 1 == k);
        assert(digits_value(u) == digits_value(u.drop_last()) + (u.last() as nat) * pow10(k));
        assert((ds.len() - 1) as nat == k + 1);
        assert(pow10(k + 1) == 10 * pow10(k));
        assert(digits_value(ds) == digits_value(t) + (ds.last() as nat) * pow10(k + 1));
        let l = ds.last() as nat;
        let p = pow10(k);
        assert(10 * (l * p) == l * (10 * p)) by (nonlinear_arith);
    }
}

proof fn lemma_digits_value_top(ds: Seq<u8>)
    requires
        ds.len() > 0,
        ds.last() != 0,
    ensures
        digits_value(ds) >= pow10((ds.len() - 1) as nat),
{
    assert((ds.last() as nat) * pow10((ds.len() - 1) as nat) >= pow10((ds.len() - 1) as nat))
        by (nonlinear_arith)
        requires
            ds.last() >= 1,
    ;
}

proof fn lemma_digits_text_decimal(ds: Seq<u8>)
    requires
        ds.len() > 0,
        ds.last() != 0,
        are_digits(ds),
    ensures
        digits_text(ds) == decimal(digits_value(ds)),
    decreases ds.len(),
{
    lemma_digits_value_first(ds);
    let n = digits_value(ds);
    let rest = ds.drop_first();
    if ds.len() == 1 {
        assert(rest.len() == 0);
        assert(digits_text(rest) == Seq::<char>::empty());
        assert(n == ds[0] as nat);
    } else {
        assert(rest.last() == ds.last());
        assert(are_digits(rest)) by {
            assert forall|i: int| 0 <= i < rest.len() implies rest[i] < 10 by {
                assert(rest[i] == ds[i + 1]);
            }
        }
        lemma_digits_text_decimal(rest);
        lemma_digits_value_top(rest);
        crate::text::lemma_pow10_positive((rest.len() - 1) as nat);
        assert(ds[0] < 10);
        assert(n >= 10);
        assert(n / 10 == digits_value(rest));
        assert(n % 10 == ds[0] as nat);
    }
}

/// The little-endian decimal digits of a positive number.
fn digits_of(m: u64) -> (ds: Vec<u8>)
    requires
        m > 0,
    ensures
        are_digits(ds@),
        ds@.len() > 0,
        ds@.last() != 0,
        digits_value(ds@) == m,
        ds@.len() <= 20,
{
    let mut ds: Vec<u8> = Vec::new();
    let mut n: u64 = m;
    proof {
        assert(pow10(0) == 1);
        assert(digits_value(ds@) == 0);
    }
    while n > 0
        invariant
            are_digits(ds@),
            digits_value(ds@) + pow10(ds@.len()) * n == m,
            n == 0 ==> ds@.len() > 0 && ds@.last() != 0,
            m > 0,
        decreases n,
    {
        let d: u8 = (n % 10) as u8;
        let ghost old_ds = ds@;
        let ghost k = old_ds.len();
        proof {
            assert(pow10(k + 1) == 10 * pow10(k));
            let p = pow10(k);
            assert(p * n == p * (n % 10) + (10 * p) * (n / 10)) by (nonlinear_arith)
                requires
                    n == 10 * (n / 10) + n % 10,
            ;
        }
        ds.push(d);
        proof {
            assert(ds@.drop_last() =~= old_ds);
            assert forall|i: int| 0 <= i < ds@.len() implies ds@[i] < 10 by {
                if i < k {
                    assert(ds@[i] == old_ds[i]);
                }
            }
            assert(ds@.last() == d);
            assert(ds@.len() - 1 == k);
            assert(digits_value(ds@) == digits_value(old_ds) + (d as nat) * pow10(k));
            let p = pow10(k);
            assert((d as nat) * p == p * ((n % 10) as nat)) by (nonlinear_arith)
                requires
                    d == n % 10,
            ;
        }
        n = n / 10;
    }
    proof {
        lemma_digits_value_top(ds@);
        if ds@.len() > 20 {
            crate::text::lemma_pow10_monotone(20, (ds@.len() - 1) as nat);
            reveal_with_fuel(pow10, 21);
            assert(pow10(20) == 100_000_000_000_000_000_000nat);
        }
    }
    ds
}

/// Doubles the number that little-endian decimal digits stand for.
fn double_digits(ds: &Vec<u8>) -> (out: Vec<u8>)
    requires
        are_digits(ds@),
        ds@.len() > 0,
        ds@.last() != 0,
        ds@.len() < 1000,
    ensures
        are_digits(out@),
        out@.len() > 0,
        out@.last() != 0,
        out@.len() <= ds@.len() + 1,
        digits_value(out@) == 2 * digits_value(ds@),
{
    let mut out: Vec<u8> = Vec::new();
    let mut carry: u8 = 0;
    let mut i: usize = 0;
    let ghost mut last_sum: nat = 0;
    while i < ds.len()
        invariant
            are_digits(ds@),
            i <= ds@.len(),
            out@.len() == i,
            are_digits(out@),
            carry <= 1,
            digits_value(out@) + (carry as nat) * pow10(i as nat) == 2 * digits_value(
                ds@.subrange(0, i as int),
            ),
            i > 0 ==> last_sum >= 2 * (ds@[i - 1] as nat) && last_sum < 20,
            i > 0 ==> out@.last() == last_sum % 10 && carry == last_sum / 10,
        decreases ds@.len() - i,
    {
        let d = ds[i];
        let sum: u8 = 2 * d + carry;
        let ghost old_out = out@;
        let ghost k = i as nat;
        proof {
            let pre = ds@.subrange(0, i as int);
            let pre1 = ds@.subrange(0, i + 1);
            assert(pre1.drop_last() =~= pre);
            assert(pre1.last() == d);
            assert(pre1.len() - 1 == k);
            assert(digits_value(pre1) == digits_value(pre) + (d as nat) * pow10(k));
            assert(pow10(k + 1) == 10 * pow10(k));
            let p = pow10(k);
            assert(((sum % 10) as nat) * p + ((sum / 10) as nat) * (10 * p) == (sum as nat) * p)
                by (nonlinear_arith)
                requires
                    sum == 10 * (sum / 10) + sum % 10,
            ;
            assert((sum as nat) * p == 2 * ((d as nat) * p) + (carry as nat) * p) by (nonlinear_arith)
                requires
                    sum == 2 * d + carry,
            ;
        }
        out.push(sum % 10);
        proof {
            assert(out@.drop_last() =~= old_out);
            assert(out@.len() - 1 == k);
            assert(digits_value(out@) == digits_value(old_out) + ((sum % 10) as nat) * pow10(k));
            assert forall|j: int| 0 <= j < out@.len() implies out@[j] < 10 by {
                if j < k {
                    assert(out@[j] == old_out[j]);
                }
            }
            last_sum = sum as nat;
        }
        carry = sum / 10;
        i = i + 1;
    }
    proof {
        assert(ds@.subrange(0, ds@.len() as int) == ds@);
    }
    if carry > 0 {
        let ghost old_out = out@;
        out.push(carry);
        proof {
            assert(out@.drop_last() =~= old_out);
            assert(digits_value(out@) == digits_value(old_out) + (carry as nat) * pow10(
                old_out.len(),
            ));
            assert forall|j: int| 0 <= j < out@.len() implies out@[j] < 10 by {
                if j < old_out.len() {
                    assert(out@[j] == old_out[j]);
                }
            }
        }
    } else {
        proof {
            assert(ds@[ds@.len() - 1] >= 1);
            assert(last_sum >= 2);
        }
    }
    out
}

/// Appends the decimal numeral of `m * 2^e`.
fn push_scaled_decimal(s: &mut String, m: u64, e: u64)
    requires
        m > 0,
        e <= 971,
    ensures
        final(s)@ == old(s)@ + decimal(m as nat * pow2n(e as nat)),
{
    let mut ds = digits_of(m);
    let mut i: u64 = 0;
    proof {
        assert(pow2n(0) == 1);
    }
    while i < e
        invariant
            i <= e <= 971,
            are_digits(ds@),
            ds@.len() > 0,
            ds@.last() != 0,
            ds@.len() <= 20 + i,
            digits_value(ds@) == m * pow2n(i as nat),
        decreases e - i,
    {
        let next = double_digits(&ds);
        proof {
            let x = m as nat;
            let y = pow2n(i as nat);
            assert(pow2n((i + 1) as nat) == 2 * y);
            assert(2 * (x * y) == x * (2 * y)) by (nonlinear_arith);
        }
        ds = next;
        i = i + 1;
    }
    let ghost start = s@;
    let mut k: usize = ds.len();
    proof {
        assert(ds@.skip(k as int).len() == 0);
        assert(digits_text(ds@.skip(k as int)) == Seq::<char>::empty());
        assert(start + Seq::<char>::empty() == start);
    }
    while k > 0
        invariant
            k <= ds@.len(),
            are_digits(ds@),
            s@ == start + digits_text(ds@.skip(k as int)),
        decreases k,
    {
        let d = ds[k - 1];
        proof {
            assert(ds@.skip(k - 1).drop_first() =~= ds@.skip(k as int));
            assert(ds@.skip(k - 1)[0] == d);
        }
        push_char(s, digit(d as u64));
        k = k - 1;
    }
    proof {
        assert(ds@.skip(0) =~= ds@);
        lemma_digits_text_decimal(ds@);
    }
}

/// Appends the text with `places` decimals of the finite value
/// `(-1)^negative * m * 2^exp`.
fn push_finite(s: &mut String, negative: bool, m: u64, exp: i64, places: u64)
    requires
        m < 0x20_0000_0000_0000,
        places <= 2,
        -1100 <= exp <= 971,
    ensures
        final(s)@ == old(s)@ + float_fixed(
            FloatValue::Finite { negative, mantissa: m as nat, exponent: exp as int },
            places as nat,
        ),
{
    let ghost start = s@;
    if negative {
        push_char(s, '-');
    }
    let ghost signed = s@;
    proof {
        if negative {
            assert(signed == start + "-"@) by {
                reveal_strlit("-");
            }
        } else {
            assert(signed == start + Seq::<char>::empty());
        }
    }
    let p = pow10_u64(places);
    proof {
        reveal_with_fuel(pow10, 3);
        if places == 0 {
            assert(p == 1);
        } else if places == 1 {
            assert(p == 10);
        } else {
            assert(p == 100);
        }
    }
    if exp >= 0 {
        let big_p: Ghost<nat> = Ghost(pow10(places as nat));
        if m == 0 {
            push_fixed_point(s, 0, places);
            proof {
                let y = pow2n(exp as nat);
                assert(0 * y * big_p@ == 0) by (nonlinear_arith);
            }
        } else {
            push_scaled_decimal(s, m, exp as u64);
            let ghost big = m as nat * pow2n(exp as nat);
            if places > 0 {
                push_char(s, '.');
                push_zero_padded(s, 0, places);
            }
            proof {
                let bp = big_p@;
                assert(bp >= 1);
                vstd::arithmetic::div_mod::lemma_div_multiples_vanish(big as int, bp as int);
                vstd::arithmetic::div_mod::lemma_mod_multiples_basic(big as int, bp as int);
                assert(bp * big == big * bp) by (nonlinear_arith);
                assert((big * bp) / bp == big);
                assert((big * bp) % bp == 0);
                if places == 0 {
                    assert(bp == 1);
                    assert(big * 1 == big);
                } else {
                    assert(s@ == signed + (decimal(big) + seq!['.'] + zero_padded(0, places as nat)));
                }
            }
        }
    } else {
        let k: u64 = (-exp) as u64;
        assert(m * p < 0x2000_0000_0000_0000) by (nonlinear_arith)
            requires
                m < 0x20_0000_0000_0000,
                p <= 100,
        ;
        let n: u64 = m * p;
        let q = round_half_even_pow2(n, k);
        push_fixed_point(s, q, places);
    }
}

/// The text of a double with `places` decimals, as `{:.places}` writes it.
pub fn f64_text(bits: u64, places: u64) -> (t: String)
    requires
        places <= 2,
    ensures
        t@ == float_fixed(f64_value(bits), places as nat),
{
    let negative = bits >= 0x8000_0000_0000_0000;
    let e: u64 = (bits / 0x10_0000_0000_0000) % 2048;
    let f: u64 = bits % 0x10_0000_0000_0000;
    let mut s = String::new();
    if e == 2047 {
        if f == 0 {
            if negative {
                return String::from_str("-inf");
            } else {
                return String::from_str("inf");
            }
        } else {
            return String::from_str("NaN");
        }
    } else if e == 0 {
        push_finite(&mut s, negative, f, -1074, places);
    } else {
        push_finite(&mut s, negative, f + 0x10_0000_0000_0000, (e as i64) - 1075, places);
    }
    proof {
        assert(Seq::<char>::empty() + float_fixed(f64_value(bits), places as nat) == float_fixed(
            f64_value(bits),
            places as nat,
        ));
    }
    s
}

/// The text of a single-precision float with `places` decimals, as `{:.places}` writes it.
pub fn f32_text(bits: u32, places: u64) -> (t: String)
    requires
        places <= 2,
    ensures
        t@ == float_fixed(f32_value(bits), places as nat),
{
    let negative = bits >= 0x8000_0000;
    let e: u32 = (bits / 0x80_0000) % 256;
    let f: u32 = bits % 0x80_0000;
    let mut s = String::new();
    if e == 255 {
        if f == 0 {
            if negative {
                return String::from_str("-inf");
            } else {
                return String::from_str("inf");
            }
        } else {
            return String::from_str("NaN");
        }
    } else if e == 0 {
        push_finite(&mut s, negative, f as u64, -149, places);
    } else {
        push_finite(&mut s, negative, (f + 0x80_0000) as u64, (e as i64) - 150, places);
    }
    proof {
        assert(Seq::<char>::empty() + float_fixed(f32_value(bits), places as nat) == float_fixed(
            f32_value(bits),
            places as nat,
        ));
    }
    s
}

/// `n / d` rounded to the nearest integer, ties to the even one.
pub fn rounded_half_even(n: u64, d: u64) -> (q: u64)
    requires
        d > 0,
    ensures
        q == round_half_even(n as nat, d as nat),
{
    let q = n / d;
    let r = n % d;
    proof {
        if d >= 2 {
            assert(q <= n / 2) by (nonlinear_arith)
                requires
                    d >= 2,
                    q == n / d,
            ;
        }
    }
    if r < d - r {
        q
    } else if r > d - r {
        q + 1
    } else if q % 2 == 0 {
        q
    } else {
        q + 1
    }
}

/// The binary scale of `n / 1000`: the `s` for which `n * 2^s` lies in
/// `[2^52 * 1000, 2^53 * 1000)`, so that rounding `n * 2^s / 1000` gives a 53-bit
/// mantissa (there is one such `s` for every `n >= 1`).
pub open spec fn millis_scale(n: nat) -> nat {
    choose|s: nat|
        0x10_0000_0000_0000 * 1000 <= n * #[trigger] pow2n(s) < 0x20_0000_0000_0000 * 1000
}

/// The double nearest to `n / 1000`, ties to even: the value that a number of
/// milliseconds has as a double count of seconds.
pub open spec fn millis_as_double(n: nat) -> FloatValue {
    if n == 0 {
        FloatValue::Finite { negative: false, mantissa: 0, exponent: 0 }
    } else {
        let s = millis_scale(n);
        let q = round_half_even(n * pow2n(s), 1000);
        if q == 0x20_0000_0000_0000 {
            FloatValue::Finite {
                negative: false,
                mantissa: 0x10_0000_0000_0000,
                exponent: 1 - (s as int),
            }
        } else {
            FloatValue::Finite { negative: false, mantissa: q, exponent: -(s as int) }
        }
    }
}

/// A larger scale than one that reaches the band of 53-bit mantissas goes past it:
/// it doubles the product at least once.
proof fn lemma_millis_scales_apart(n: nat, s1: nat, s2: nat)
    requires
        s1 < s2,
        0x10_0000_0000_0000 * 1000 <= n * pow2n(s1),
    ensures
        n * pow2n(s2) >= 0x20_0000_0000_0000 * 1000,
{
    lemma_pow2n_adds((s1 + 1) as nat, (s2 - s1 - 1) as nat);
    lemma_pow2n_positive((s2 - s1 - 1) as nat);
    assert(pow2n((s1 + 1) as nat) == 2 * pow2n(s1));
    assert((s1 + 1) as nat + (s2 - s1 - 1) as nat == s2);
    let a = pow2n(s1);
    let b = pow2n(s2);
    let c = pow2n((s2 - s1 - 1) as nat);
    assert(n * b >= 2 * (n * a)) by (nonlinear_arith)
        requires
            b == (2 * a) * c,
            c >= 1,
            a >= 0,
    ;
}

/// Only one scale brings `n * 2^s` into the band of 53-bit mantissas.
proof fn lemma_millis_scale_unique(n: nat, s1: nat, s2: nat)
    requires
        0x10_0000_0000_0000 * 1000 <= n * pow2n(s1) < 0x20_0000_0000_0000 * 1000,
        0x10_0000_0000_0000 * 1000 <= n * pow2n(s2) < 0x20_0000_0000_0000 * 1000,
    ensures
        s1 == s2,
{
    if s1 < s2 {
        lemma_millis_scales_apart(n, s1, s2);
    } else if s2 < s1 {
        lemma_millis_scales_apart(n, s2, s1);
    }
}

/// Appends `n` milliseconds as seconds with two decimals, written as `{:.2}` writes
/// the double nearest to `n / 1000`.
pub fn push_millis_seconds(s: &mut String, n: u32)
    ensures
        final(s)@ == old(s)@ + float_fixed(millis_as_double(n as nat), 2),
{
    if n == 0 {
        push_finite(s, false, 0, 0, 2);
        return;
    }
    let mut x: u64 = n as u64;
    let mut k: u64 = 0;
    proof {
        reveal_with_fuel(pow2n, 64);
        assert(pow2n(63) == 0x8000_0000_0000_0000);
    }
    while x < 0x10_0000_0000_0000 * 1000
        invariant
            1 <= n,
            1 <= x,
            x == n * pow2n(k as nat),
            x < 0x20_0000_0000_0000 * 1000,
            pow2n(k as nat) <= x,
            pow2n(63) == 0x8000_0000_0000_0000,
            k <= 62,
        decreases 0x20_0000_0000_0000 * 1000 - x,
    {
        proof {
            let p = pow2n(k as nat);
            assert(pow2n((k + 1) as nat) == 2 * p);
            assert(n * (2 * p) == 2 * (n * p)) by (nonlinear_arith);
            if k + 1 >= 63 {
                lemma_pow2n_monotone(63, (k + 1) as nat);
            }
        }
        x = x * 2;
        k = k + 1;
    }
    proof {
        let ghost s0 = millis_scale(n as nat);
        assert(0x10_0000_0000_0000 * 1000 <= n * pow2n(k as nat) < 0x20_0000_0000_0000 * 1000);
        lemma_millis_scale_unique(n as nat, s0, k as nat);
    }
    let q = rounded_half_even(x, 1000);
    assert(0x10_0000_0000_0000 <= q <= 0x20_0000_0000_0000);
    if q == 0x20_0000_0000_0000 {
        push_finite(s, false, 0x10_0000_0000_0000, 1 - (k as i64), 2);
    } else {
        push_finite(s, false, q, -(k as i64), 2);
    }
}

} // verus!
