//! Exact integer model of the IEEE 754 double-precision steps behind the transfer
//! time estimate: converting integers, dividing, comparing and truncating.
//!
//! A positive double is held as `(m, e)`, the value `m * 2^e`, with a 53-bit
//! mantissa `2^52 <= m < 2^53`; every result is the exact value rounded to the
//! nearest such pair, ties to the even mantissa.

use vstd::prelude::*;

use crate::tui::sftp_browser::{lemma_bit_len_at_least, lemma_bit_len_bound, lemma_pow2_mono};

verus! {

/// `2^52`, the smallest 53-bit mantissa.
pub const MANT_MIN: u64 = 0x10_0000_0000_0000;

/// `2^53`, one past the largest mantissa.
pub const MANT_END: u64 = 0x20_0000_0000_0000;

/// `(m, e)` has a 53-bit mantissa.
pub open spec fn normal(f: (nat, int)) -> bool {
    MANT_MIN <= f.0 < MANT_END
}

/// A mantissa that rounding carried up to `2^53` becomes `2^52`, one exponent higher.
pub open spec fn carry(m: nat, e: int) -> (nat, int) {
    if m == MANT_END {
        (MANT_MIN as nat, e + 1)
    } else {
        (m, e)
    }
}

/// `n as f64` for an integer `n > 0`: `n` rounded to 53 significant bits.
pub open spec fn of_int(n: nat) -> (nat, int) {
    let b = crate::tui::sftp_browser::bit_len(n);
    if b <= 53 {
        (n * crate::tui::sftp_browser::pow2((53 - b) as nat), b - 53)
    } else {
        let s = (b - 53) as nat;
        carry(
            crate::tui::sftp_browser::div_round_even(n, crate::tui::sftp_browser::pow2(s)),
            b - 53,
        )
    }
}

/// `2^52 <= 2^(bit_len(n) - 1) <= n < 2^bit_len(n)` for `n > 0`.
pub(crate) proof fn lemma_bit_len_range(n: nat)
    requires
        n > 0,
    ensures
        crate::tui::sftp_browser::bit_len(n) >= 1,
        crate::tui::sftp_browser::pow2((crate::tui::sftp_browser::bit_len(n) - 1) as nat) <= n,
        n < crate::tui::sftp_browser::pow2(crate::tui::sftp_browser::bit_len(n)),
    decreases n,
{
    vstd::arithmetic::power2::lemma2_to64();
    if n == 1 {
        assert(crate::tui::sftp_browser::bit_len(0) == 0);
        assert(crate::tui::sftp_browser::bit_len(1) == 1);
    } else {
        lemma_bit_len_range(n / 2);
        let b = crate::tui::sftp_browser::bit_len(n / 2);
        assert(crate::tui::sftp_browser::bit_len(n) == b + 1);
        vstd::arithmetic::power2::lemma_pow2_unfold(b);
        vstd::arithmetic::power2::lemma_pow2_unfold(b + 1);
    }
}

/// `2^120`.
proof fn lemma_pow2_120()
    ensures
        crate::tui::sftp_browser::pow2(120) == 0x100_0000_0000_0000_0000_0000_0000_0000,
{
    vstd::arithmetic::power2::lemma2_to64();
    vstd::arithmetic::power2::lemma2_to64_rest();
    vstd::arithmetic::power2::lemma_pow2_adds(64, 56);
}

/// `2^k` for `k <= 120`.
fn pow2_u128(k: u32) -> (p: u128)
    requires
        k <= 120,
    ensures
        p == crate::tui::sftp_browser::pow2(k as nat),
        p >= 1,
{
    let mut p: u128 = 1;
    let mut i: u32 = 0;
    proof {
        vstd::arithmetic::power2::lemma2_to64();
        lemma_pow2_120();
    }
    while i < k
        invariant
            i <= k <= 120,
            p == crate::tui::sftp_browser::pow2(i as nat),
            p >= 1,
            crate::tui::sftp_browser::pow2(120) == 0x100_0000_0000_0000_0000_0000_0000_0000,
        decreases k - i,
    {
        proof {
            lemma_pow2_mono((i + 1) as nat, 120);
            vstd::arithmetic::power2::lemma_pow2_unfold((i + 1) as nat);
        }
        p = p * 2;
        i = i + 1;
    }
    p
}

/// Number of binary digits of `n < 2^120`.
fn bit_len_u128(n: u128) -> (b: u32)
    requires
        n < crate::tui::sftp_browser::pow2(120),
    ensures
        b == crate::tui::sftp_browser::bit_len(n as nat),
        b <= 120,
{
    let mut m = n;
    let mut b: u32 = 0;
    proof {
        lemma_bit_len_bound(n as nat, 120);
    }
    while m > 0
        invariant
            crate::tui::sftp_browser::bit_len(n as nat) == b + crate::tui::sftp_browser::bit_len(
                m as nat,
            ),
            b + crate::tui::sftp_browser::bit_len(m as nat) <= 120,
        decreases m,
    {
        m = m / 2;
        b = b + 1;
    }
    b
}

/// `t / d` rounded to the nearest integer, ties to even.
fn div_round_even_u128(t: u128, d: u128) -> (r: u128)
    requires
        0 < d < 0x8000_0000_0000_0000_0000_0000_0000_0000,
        t < 0x8000_0000_0000_0000_0000_0000_0000_0000,
    ensures
        r == crate::tui::sftp_browser::div_round_even(t as nat, d as nat),
        t / d <= r <= t / d + 1,
{
    let q = t / d;
    let rem = t % d;
    if rem * 2 > d || (rem * 2 == d && q % 2 == 1) {
        q + 1
    } else {
        q
    }
}

/// `q = n / d` lies in `[lo, hi)` when `lo * d <= n < hi * d`.
proof fn lemma_quotient_between(n: nat, d: nat, lo: nat, hi: nat)
    requires
        d > 0,
        lo * d <= n,
        n < hi * d,
    ensures
        lo <= n / d < hi,
{
    vstd::arithmetic::div_mod::lemma_fundamental_div_mod(n as int, d as int);
    let q = n / d;
    let r = n % d;
    assert(lo <= q < hi) by (nonlinear_arith)
        requires
            n == d * q + r,
            0 <= r < d,
            lo * d <= n,
            n < hi * d,
            d > 0,
    {
    }
}

/// `n as f64` for `0 < n < 2^120`.
pub(crate) fn of_int_exec(n: u128) -> (r: (u64, i64))
    requires
        0 < n < crate::tui::sftp_browser::pow2(120),
    ensures
        (r.0 as nat, r.1 as int) == of_int(n as nat),
        normal((r.0 as nat, r.1 as int)),
        crate::tui::sftp_browser::bit_len(n as nat) - 53 <= r.1 <= crate::tui::sftp_browser::bit_len(
            n as nat,
        ) - 52,
        -52 <= r.1 <= 68,
{
    let b = bit_len_u128(n);
    proof {
        lemma_bit_len_range(n as nat);
        vstd::arithmetic::power2::lemma2_to64();
        vstd::arithmetic::power2::lemma2_to64_rest();
        lemma_pow2_120();
    }
    if b <= 53 {
        let k = 53 - b;
        let p = pow2_u128(k);
        proof {
            vstd::arithmetic::power2::lemma_pow2_adds(k as nat, b as nat);
            vstd::arithmetic::power2::lemma_pow2_adds(k as nat, (b - 1) as nat);
            assert((k + b) as nat == 53);
            assert((k + (b - 1)) as nat == 52);
        }
        let ghost pb = crate::tui::sftp_browser::pow2(b as nat);
        let ghost pb1 = crate::tui::sftp_browser::pow2((b - 1) as nat);
        assert(n * p < MANT_END && n * p >= MANT_MIN) by (nonlinear_arith)
            requires
                n < pb,
                pb1 <= n,
                p * pb == MANT_END,
                p * pb1 == MANT_MIN,
                p > 0,
        {
        }
        ((n * p) as u64, b as i64 - 53)
    } else {
        let s = b - 53;
        let d = pow2_u128(s);
        proof {
            vstd::arithmetic::power2::lemma_pow2_adds(52, s as nat);
            vstd::arithmetic::power2::lemma_pow2_adds(53, s as nat);
            assert((52 + s) as nat == (b - 1) as nat);
            assert((53 + s) as nat == b as nat);
            lemma_pow2_mono(b as nat, 120);
            lemma_quotient_between(n as nat, d as nat, MANT_MIN as nat, MANT_END as nat);
        }
        let q = div_round_even_u128(n, d);
        if q == MANT_END as u128 {
            (MANT_MIN, s as i64 + 1)
        } else {
            (q as u64, s as i64)
        }
    }
}

/// `a / b` for doubles with 53-bit mantissas: the exact quotient is
/// `(a.m * 2^t / b.m) * 2^(a.e - b.e - t)` with `t` (52 or 53) chosen so that the first
/// factor lies in `[2^52, 2^53)`; that factor is rounded to an integer.
pub open spec fn quotient(a: (nat, int), b: (nat, int)) -> (nat, int) {
    let t: nat = if a.0 >= b.0 {
        52
    } else {
        53
    };
    carry(
        crate::tui::sftp_browser::div_round_even(a.0 * crate::tui::sftp_browser::pow2(t), b.0),
        a.1 - b.1 - t,
    )
}

/// `s as f64 + f` for an integer `s` and a double `f`: the exact sum, rounded.
pub open spec fn add_int(s: nat, f: (nat, int)) -> (nat, int) {
    if f.1 >= 0 {
        of_int(s + f.0 * crate::tui::sftp_browser::pow2(f.1 as nat))
    } else {
        let r = of_int(s * crate::tui::sftp_browser::pow2((-f.1) as nat) + f.0);
        (r.0, r.1 + f.1)
    }
}

/// `Duration::as_secs_f64` of `ns` nanoseconds: the whole seconds as a double plus
/// the remaining nanoseconds divided by `10^9`; `None` stands for zero.
pub open spec fn secs_f64(ns: nat) -> Option<(nat, int)> {
    let secs = ns / 1_000_000_000;
    let nanos = ns % 1_000_000_000;
    if nanos == 0 {
        if secs == 0 {
            None
        } else {
            Some(of_int(secs))
        }
    } else {
        Some(add_int(secs, quotient(of_int(nanos), of_int(1_000_000_000))))
    }
}

/// The value of double `a` is below that of `b`.
pub open spec fn below(a: (nat, int), b: (nat, int)) -> bool {
    let lo = if a.1 <= b.1 {
        a.1
    } else {
        b.1
    };
    a.0 * crate::tui::sftp_browser::pow2((a.1 - lo) as nat) < b.0 * crate::tui::sftp_browser::pow2(
        (b.1 - lo) as nat,
    )
}

/// `0.1f64`, the double nearest to a tenth.
pub open spec fn one_tenth() -> (nat, int) {
    (0x19_9999_9999_999a, -56)
}

/// `f as u64` for a double `f`: truncated toward zero, at most `u64::MAX`.
pub open spec fn to_u64(f: (nat, int)) -> nat {
    if f.1 >= 0 {
        let v = f.0 * crate::tui::sftp_browser::pow2(f.1 as nat);
        if v > u64::MAX {
            u64::MAX as nat
        } else {
            v
        }
    } else {
        f.0 / crate::tui::sftp_browser::pow2((-f.1) as nat)
    }
}

/// `a / b`.
pub(crate) fn quotient_exec(a: (u64, i64), b: (u64, i64)) -> (r: (u64, i64))
    requires
        normal((a.0 as nat, a.1 as int)),
        normal((b.0 as nat, b.1 as int)),
        -1000 <= a.1 <= 1000,
        -1000 <= b.1 <= 1000,
    ensures
        (r.0 as nat, r.1 as int) == quotient((a.0 as nat, a.1 as int), (b.0 as nat, b.1 as int)),
        normal((r.0 as nat, r.1 as int)),
        a.1 - b.1 - 53 <= r.1 <= a.1 - b.1 - 51,
{
    proof {
        vstd::arithmetic::power2::lemma2_to64();
        vstd::arithmetic::power2::lemma2_to64_rest();
    }
    let t: u32 = if a.0 >= b.0 {
        52
    } else {
        53
    };
    let p = pow2_u128(t);
    assert(a.0 as u128 * p < 0x4_0000_0000_0000_0000_0000_0000_0000) by (nonlinear_arith)
        requires
            a.0 < MANT_END,
            p <= MANT_END,
    {
    }
    let num = a.0 as u128 * p;
    let ghost (am, bm) = (a.0 as nat, b.0 as nat);
    if a.0 >= b.0 {
        assert(MANT_MIN * bm <= am * MANT_MIN && am * MANT_MIN < MANT_END * bm) by (nonlinear_arith)
            requires
                am >= bm,
                am < MANT_END,
                bm >= MANT_MIN,
                MANT_END == 2 * MANT_MIN,
        {
        }
    } else {
        assert(MANT_MIN * bm <= am * MANT_END && am * MANT_END < MANT_END * bm) by (nonlinear_arith)
            requires
                am < bm,
                am >= MANT_MIN,
                bm < MANT_END,
                MANT_END == 2 * MANT_MIN,
        {
        }
    }
    proof {
        lemma_quotient_between(num as nat, bm, MANT_MIN as nat, MANT_END as nat);
    }
    let q = div_round_even_u128(num, b.0 as u128);
    let e = a.1 - b.1 - t as i64;
    if q == MANT_END as u128 {
        (MANT_MIN, e + 1)
    } else {
        (q as u64, e)
    }
}

/// `s as f64 + f` for `s < 2^36` and `2^-82 <= f < 1`.
fn add_int_exec(s: u128, f: (u64, i64)) -> (r: (u64, i64))
    requires
        s < 0x10_0000_0000,
        normal((f.0 as nat, f.1 as int)),
        -82 <= f.1 < 0,
    ensures
        (r.0 as nat, r.1 as int) == add_int(s as nat, (f.0 as nat, f.1 as int)),
        normal((r.0 as nat, r.1 as int)),
        -134 <= r.1 <= 68,
{
    let k = (-f.1) as u32;
    let p = pow2_u128(k);
    proof {
        vstd::arithmetic::power2::lemma2_to64();
        lemma_pow2_mono(k as nat, 82);
        lemma_pow2_120();
        vstd::arithmetic::power2::lemma_pow2_adds(36, 82);
        vstd::arithmetic::power2::lemma2_to64_rest();
        assert(crate::tui::sftp_browser::pow2(118) == crate::tui::sftp_browser::pow2(36)
            * crate::tui::sftp_browser::pow2(82));
        lemma_pow2_mono(82, 118);
        lemma_pow2_mono(53, 118);
        lemma_pow2_mono(118, 120);
        vstd::arithmetic::power2::lemma_pow2_adds(118, 2);
        assert((118 + 2) as nat == 120);
    }
    let ghost p82 = crate::tui::sftp_browser::pow2(82);
    let ghost p36 = crate::tui::sftp_browser::pow2(36);
    assert(s * p + f.0 < crate::tui::sftp_browser::pow2(120)) by (nonlinear_arith)
        requires
            s < p36,
            p <= p82,
            f.0 < MANT_END,
            p36 * p82 + MANT_END <= crate::tui::sftp_browser::pow2(120),
            p36 == 0x10_0000_0000,
    {
    }
    let n = s * p + f.0 as u128;
    let r = of_int_exec(n);
    (r.0, r.1 + f.1)
}

/// `Duration::as_secs_f64` of `ns < 2^64` nanoseconds; `None` for zero.
pub(crate) fn secs_f64_exec(ns: u128) -> (r: Option<(u64, i64)>)
    requires
        ns < 0x1_0000_0000_0000_0000,
    ensures
        match r {
            Some(f) => secs_f64(ns as nat) == Some((f.0 as nat, f.1 as int)) && normal(
                (f.0 as nat, f.1 as int),
            ) && -134 <= f.1 <= 68,
            None => secs_f64(ns as nat) is None,
        },
{
    proof {
        vstd::arithmetic::power2::lemma2_to64();
        lemma_pow2_120();
    }
    let secs = ns / 1_000_000_000;
    let nanos = ns % 1_000_000_000;
    if nanos == 0 {
        if secs == 0 {
            None
        } else {
            Some(of_int_exec(secs))
        }
    } else {
        proof {
            lemma_bit_len_bound(nanos as nat, 30);
            lemma_bit_len_bound(1_000_000_000, 30);
            lemma_bit_len_at_least(1_000_000_000, 29);
            lemma_bit_len_range(nanos as nat);
        }
        let a = of_int_exec(nanos);
        let b = of_int_exec(1_000_000_000);
        let frac = quotient_exec(a, b);
        Some(add_int_exec(secs, frac))
    }
}

/// `0.1f64`.
pub(crate) fn one_tenth_exec() -> (r: (u64, i64))
    ensures
        (r.0 as nat, r.1 as int) == one_tenth(),
        normal((r.0 as nat, r.1 as int)),
{
    (0x19_9999_9999_999a, -56)
}

/// Whether double `a` is below double `b`.
pub(crate) fn below_exec(a: (u64, i64), b: (u64, i64)) -> (r: bool)
    requires
        normal((a.0 as nat, a.1 as int)),
        normal((b.0 as nat, b.1 as int)),
    ensures
        r == below((a.0 as nat, a.1 as int), (b.0 as nat, b.1 as int)),
{
    proof {
        vstd::arithmetic::power2::lemma2_to64();
    }
    if a.1 < b.1 {
        let ghost d = (b.1 - a.1) as nat;
        proof {
            lemma_pow2_mono(1, d);
        }
        let ghost pd = crate::tui::sftp_browser::pow2(d);
        assert(a.0 * 1 < b.0 * pd) by (nonlinear_arith)
            requires
                a.0 < MANT_END,
                b.0 >= MANT_MIN,
                pd >= 2,
                MANT_END == 2 * MANT_MIN,
        {
        }
        true
    } else if a.1 > b.1 {
        let ghost d = (a.1 - b.1) as nat;
        proof {
            lemma_pow2_mono(1, d);
        }
        let ghost pd = crate::tui::sftp_browser::pow2(d);
        assert(b.0 * 1 < a.0 * pd) by (nonlinear_arith)
            requires
                b.0 < MANT_END,
                a.0 >= MANT_MIN,
                pd >= 2,
                MANT_END == 2 * MANT_MIN,
        {
        }
        false
    } else {
        a.0 < b.0
    }
}

/// `f as u64`.
pub(crate) fn to_u64_exec(f: (u64, i64)) -> (r: u64)
    requires
        normal((f.0 as nat, f.1 as int)),
        -1000 <= f.1 <= 1000,
    ensures
        r == to_u64((f.0 as nat, f.1 as int)),
{
    proof {
        vstd::arithmetic::power2::lemma2_to64();
        vstd::arithmetic::power2::lemma2_to64_rest();
    }
    if f.1 >= 12 {
        let ghost e = f.1 as nat;
        proof {
            lemma_pow2_mono(12, e);
            vstd::arithmetic::power2::lemma_pow2_adds(52, 12);
        }
        let ghost pe = crate::tui::sftp_browser::pow2(e);
        assert(f.0 * pe > u64::MAX) by (nonlinear_arith)
            requires
                f.0 >= MANT_MIN,
                pe >= 4096,
        {
        }
        u64::MAX
    } else if f.1 >= 0 {
        let k = f.1 as u32;
        let p = pow2_u128(k);
        proof {
            lemma_pow2_mono(k as nat, 11);
        }
        assert(f.0 as u128 * p <= u64::MAX) by (nonlinear_arith)
            requires
                f.0 < MANT_END,
                p <= 2048,
        {
        }
        (f.0 as u128 * p) as u64
    } else if f.1 >= -64 {
        let k = (-f.1) as u32;
        let p = pow2_u128(k);
        (f.0 as u128 / p) as u64
    } else {
        let ghost k = (-f.1) as nat;
        proof {
            lemma_pow2_mono(64, k);
            vstd::arithmetic::div_mod::lemma_basic_div(f.0 as int, crate::tui::sftp_browser::pow2(k) as int);
        }
        0
    }
}

/// `a * b`: the exact product of the mantissas, rounded to 53 bits like an integer,
/// scaled by `2^(a.e + b.e)`.
pub open spec fn product(a: (nat, int), b: (nat, int)) -> (nat, int) {
    let r = of_int(a.0 * b.0);
    (r.0, r.1 + a.1 + b.1)
}

/// `a * b`.
pub(crate) fn product_exec(a: (u64, i64), b: (u64, i64)) -> (r: (u64, i64))
    requires
        normal((a.0 as nat, a.1 as int)),
        normal((b.0 as nat, b.1 as int)),
        -1000 <= a.1 <= 1000,
        -1000 <= b.1 <= 1000,
    ensures
        (r.0 as nat, r.1 as int) == product((a.0 as nat, a.1 as int), (b.0 as nat, b.1 as int)),
        normal((r.0 as nat, r.1 as int)),
        a.1 + b.1 - 52 <= r.1 <= a.1 + b.1 + 68,
{
    proof {
        vstd::arithmetic::power2::lemma2_to64();
        vstd::arithmetic::power2::lemma2_to64_rest();
        lemma_pow2_120();
    }
    assert(a.0 as u128 * b.0 as u128 <= 0x400_0000_0000_0000_0000_0000_0000) by (nonlinear_arith)
        requires
            a.0 < MANT_END,
            b.0 < MANT_END,
    {
    }
    assert(a.0 as u128 * b.0 as u128 > 0) by (nonlinear_arith)
        requires
            a.0 >= MANT_MIN,
            b.0 >= MANT_MIN,
    {
    }
    let m = of_int_exec(a.0 as u128 * b.0 as u128);
    (m.0, m.1 + a.1 + b.1)
}

/// `100.0`.
pub(crate) fn hundred_exec() -> (r: (u64, i64))
    ensures
        (r.0 as nat, r.1 as int) == of_int(100),
        normal((r.0 as nat, r.1 as int)),
        r.1 == -46,
{
    proof {
        vstd::arithmetic::power2::lemma2_to64();
        lemma_bit_len_bound(100, 7);
        lemma_bit_len_at_least(100, 6);
        lemma_pow2_120();
    }
    of_int_exec(100)
}

/// The value of double `a` is at most that of `b` (for 53-bit mantissas).
pub open spec fn at_most(a: (nat, int), b: (nat, int)) -> bool {
    a.1 < b.1 || (a.1 == b.1 && a.0 <= b.0)
}

/// `of_int(n)` has a 53-bit mantissa and exponent `bit_len(n) - 53`, or, where rounding
/// carried, mantissa `2^52` and exponent `bit_len(n) - 52`.
pub(crate) proof fn lemma_of_int(n: nat)
    requires
        n > 0,
    ensures
        normal(of_int(n)),
        of_int(n).1 == crate::tui::sftp_browser::bit_len(n) - 53 || (of_int(n).1
            == crate::tui::sftp_browser::bit_len(n) - 52 && of_int(n).0 == MANT_MIN),
        crate::tui::sftp_browser::bit_len(n) <= 53 ==> of_int(n).1 == crate::tui::sftp_browser::bit_len(n) - 53,
{
    let b = crate::tui::sftp_browser::bit_len(n);
    lemma_bit_len_range(n);
    vstd::arithmetic::power2::lemma2_to64();
    vstd::arithmetic::power2::lemma2_to64_rest();
    if b <= 53 {
        let k = (53 - b) as nat;
        let p = crate::tui::sftp_browser::pow2(k);
        vstd::arithmetic::power2::lemma_pow2_adds(k, b);
        vstd::arithmetic::power2::lemma_pow2_adds(k, (b - 1) as nat);
        assert(k + b == 53);
        assert(k + (b - 1) as nat == 52);
        let pb = crate::tui::sftp_browser::pow2(b);
        let pb1 = crate::tui::sftp_browser::pow2((b - 1) as nat);
        assert(n * p < MANT_END && n * p >= MANT_MIN) by (nonlinear_arith)
            requires
                n < pb,
                pb1 <= n,
                p * pb == MANT_END,
                p * pb1 == MANT_MIN,
                p > 0,
        {
        }
    } else {
        let s = (b - 53) as nat;
        let d = crate::tui::sftp_browser::pow2(s);
        vstd::arithmetic::power2::lemma_pow2_adds(52, s);
        vstd::arithmetic::power2::lemma_pow2_adds(53, s);
        assert(52 + s == (b - 1) as nat);
        assert(53 + s == b);
        vstd::arithmetic::power2::lemma_pow2_pos(s);
        lemma_quotient_between(n, d, MANT_MIN as nat, MANT_END as nat);
        let q = crate::tui::sftp_browser::div_round_even(n, d);
        assert(n / d <= q <= n / d + 1);
    }
}

/// `x <= y` gives `bit_len(x) <= bit_len(y)`.
proof fn lemma_bit_len_mono(x: nat, y: nat)
    requires
        0 < x <= y,
    ensures
        crate::tui::sftp_browser::bit_len(x) <= crate::tui::sftp_browser::bit_len(y),
{
    lemma_bit_len_range(x);
    lemma_bit_len_range(y);
    let lx = crate::tui::sftp_browser::bit_len(x);
    let ly = crate::tui::sftp_browser::bit_len(y);
    if lx > ly {
        lemma_pow2_mono(ly, (lx - 1) as nat);
    }
}

/// Rounded division is monotonic in the dividend.
proof fn lemma_div_round_even_mono(x: nat, y: nat, d: nat)
    requires
        x <= y,
        d > 0,
    ensures
        crate::tui::sftp_browser::div_round_even(x, d) <= crate::tui::sftp_browser::div_round_even(y, d),
{
    vstd::arithmetic::div_mod::lemma_div_is_ordered(x as int, y as int, d as int);
    vstd::arithmetic::div_mod::lemma_fundamental_div_mod(x as int, d as int);
    vstd::arithmetic::div_mod::lemma_fundamental_div_mod(y as int, d as int);
}

/// Converting integers to doubles keeps their order.
proof fn lemma_of_int_mono(x: nat, y: nat)
    requires
        0 < x <= y,
    ensures
        at_most(of_int(x), of_int(y)),
{
    lemma_of_int(x);
    lemma_of_int(y);
    lemma_bit_len_mono(x, y);
    let lx = crate::tui::sftp_browser::bit_len(x);
    let ly = crate::tui::sftp_browser::bit_len(y);
    if lx == ly {
        if lx <= 53 {
            let p = crate::tui::sftp_browser::pow2((53 - lx) as nat);
            assert(x * p <= y * p) by (nonlinear_arith)
                requires
                    x <= y,
            {
            }
        } else {
            let d = crate::tui::sftp_browser::pow2((lx - 53) as nat);
            vstd::arithmetic::power2::lemma_pow2_pos((lx - 53) as nat);
            lemma_div_round_even_mono(x, y, d);
        }
    }
}

/// The quotient of two integers `d <= t` is at most one: its exponent is below `-52`,
/// or it is `1.0` itself, as it is when `d == t`.
proof fn lemma_ratio_at_most_one(d: nat, t: nat)
    requires
        0 < d <= t,
    ensures
        quotient(of_int(d), of_int(t)).1 <= -53 || quotient(of_int(d), of_int(t)) == (
            MANT_MIN as nat,
            -52int,
        ),
        d == t ==> quotient(of_int(d), of_int(t)) == (MANT_MIN as nat, -52int),
{
    let a = of_int(d);
    let b = of_int(t);
    lemma_of_int(d);
    lemma_of_int(t);
    lemma_of_int_mono(d, t);
    vstd::arithmetic::power2::lemma2_to64();
    vstd::arithmetic::power2::lemma2_to64_rest();
    if a.1 == b.1 && a.0 == b.0 {
        let num: nat = a.0 * (MANT_MIN as nat);
        assert(num / a.0 == MANT_MIN && num % a.0 == 0) by {
            vstd::arithmetic::div_mod::lemma_div_multiples_vanish(MANT_MIN as int, a.0 as int);
            vstd::arithmetic::div_mod::lemma_mod_multiples_basic(MANT_MIN as int, a.0 as int);
            assert(num == a.0 * MANT_MIN);
        }
    } else {
        let tt: nat = if a.0 >= b.0 { 52 } else { 53 };
        let num = a.0 * crate::tui::sftp_browser::pow2(tt);
        assert(num / b.0 < MANT_END) by {
            if a.0 >= b.0 {
                assert(a.0 * MANT_MIN < MANT_END * b.0) by (nonlinear_arith)
                    requires
                        a.0 < MANT_END,
                        b.0 >= MANT_MIN,
                        MANT_END == 2 * MANT_MIN,
                {
                }
                lemma_quotient_between(num, b.0, 0, MANT_END as nat);
            } else {
                assert(a.0 * MANT_END < MANT_END * b.0) by (nonlinear_arith)
                    requires
                        a.0 < b.0,
                {
                }
                lemma_quotient_between(num, b.0, 0, MANT_END as nat);
            }
        }
    }
}

/// `100.0` is `100 * 2^46 * 2^-46`.
proof fn lemma_hundred()
    ensures
        of_int(100) == (100 * 0x4000_0000_0000 as nat, -46int),
{
    vstd::arithmetic::power2::lemma2_to64();
    vstd::arithmetic::power2::lemma2_to64_rest();
    lemma_bit_len_bound(100, 7);
    lemma_bit_len_at_least(100, 6);
}

/// `q * 100.0`, truncated, is at most 100 for `q <= 1.0`, and is 100 for `q == 1.0`.
proof fn lemma_percent_of_fraction(q: (nat, int))
    requires
        normal(q),
        q.1 <= -53 || q == (MANT_MIN as nat, -52int),
    ensures
        to_u64(product(q, of_int(100))) <= 100,
        q == (MANT_MIN as nat, -52int) ==> to_u64(product(q, of_int(100))) == 100,
{
    lemma_hundred();
    vstd::arithmetic::power2::lemma2_to64();
    vstd::arithmetic::power2::lemma2_to64_rest();
    let h: nat = 100 * 0x4000_0000_0000;
    let p46: nat = 0x4000_0000_0000;
    assert(crate::tui::sftp_browser::pow2(46) == p46);
    let n = q.0 * h;
    assert(n > 0) by (nonlinear_arith)
        requires
            n == q.0 * h,
            q.0 >= MANT_MIN,
            h > 0,
    {
    }
    let top: nat = h * crate::tui::sftp_browser::pow2(53);
    vstd::arithmetic::power2::lemma_pow2_adds(46, 53);
    assert(top == 100 * crate::tui::sftp_browser::pow2(99));
    // `100 * 2^99` is a double: `of_int` leaves it as it is.
    vstd::arithmetic::power2::lemma_pow2_pos(99);
    vstd::arithmetic::power2::lemma_pow2_pos(98);
    vstd::arithmetic::power2::lemma_pow2_adds(53, 53);
    vstd::arithmetic::power2::lemma_pow2_adds(52, 53);
    vstd::arithmetic::power2::lemma_pow2_adds(7, 99);
    vstd::arithmetic::power2::lemma_pow2_adds(6, 99);
    vstd::arithmetic::power2::lemma_pow2_adds(53, 46);
    assert(crate::tui::sftp_browser::pow2(106) == 128 * crate::tui::sftp_browser::pow2(99));
    assert(crate::tui::sftp_browser::pow2(105) == 64 * crate::tui::sftp_browser::pow2(99));
    lemma_bit_len_bound(top, 106);
    lemma_bit_len_at_least(top, 105);
    assert(crate::tui::sftp_browser::bit_len(top) == 106);
    assert(crate::tui::sftp_browser::pow2(53) == MANT_END);
    assert(top == h * MANT_END);
    assert(top / (MANT_END as nat) == h && top % (MANT_END as nat) == 0) by {
        vstd::arithmetic::div_mod::lemma_div_multiples_vanish(h as int, MANT_END as int);
        vstd::arithmetic::div_mod::lemma_mod_multiples_basic(h as int, MANT_END as int);
    }
    assert(of_int(top) == (h, 53int));
    let r = of_int(n);
    lemma_of_int(n);
    if q == (MANT_MIN as nat, -52int) {
        assert(n * 2 == top);
        let half: nat = n;
        assert(half == 100 * crate::tui::sftp_browser::pow2(98)) by {
            vstd::arithmetic::power2::lemma_pow2_adds(52, 46);
            assert(crate::tui::sftp_browser::pow2(52) == MANT_MIN);
        }
        vstd::arithmetic::power2::lemma_pow2_adds(7, 98);
        vstd::arithmetic::power2::lemma_pow2_adds(6, 98);
        vstd::arithmetic::power2::lemma_pow2_adds(52, 52);
        assert(crate::tui::sftp_browser::pow2(105) == 128 * crate::tui::sftp_browser::pow2(98));
        assert(crate::tui::sftp_browser::pow2(104) == 64 * crate::tui::sftp_browser::pow2(98));
        lemma_bit_len_bound(n, 105);
        lemma_bit_len_at_least(n, 104);
        assert(crate::tui::sftp_browser::bit_len(n) == 105);
        assert(n == h * MANT_MIN);
        assert(n / (MANT_MIN as nat) == h && n % (MANT_MIN as nat) == 0) by {
            vstd::arithmetic::div_mod::lemma_div_multiples_vanish(h as int, MANT_MIN as int);
            vstd::arithmetic::div_mod::lemma_mod_multiples_basic(h as int, MANT_MIN as int);
        }
        assert(r == (h, 52int));
        assert(h / p46 == 100);
    } else {
        assert(n <= top) by (nonlinear_arith)
            requires
                q.0 < MANT_END,
                n == q.0 * h,
                top == h * MANT_END,
        {
        }
        lemma_of_int_mono(n, top);
        let e = r.1 + q.1 - 46;
        assert(e <= -46);
        let k = (-e) as nat;
        vstd::arithmetic::power2::lemma_pow2_pos(k);
        if r.1 == 53 {
            assert(r.0 <= h);
            lemma_pow2_mono(46, k);
            vstd::arithmetic::div_mod::lemma_div_is_ordered_by_denominator(
                r.0 as int,
                p46 as int,
                crate::tui::sftp_browser::pow2(k) as int,
            );
            vstd::arithmetic::div_mod::lemma_div_is_ordered(r.0 as int, h as int, p46 as int);
        } else {
            assert(e <= -47);
            lemma_pow2_mono(47, k);
            assert(crate::tui::sftp_browser::pow2(47) == 2 * p46);
            lemma_quotient_between(r.0, crate::tui::sftp_browser::pow2(k), 0, 100);
        }
    }
}

/// The quotient of doubles with 53-bit mantissas has a 53-bit mantissa.
proof fn lemma_quotient_normal(a: (nat, int), b: (nat, int))
    requires
        normal(a),
        normal(b),
    ensures
        normal(quotient(a, b)),
{
    vstd::arithmetic::power2::lemma2_to64();
    vstd::arithmetic::power2::lemma2_to64_rest();
    let tt: nat = if a.0 >= b.0 { 52 } else { 53 };
    let num = a.0 * crate::tui::sftp_browser::pow2(tt);
    if a.0 >= b.0 {
        assert(MANT_MIN * b.0 <= a.0 * MANT_MIN && a.0 * MANT_MIN < MANT_END * b.0) by (nonlinear_arith)
            requires
                a.0 >= b.0,
                a.0 < MANT_END,
                b.0 >= MANT_MIN,
                MANT_END == 2 * MANT_MIN,
        {
        }
    } else {
        assert(MANT_MIN * b.0 <= a.0 * MANT_END && a.0 * MANT_END < MANT_END * b.0) by (nonlinear_arith)
            requires
                a.0 < b.0,
                a.0 >= MANT_MIN,
                b.0 < MANT_END,
                MANT_END == 2 * MANT_MIN,
        {
        }
    }
    lemma_quotient_between(num, b.0, MANT_MIN as nat, MANT_END as nat);
    let q = crate::tui::sftp_browser::div_round_even(num, b.0);
    assert(num / b.0 <= q <= num / b.0 + 1);
}

/// `(d as f64 / t as f64 * 100.0) as u64` is at most 100 for `0 < d <= t`, and is 100
/// for `d == t`.
pub proof fn lemma_percent_at_most_hundred(d: nat, t: nat)
    requires
        0 < d <= t,
    ensures
        to_u64(product(quotient(of_int(d), of_int(t)), of_int(100))) <= 100,
        d == t ==> to_u64(product(quotient(of_int(d), of_int(t)), of_int(100))) == 100,
{
    lemma_of_int(d);
    lemma_of_int(t);
    lemma_quotient_normal(of_int(d), of_int(t));
    lemma_ratio_at_most_one(d, t);
    lemma_percent_of_fraction(quotient(of_int(d), of_int(t)));
}

} // verus!
