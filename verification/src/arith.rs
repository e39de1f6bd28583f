//! Machine arithmetic stated over mathematical integers: two's-complement
//! reinterpretation, truncating division, clamping, and the integer square
//! root.

use vstd::prelude::*;

verus! {

/// The signed 64-bit value whose two's-complement pattern is `x` modulo 2^64.
pub open spec fn as_i64(x: int) -> int {
    let m = x % 0x1_0000_0000_0000_0000;
    if m < 0x8000_0000_0000_0000 {
        m
    } else {
        m - 0x1_0000_0000_0000_0000
    }
}

/// The signed 128-bit value whose two's-complement pattern is `x` modulo 2^128.
pub open spec fn as_i128(x: int) -> int {
    let m = x % 0x1_0000_0000_0000_0000_0000_0000_0000_0000int;
    if m < 0x8000_0000_0000_0000_0000_0000_0000_0000 {
        m
    } else {
        m - 0x1_0000_0000_0000_0000_0000_0000_0000_0000int
    }
}

/// The unsigned 64-bit value congruent to `x` modulo 2^64.
pub open spec fn as_u64(x: int) -> int {
    x % 0x1_0000_0000_0000_0000
}

/// The unsigned 32-bit value congruent to `x` modulo 2^32.
pub open spec fn as_u32(x: int) -> int {
    x % 0x1_0000_0000
}

/// Whether `x` is representable as an `i64`.
pub open spec fn fits_i64(x: int) -> bool {
    i64::MIN <= x <= i64::MAX
}

/// Whether `x` is representable as an `i128`.
pub open spec fn fits_i128(x: int) -> bool {
    i128::MIN <= x <= i128::MAX
}

/// Quotient rounded towards zero, for a positive divisor.
pub open spec fn trunc_div(a: int, b: int) -> int {
    if a >= 0 {
        a / b
    } else {
        -((-a) / b)
    }
}

/// Absolute value.
pub open spec fn abs_int(x: int) -> int {
    if x < 0 {
        -x
    } else {
        x
    }
}

/// `x` brought into `lo..=hi`.
pub open spec fn clamp_int(x: int, lo: int, hi: int) -> int {
    if x < lo {
        lo
    } else if x > hi {
        hi
    } else {
        x
    }
}

/// Reinterprets an unsigned 64-bit pattern as signed.
pub fn i64_from_u64(x: u64) -> (r: i64)
    ensures
        r == as_i64(x as int),
{
    assert(x >= 0x8000_0000_0000_0000u64 ==> x as i64 == x as int - 0x1_0000_0000_0000_0000int)
        by (bit_vector);
    x as i64
}

/// Reinterprets an unsigned 128-bit pattern as signed.
pub fn i128_from_u128(x: u128) -> (r: i128)
    ensures
        r == as_i128(x as int),
{
    assert(x >= 0x8000_0000_0000_0000_0000_0000_0000_0000u128 ==> x as i128 == x as int
        - 0x1_0000_0000_0000_0000_0000_0000_0000_0000int) by (bit_vector);
    x as i128
}

/// Keeps the low 64 bits of a signed 128-bit value, read as unsigned.
pub fn u64_from_i128(x: i128) -> (r: u64)
    ensures
        r == as_u64(x as int),
{
    assert(x as u64 as int == x as int % 0x1_0000_0000_0000_0000int) by (bit_vector);
    x as u64
}

/// Keeps the low 64 bits of a signed 128-bit value, read as signed.
pub fn i64_from_i128(x: i128) -> (r: i64)
    ensures
        r == as_i64(x as int),
{
    let low: u64 = u64_from_i128(x);
    i64_from_u64(low)
}

/// Keeps the low 64 bits of an unsigned 128-bit value.
pub fn u64_from_u128(x: u128) -> (r: u64)
    ensures
        r == as_u64(x as int),
{
    assert(x as u64 == x % 0x1_0000_0000_0000_0000u128) by (bit_vector);
    x as u64
}

/// Keeps the low 32 bits of an unsigned 64-bit value.
pub fn u32_from_u64(x: u64) -> (r: u32)
    ensures
        r == as_u32(x as int),
{
    assert(x as u32 == x % 0x1_0000_0000u64) by (bit_vector);
    x as u32
}

/// Signed division, rounded towards zero.
pub fn div_i128(a: i128, b: i128) -> (q: i128)
    requires
        b > 0,
    ensures
        q == trunc_div(a as int, b as int),
{
    a / b
}

/// Signed division, rounded towards zero.
pub fn div_i64(a: i64, b: i64) -> (q: i64)
    requires
        b > 0,
    ensures
        q == trunc_div(a as int, b as int),
{
    a / b
}

/// Signed division, rounded down.
pub fn floor_div_i128(a: i128, b: i128) -> (q: i128)
    requires
        b > 0,
    ensures
        q == a as int / b as int,
{
    let t: i128 = div_i128(a, b);
    proof {
        lemma_floor_of_trunc(a as int, b as int);
    }
    if a < 0 && t * b != a {
        t - 1
    } else {
        t
    }
}

/// How rounding down differs from rounding towards zero.
proof fn lemma_floor_of_trunc(a: int, b: int)
    requires
        b > 0,
    ensures
        a >= 0 || trunc_div(a, b) * b == a ==> a / b == trunc_div(a, b),
        a < 0 && trunc_div(a, b) * b != a ==> a / b == trunc_div(a, b) - 1,
        a < 0 ==> a <= trunc_div(a, b) * b <= 0,
        a >= 0 ==> 0 <= trunc_div(a, b) * b <= a,
        a < 0 ==> a <= trunc_div(a, b) <= 0,
        a < 0 && trunc_div(a, b) * b != a ==> a < trunc_div(a, b),
{
    let p = abs_int(a);
    let q = p / b;
    let r = p % b;
    vstd::arithmetic::div_mod::lemma_fundamental_div_mod(p, b);
    vstd::arithmetic::div_mod::lemma_mod_pos_bound(p, b);
    vstd::arithmetic::div_mod::lemma_div_pos_is_pos(p, b);
    vstd::arithmetic::div_mod::lemma_div_nonincreasing(p, b);
    assert(q * b == b * q) by (nonlinear_arith);
    assert((-q) * b == -(b * q)) by (nonlinear_arith);
    if a < 0 {
        if r == 0 {
            assert(a == b * (-q)) by (nonlinear_arith)
                requires
                    -a == b * q,
            ;
            vstd::arithmetic::div_mod::lemma_fundamental_div_mod_converse(a, b, -q, 0);
        } else {
            assert(a == b * (-q - 1) + (b - r)) by (nonlinear_arith)
                requires
                    -a == b * q + r,
            ;
            vstd::arithmetic::div_mod::lemma_fundamental_div_mod_converse(a, b, -q - 1, b - r);
            assert(q * b >= q) by (nonlinear_arith)
                requires
                    b >= 1,
                    q >= 0,
            ;
        }
    }
}

/// Signed addition that saturates at the ends of the range.
pub fn saturating_add_i128(a: i128, b: i128) -> (r: i128)
    ensures
        r == clamp_int(a + b, i128::MIN as int, i128::MAX as int),
{
    match a.checked_add(b) {
        Some(s) => s,
        None => if a < 0 {
            i128::MIN
        } else {
            i128::MAX
        },
    }
}

/// Signed subtraction that saturates at the ends of the range.
pub fn saturating_sub_i128(a: i128, b: i128) -> (r: i128)
    ensures
        r == clamp_int(a - b, i128::MIN as int, i128::MAX as int),
{
    match a.checked_sub(b) {
        Some(d) => d,
        None => if a < 0 {
            i128::MIN
        } else {
            i128::MAX
        },
    }
}

/// `base + to - from` on 64-bit counters read as signed, wrapping.
#[verifier::rlimit(40)]
pub fn carry_over(base: u64, from: u64, to: u64) -> (r: i64)
    ensures
        r == as_i64(base + to - from),
{
    let delta: i64 = i64_from_u64(to).wrapping_sub(i64_from_u64(from));
    i64_from_u64(base).wrapping_add(delta)
}

/// The difference of two 64-bit counters read as signed, wrapping.
pub fn counter_diff(a: u64, b: u64) -> (r: i64)
    ensures
        r == as_i64(a - b),
{
    i64_from_u64(a).wrapping_sub(i64_from_u64(b))
}

/// Whether `r` is the integer square root of `n`.
pub open spec fn is_isqrt(n: int, r: int) -> bool {
    0 <= r && r * r <= n < (r + 1) * (r + 1)
}

/// The integer square root of a non-negative `n`.
pub open spec fn isqrt(n: int) -> int {
    choose|r: int| is_isqrt(n, r)
}

/// There is only one integer square root.
pub proof fn lemma_isqrt_unique(n: int, r: int)
    requires
        is_isqrt(n, r),
    ensures
        isqrt(n) == r,
{
    let s = isqrt(n);
    assert(is_isqrt(n, s));
    assert(s == r) by (nonlinear_arith)
        requires
            0 <= r,
            0 <= s,
            r * r <= n < (r + 1) * (r + 1),
            s * s <= n < (s + 1) * (s + 1),
    ;
}

/// Integer square root by Newton iteration.
pub fn isqrt_u128(n: u128) -> (r: u128)
    requires
        n < u128::MAX,
    ensures
        is_isqrt(n as int, r as int),
        r == isqrt(n as int),
{
    if n < 2 {
        assert(n == 0 || n == 1);
        proof {
            lemma_isqrt_unique(n as int, n as int);
        }
        return n;
    }
    let mut x: u128 = n;
    let mut y: u128 = (x + 1) / 2;
    proof {
        lemma_newton_start(n as int);
    }
    while y < x
        invariant
            2 <= n < u128::MAX,
            1 <= x <= n,
            1 <= y,
            n < (x + 1) * (x + 1),
            n < (y + 1) * (y + 1),
            x < n ==> y == (x + n as int / x as int) / 2,
            x < n ==> x <= (n + 1) / 2,
            x == n ==> y == (n + 1) / 2 && y < x,
        decreases x,
    {
        x = y;
        proof {
            lemma_newton_step(n as int, x as int);
        }
        y = (x + n / x) / 2;
    }
    proof {
        lemma_newton_done(n as int, x as int, y as int);
        lemma_isqrt_unique(n as int, x as int);
    }
    x
}

/// From the first guess on, the estimate does not fall below the root.
proof fn lemma_newton_start(n: int)
    requires
        n >= 2,
    ensures
        n < (n + 1) * (n + 1),
        n < ((n + 1) / 2 + 1) * ((n + 1) / 2 + 1),
        1 <= (n + 1) / 2 < n,
{
    assert(n < (n + 1) * (n + 1)) by (nonlinear_arith)
        requires
            n >= 2,
    ;
    let h = (n + 1) / 2;
    assert(n < (h + 1) * (h + 1)) by (nonlinear_arith)
        requires
            n <= 2 * h,
            h >= 1,
    ;
}

proof fn lemma_newton_step(n: int, x: int)
    requires
        n >= 2,
        1 <= x,
        n < (x + 1) * (x + 1),
    ensures
        n / x <= x + 2,
        x >= 2 ==> n / x <= n / 2,
        1 <= (x + n / x) / 2,
        n < ((x + n / x) / 2 + 1) * ((x + n / x) / 2 + 1),
{
    let q = n / x;
    let r = n % x;
    assert(n == x * q + r && 0 <= r < x) by {
        vstd::arithmetic::div_mod::lemma_fundamental_div_mod(n, x);
    }
    assert(q <= x + 2) by (nonlinear_arith)
        requires
            n == x * q + r,
            0 <= r < x,
            n < (x + 1) * (x + 1),
            1 <= x,
    ;
    if x >= 2 {
        vstd::arithmetic::div_mod::lemma_div_is_ordered_by_denominator(n, 2, x);
    }
    assert(x + q >= 2) by (nonlinear_arith)
        requires
            n == x * q + r,
            0 <= r < x,
            n >= 2,
            x >= 1,
    ;
    let h = (x + q) / 2;
    // 2h + 1 >= x + q, and (x + q + 1)^2 >= 4 x (q + 1) > 4 n.
    assert((x + q + 1) * (x + q + 1) >= 4 * (x * (q + 1))) by (nonlinear_arith);
    assert(x * (q + 1) > n) by (nonlinear_arith)
        requires
            n == x * q + r,
            0 <= r < x,
    ;
    assert((2 * (h + 1)) * (2 * (h + 1)) >= (x + q + 1) * (x + q + 1)) by (nonlinear_arith)
        requires
            2 * (h + 1) >= x + q + 1,
            x + q + 1 >= 0,
    ;
    assert((2 * (h + 1)) * (2 * (h + 1)) == 4 * ((h + 1) * (h + 1))) by (nonlinear_arith);
}

/// When a step no longer lowers the estimate, the estimate is the root.
proof fn lemma_newton_done(n: int, x: int, y: int)
    requires
        n >= 2,
        1 <= x <= n,
        y >= x,
        x < n ==> y == (x + n / x) / 2,
        x == n ==> y < x,
    ensures
        x * x <= n,
{
    let q = n / x;
    assert(q >= x);
    assert(n >= x * q) by {
        vstd::arithmetic::div_mod::lemma_fundamental_div_mod(n, x);
    }
    assert(x * q >= x * x) by (nonlinear_arith)
        requires
            q >= x,
            x >= 1,
    ;
}

} // verus!
