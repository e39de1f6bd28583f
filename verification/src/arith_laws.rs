//! What the shared arithmetic means, stated by what its results satisfy.

use vstd::prelude::*;

verus! {

/// Reading a pattern as signed or unsigned of some width keeps the numbers of
/// that width, and gives numbers a multiple of 2^width apart the same reading.
pub proof fn law_readings_keep_their_range(x: int, k: int)
    ensures
        -0x8000_0000_0000_0000 <= x < 0x8000_0000_0000_0000 ==> crate::arith::as_i64(
            x + k * 0x1_0000_0000_0000_0000,
        ) == x,
        -0x8000_0000_0000_0000_0000_0000_0000_0000int <= x
            < 0x8000_0000_0000_0000_0000_0000_0000_0000int ==> crate::arith::as_i128(
            x + k * 0x1_0000_0000_0000_0000_0000_0000_0000_0000int,
        ) == x,
        0 <= x < 0x1_0000_0000_0000_0000 ==> crate::arith::as_u64(
            x + k * 0x1_0000_0000_0000_0000,
        ) == x,
        0 <= x < 0x1_0000_0000 ==> crate::arith::as_u32(x + k * 0x1_0000_0000) == x,
{
}

/// Fitting a type is lying between its ends.
pub proof fn law_fitting_is_lying_between(x: int)
    ensures
        crate::arith::fits_i64(x) <==> -0x8000_0000_0000_0000 <= x < 0x8000_0000_0000_0000,
        crate::arith::fits_i128(x) <==> -0x8000_0000_0000_0000_0000_0000_0000_0000int <= x
            < 0x8000_0000_0000_0000_0000_0000_0000_0000int,
{
}

/// A quotient rounded towards zero leaves a remainder that is smaller than the
/// divisor and has the sign of the dividend.
pub proof fn law_quotient_leaves_a_small_remainder(a: int, b: int)
    requires
        b > 0,
    ensures
        a >= 0 ==> 0 <= a - b * crate::arith::trunc_div(a, b) < b,
        a <= 0 ==> -b < a - b * crate::arith::trunc_div(a, b) <= 0,
{
    let p = if a >= 0 {
        a
    } else {
        -a
    };
    vstd::arithmetic::div_mod::lemma_fundamental_div_mod(p, b);
    vstd::arithmetic::div_mod::lemma_mod_pos_bound(p, b);
    let q = p / b;
    assert(b * (-q) == -(b * q)) by (nonlinear_arith);
    if a == 0 {
        vstd::arithmetic::div_mod::lemma_basic_div(0, b);
    }
}

/// There is only one quotient that leaves such a remainder.
pub proof fn lemma_quotient_is_unique(a: int, b: int, q: int)
    requires
        b > 0,
        a >= 0 ==> 0 <= a - b * q < b,
        a < 0 ==> -b < a - b * q <= 0,
    ensures
        crate::arith::trunc_div(a, b) == q,
{
    law_quotient_leaves_a_small_remainder(a, b);
    let t = crate::arith::trunc_div(a, b);
    if a >= 0 {
        assert(t == q) by (nonlinear_arith)
            requires
                b > 0,
                0 <= a - b * q < b,
                0 <= a - b * t < b,
        ;
    } else {
        assert(t == q) by (nonlinear_arith)
            requires
                b > 0,
                -b < a - b * q <= 0,
                -b < a - b * t <= 0,
        ;
    }
}

/// A magnitude is a number or its negative, whichever is not negative.
pub proof fn law_magnitude_is_not_negative(x: int)
    ensures
        crate::arith::abs_int(x) >= 0,
        crate::arith::abs_int(x) == x || crate::arith::abs_int(x) == -x,
{
}

/// Clamping gives the nearest number between the ends.
pub proof fn law_clamping_gives_the_nearest(x: int, lo: int, hi: int)
    requires
        lo <= hi,
    ensures
        lo <= crate::arith::clamp_int(x, lo, hi) <= hi,
        lo <= x <= hi ==> crate::arith::clamp_int(x, lo, hi) == x,
        x <= lo ==> crate::arith::clamp_int(x, lo, hi) == lo,
        x >= hi ==> crate::arith::clamp_int(x, lo, hi) == hi,
{
}

/// The square root is the number whose square does not exceed `n` while that of
/// the next one does.
pub proof fn law_square_root_brackets(n: int, r: int)
    requires
        0 <= r,
        r * r <= n,
        n < (r + 1) * (r + 1),
    ensures
        crate::arith::isqrt(n) == r,
        crate::arith::is_isqrt(n, r),
        forall|s: int| crate::arith::is_isqrt(n, s) ==> s == r,
{
    crate::arith::lemma_isqrt_unique(n, r);
    assert forall|s: int| crate::arith::is_isqrt(n, s) implies s == r by {
        crate::arith::lemma_isqrt_unique(n, s);
    }
}

/// Byte `i` of the little-endian form of `v` is the digit of 256 to the power
/// `i` in it.
pub proof fn law_bytes_are_digits_of_256(v: nat, n: nat, i: nat)
    requires
        i < n,
    ensures
        crate::bytes::le_bytes(v, n).len() == n,
        crate::bytes::le_bytes(v, n)[i as int] == (v as int / vstd::arithmetic::power::pow(256, i))
            % 256,
    decreases n,
{
    let p = vstd::arithmetic::power::pow(256, i);
    crate::bytes::lemma_le_bytes_len(v, n);
    vstd::arithmetic::power::lemma_pow_positive(256, i);
    if i == 0 {
        vstd::arithmetic::power::lemma_pow0(256);
    } else {
        let j = (i - 1) as nat;
        law_bytes_are_digits_of_256(v / 256, (n - 1) as nat, j);
        crate::bytes::lemma_le_bytes_len(v / 256, (n - 1) as nat);
        reveal(vstd::arithmetic::power::pow);
        vstd::arithmetic::power::lemma_pow_positive(256, j);
        vstd::arithmetic::div_mod::lemma_div_denominator(
            v as int,
            256,
            vstd::arithmetic::power::pow(256, j),
        );
        assert(crate::bytes::le_bytes(v, n)[i as int] == crate::bytes::le_bytes(
            v / 256,
            (n - 1) as nat,
        )[j as int]);
    }
}

/// One more byte at the end of a little-endian number counts 256 to the power
/// of its place.
pub proof fn law_last_byte_counts_most(b: Seq<u8>, x: u8)
    ensures
        crate::bytes::le_value(Seq::empty()) == 0,
        crate::bytes::le_value(b.push(x)) == crate::bytes::le_value(b)
            + vstd::arithmetic::power::pow(256, b.len()) * x,
    decreases b.len(),
{
    let longer = b.push(x);
    if b.len() == 0 {
        vstd::arithmetic::power::lemma_pow0(256);
        assert(longer.skip(1) =~= Seq::<u8>::empty());
        assert(crate::bytes::le_value(longer.skip(1)) == 0);
    } else {
        law_last_byte_counts_most(b.skip(1), x);
        assert(longer.skip(1) =~= b.skip(1).push(x));
        reveal(vstd::arithmetic::power::pow);
        let p = vstd::arithmetic::power::pow(256, (b.len() - 1) as nat);
        assert(256 * (p * x) == (256 * p) * x) by (nonlinear_arith);
    }
}

/// Eight little-endian bytes stand for the number that they are the bytes of.
pub proof fn law_eight_bytes_make_their_number(b: Seq<u8>)
    requires
        b.len() == 8,
    ensures
        crate::bytes::le_value(b) == b[0] + 0x100 * b[1] + 0x1_0000 * b[2] + 0x100_0000 * b[3]
            + 0x1_0000_0000 * b[4] + 0x100_0000_0000 * b[5] + 0x1_0000_0000_0000 * b[6]
            + 0x100_0000_0000_0000 * b[7],
{
    lemma_four_bytes(b);
    lemma_four_bytes(b.skip(4));
    assert(b.skip(4).skip(4) =~= Seq::<u8>::empty());
    assert(crate::bytes::le_value(Seq::empty()) == 0);
}

/// Four bytes and what follows them.
proof fn lemma_four_bytes(b: Seq<u8>)
    requires
        b.len() >= 4,
    ensures
        crate::bytes::le_value(b) == b[0] + 0x100 * b[1] + 0x1_0000 * b[2] + 0x100_0000 * b[3]
            + 0x1_0000_0000 * crate::bytes::le_value(b.skip(4)),
{
    assert(b.skip(1).skip(1) =~= b.skip(2));
    assert(b.skip(2).skip(1) =~= b.skip(3));
    assert(b.skip(3).skip(1) =~= b.skip(4));
    assert(crate::bytes::le_value(b) == b[0] + 256 * crate::bytes::le_value(b.skip(1)));
    assert(crate::bytes::le_value(b.skip(1)) == b[1] + 256 * crate::bytes::le_value(b.skip(2)));
    assert(crate::bytes::le_value(b.skip(2)) == b[2] + 256 * crate::bytes::le_value(b.skip(3)));
    assert(crate::bytes::le_value(b.skip(3)) == b[3] + 256 * crate::bytes::le_value(b.skip(4)));
}

/// Four little-endian bytes stand for the number that they are the bytes of.
pub proof fn law_four_bytes_make_their_number(b: Seq<u8>)
    requires
        b.len() == 4,
    ensures
        crate::bytes::le_value(b) == b[0] + 0x100 * b[1] + 0x1_0000 * b[2] + 0x100_0000 * b[3],
{
    lemma_four_bytes(b);
    assert(b.skip(4) =~= Seq::<u8>::empty());
    assert(crate::bytes::le_value(Seq::empty()) == 0);
}

/// The upper eight of sixteen little-endian bytes count 2^64 times what they
/// stand for by themselves.
pub proof fn law_sixteen_bytes_are_two_halves(b: Seq<u8>)
    requires
        b.len() == 16,
    ensures
        crate::bytes::le_value(b) == crate::bytes::le_value(b.take(8)) + 0x1_0000_0000_0000_0000
            * crate::bytes::le_value(b.skip(8)),
{
    lemma_four_bytes(b);
    lemma_four_bytes(b.skip(4));
    assert(b.skip(4).skip(4) =~= b.skip(8));
    law_eight_bytes_make_their_number(b.take(8));
}

} // verus!
