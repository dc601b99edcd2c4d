//! Decisions on IEEE 754 numbers, taken on their bit patterns: order, rounding
//! to integers and the sign. Arithmetic on such numbers is not done here.

use vstd::arithmetic::div_mod::{lemma_fundamental_div_mod, lemma_fundamental_div_mod_converse};
use vstd::arithmetic::power2::{lemma2_to64, lemma2_to64_rest, lemma_pow2_adds, lemma_pow2_pos, lemma_pow2_strictly_increases, pow2};
use vstd::bits::{lemma_u64_shl_is_mul, lemma_u64_shr_is_div};
use vstd::prelude::*;

verus! {

/// The bits below the sign.
pub open spec fn magnitude(b: u64) -> nat {
    (b % 0x8000_0000_0000_0000) as nat
}

pub open spec fn is_negative(b: u64) -> bool {
    b >= 0x8000_0000_0000_0000
}

pub open spec fn is_nan(b: u64) -> bool {
    magnitude(b) > 0x7ff0_0000_0000_0000
}

/// The biased exponent; subnormal numbers have that of the smallest normal
/// ones.
pub open spec fn exponent(b: u64) -> nat {
    let e = magnitude(b) / 0x10_0000_0000_0000;
    if e == 0 {
        1
    } else {
        e
    }
}

pub open spec fn significand(b: u64) -> nat {
    let fraction = magnitude(b) % 0x10_0000_0000_0000;
    if magnitude(b) < 0x10_0000_0000_0000 {
        fraction
    } else {
        0x10_0000_0000_0000 + fraction
    }
}

/// The number without its sign, as a multiple of the smallest positive one.
pub open spec fn size(b: u64) -> int {
    (significand(b) * pow2((exponent(b) - 1) as nat)) as int
}

/// The number that the bits stand for, as a multiple of the smallest positive
/// one, which is the 1074th power of a half. An infinity counts as the first
/// power of two beyond the finite numbers.
pub open spec fn units(b: u64) -> int {
    if is_negative(b) {
        -size(b)
    } else {
        size(b)
    }
}

/// How many of those units make one.
pub open spec fn one() -> int {
    pow2(1074) as int
}

/// `a < b` on numbers; never with a NaN.
pub open spec fn f64_lt(a: u64, b: u64) -> bool {
    !is_nan(a) && !is_nan(b) && units(a) < units(b)
}

/// `a <= b` on numbers; never with a NaN.
pub open spec fn f64_le(a: u64, b: u64) -> bool {
    !is_nan(a) && !is_nan(b) && units(a) <= units(b)
}

/// Signed magnitudes order as the numbers do.
spec fn order_key(b: u64) -> int {
    if is_negative(b) {
        -(magnitude(b) as int)
    } else {
        magnitude(b) as int
    }
}

proof fn lemma_size_mono(a: u64, b: u64)
    requires
        magnitude(a) < magnitude(b),
    ensures
        size(a) < size(b),
{
    let sa = significand(a) as int;
    let sb = significand(b) as int;
    let pa = pow2((exponent(a) - 1) as nat) as int;
    let pb = pow2((exponent(b) - 1) as nat) as int;
    lemma_pow2_pos((exponent(a) - 1) as nat);
    lemma_pow2_pos((exponent(b) - 1) as nat);
    if exponent(a) == exponent(b) {
        assert(sa < sb);
        assert(sa * pa < sb * pa) by (nonlinear_arith)
            requires
                sa < sb,
                pa > 0,
        ;
    } else {
        assert(exponent(a) < exponent(b));
        let steps = (exponent(b) - exponent(a)) as nat;
        lemma_pow2_adds((exponent(a) - 1) as nat, steps);
        assert((exponent(a) - 1) as nat + steps == (exponent(b) - 1) as nat);
        lemma2_to64();
        if steps > 1 {
            lemma_pow2_strictly_increases(1, steps);
        }
        let k = pow2(steps) as int;
        assert(pb == pa * k);
        assert(k >= 2);
        assert(sa < 0x20_0000_0000_0000 && sb >= 0x10_0000_0000_0000);
        assert(sa * pa < sb * pb) by (nonlinear_arith)
            requires
                pb == pa * k,
                k >= 2,
                pa > 0,
                0 <= sa < 0x20_0000_0000_0000,
                sb >= 0x10_0000_0000_0000,
        ;
    }
}

proof fn lemma_same_size(a: u64, b: u64)
    requires
        magnitude(a) == magnitude(b),
    ensures
        size(a) == size(b),
{
}

proof fn lemma_size_sign(b: u64)
    ensures
        magnitude(b) == 0 ==> units(b) == 0,
        magnitude(b) > 0 && is_negative(b) ==> units(b) < 0,
        magnitude(b) > 0 && !is_negative(b) ==> units(b) > 0,
{
    let p = pow2((exponent(b) - 1) as nat) as int;
    let s = significand(b) as int;
    lemma_pow2_pos((exponent(b) - 1) as nat);
    if magnitude(b) == 0 {
        assert(s * p == 0) by (nonlinear_arith)
            requires
                s == 0,
        ;
    } else {
        assert(s > 0);
        assert(s * p > 0) by (nonlinear_arith)
            requires
                s > 0,
                p > 0,
        ;
    }
}

proof fn lemma_order(a: u64, b: u64)
    ensures
        order_key(a) < order_key(b) <==> units(a) < units(b),
        order_key(a) == order_key(b) <==> units(a) == units(b),
{
    lemma_size_sign(a);
    lemma_size_sign(b);
    if magnitude(a) < magnitude(b) {
        lemma_size_mono(a, b);
    } else if magnitude(b) < magnitude(a) {
        lemma_size_mono(b, a);
    } else {
        lemma_same_size(a, b);
    }
}

/// Bit patterns without a sign order as the numbers do, and those with a sign
/// the other way round; a number with a sign is never above one without.
pub proof fn law_bit_patterns_order_numbers(a: u64, b: u64)
    requires
        !is_nan(a),
        !is_nan(b),
    ensures
        a < 0x8000_0000_0000_0000 && b < 0x8000_0000_0000_0000 ==> (f64_lt(a, b) <==> a < b),
        a >= 0x8000_0000_0000_0000 && b >= 0x8000_0000_0000_0000 ==> (f64_lt(a, b) <==> b < a),
        a >= 0x8000_0000_0000_0000 && b < 0x8000_0000_0000_0000 ==> f64_le(a, b),
        f64_le(a, b) <==> !f64_lt(b, a),
{
    lemma_order(a, b);
    lemma_size_sign(a);
    lemma_size_sign(b);
}

fn order_of(b: u64) -> (k: i64)
    ensures
        k == order_key(b),
{
    if b >= 0x8000_0000_0000_0000 {
        -((b % 0x8000_0000_0000_0000) as i64)
    } else {
        b as i64
    }
}

pub fn nan(b: u64) -> (r: bool)
    ensures
        r == is_nan(b),
{
    b % 0x8000_0000_0000_0000 > 0x7ff0_0000_0000_0000
}

pub fn lt(a: u64, b: u64) -> (r: bool)
    ensures
        r == f64_lt(a, b),
{
    proof {
        lemma_order(a, b);
    }
    !nan(a) && !nan(b) && order_of(a) < order_of(b)
}

pub fn le(a: u64, b: u64) -> (r: bool)
    ensures
        r == f64_le(a, b),
{
    proof {
        lemma_order(a, b);
    }
    !nan(a) && !nan(b) && order_of(a) <= order_of(b)
}

/// The same number without its sign.
pub open spec fn abs_of(b: u64) -> u64 {
    (b % 0x8000_0000_0000_0000) as u64
}

pub fn abs(b: u64) -> (r: u64)
    ensures
        r == abs_of(b),
{
    b % 0x8000_0000_0000_0000
}

/// The place of a pattern in the total order of all patterns: negative NaNs
/// first, then the numbers from the smallest to the largest with negative zero
/// in front of zero, then positive NaNs.
pub open spec fn total_key(b: u64) -> int {
    if is_negative(b) {
        -(magnitude(b) as int) - 1
    } else {
        magnitude(b) as int
    }
}

pub fn total_order_of(b: u64) -> (k: i64)
    ensures
        k == total_key(b),
{
    if b >= 0x8000_0000_0000_0000 {
        -((b % 0x8000_0000_0000_0000) as i64) - 1
    } else {
        b as i64
    }
}

/// The largest integer that is at most the number.
pub open spec fn floor_of(b: u64) -> int {
    units(b) / one()
}

/// The number without its fraction.
pub open spec fn trunc_of(b: u64) -> int {
    if units(b) >= 0 {
        units(b) / one()
    } else {
        -((-units(b)) / one())
    }
}

pub open spec fn clamp(v: int, low: int, high: int) -> int {
    if v < low {
        low
    } else if v > high {
        high
    } else {
        v
    }
}

/// Rounding down and converting to a 32-bit integer: too large numbers give
/// the nearest integer there is, a NaN gives zero.
pub open spec fn floor_to_i32(b: u64) -> i32 {
    if is_nan(b) {
        0
    } else {
        clamp(floor_of(b), i32::MIN as int, i32::MAX as int) as i32
    }
}

/// Converting to a 64-bit integer: the fraction is dropped, too large numbers
/// give the nearest integer there is, a NaN gives zero.
pub open spec fn trunc_to_i64(b: u64) -> i64 {
    if is_nan(b) {
        0
    } else {
        clamp(trunc_of(b), i64::MIN as int, i64::MAX as int) as i64
    }
}

/// Scaling both sides by a common factor does not change the quotient.
proof fn lemma_scaled_floor(m: int, p: int, s: int, q: int)
    requires
        p > 0,
        s > 0,
        q * s <= m < (q + 1) * s,
    ensures
        (m * p) / (p * s) == q,
{
    let d = p * s;
    let r = m * p - q * d;
    assert(d > 0) by (nonlinear_arith)
        requires
            p > 0,
            s > 0,
            d == p * s,
    ;
    assert(0 <= r < d) by (nonlinear_arith)
        requires
            r == m * p - q * d,
            d == p * s,
            q * s <= m < (q + 1) * s,
            p > 0,
    ;
    lemma_fundamental_div_mod_converse(m * p, d, q, r);
}

/// The integer part of a size below two to the 63rd, and whether there is a
/// fraction.
fn whole_part(b: u64) -> (r: (u64, bool))
    requires
        exponent(b) < 1086,
    ensures
        r.0 < 0x8000_0000_0000_0000,
        exponent(b) < 1054 ==> r.0 < 0x8000_0000,
        size(b) / one() == r.0,
        (-size(b)) / one() == -(r.0 as int) - (if r.1 {
            1int
        } else {
            0int
        }),
{
    let m: u64 = b % 0x8000_0000_0000_0000;
    let e0: u64 = m / 0x10_0000_0000_0000;
    let e: u64 = if e0 == 0 {
        1
    } else {
        e0
    };
    let fraction: u64 = m % 0x10_0000_0000_0000;
    let sig: u64 = if e0 == 0 {
        fraction
    } else {
        0x10_0000_0000_0000 + fraction
    };
    assert(sig == significand(b));
    assert(e == exponent(b));
    let ghost p = pow2((e - 1) as nat) as int;
    proof {
        lemma2_to64();
        lemma2_to64_rest();
        lemma_pow2_pos((e - 1) as nat);
    }
    if e >= 1075 {
        let k: u64 = e - 1075;
        proof {
            // sig * 2^(e-1) == (sig * 2^k) * 2^1074
            lemma_pow2_adds(k as nat, 1074);
            assert(k as nat + 1074 == (e - 1) as nat);
            lemma_pow2_pos(k as nat);
            lemma_pow2_pos(1074);
            if k < 10 {
                lemma_pow2_strictly_increases(k as nat, 10);
            }
            let f = pow2(k as nat) as int;
            assert(sig * f < 0x8000_0000_0000_0000) by (nonlinear_arith)
                requires
                    0 <= sig < 0x20_0000_0000_0000,
                    0 < f <= 1024,
            ;
            lemma_u64_shl_is_mul(sig, k);
            let q = sig * f;
            assert(sig * p == q * pow2(1074)) by (nonlinear_arith)
                requires
                    p == f * pow2(1074),
                    q == sig * f,
            ;
            lemma_fundamental_div_mod_converse(sig * p, one(), q, 0);
            assert(-(sig * p) == (-q) * one()) by (nonlinear_arith)
                requires
                    sig * p == q * one(),
            ;
            lemma_fundamental_div_mod_converse(-(sig * p), one(), -q, 0);
        }
        (sig << k, false)
    } else {
        let s: u64 = 1075 - e;
        let ghost scale = pow2(s as nat) as int;
        proof {
            lemma_pow2_adds((e - 1) as nat, s as nat);
            assert((e - 1) as nat + s as nat == 1074);
            lemma_pow2_pos(s as nat);
            assert(one() == p * scale);
        }
        if s >= 53 {
            proof {
                if s > 53 {
                    lemma_pow2_strictly_increases(53, s as nat);
                }
                let m = sig as int;
                assert(m < scale);
                lemma_scaled_floor(m, p, scale, 0);
                if m > 0 {
                    lemma_scaled_floor(-m, p, scale, -1);
                } else {
                    lemma_scaled_floor(-m, p, scale, 0);
                }
                assert((-m) * p == -(m * p)) by (nonlinear_arith);
            }
            (0, sig != 0)
        } else {
            let q: u64 = sig >> s;
            proof {
                lemma_u64_shr_is_div(sig, s);
                let m = sig as int;
                vstd::arithmetic::div_mod::lemma_fundamental_div_mod(m, scale);
                assert(q * scale <= m < (q + 1) * scale) by (nonlinear_arith)
                    requires
                        m == scale * (m / scale) + m % scale,
                        q == m / scale,
                        0 <= m % scale < scale,
                ;
                assert(q <= m) by (nonlinear_arith)
                    requires
                        q * scale <= m,
                        scale >= 1,
                        q >= 0,
                ;
                lemma_scaled_floor(m, p, scale, q as int);
                lemma_u64_shl_is_mul(q, s);
                assert((-m) * p == -(m * p)) by (nonlinear_arith);
                if m == q * scale {
                    assert((-(q as int)) * scale <= -m < (-(q as int) + 1) * scale)
                        by (nonlinear_arith)
                        requires
                            m == q * scale,
                            scale > 0,
                    ;
                    lemma_scaled_floor(-m, p, scale, -(q as int));
                } else {
                    assert((-(q as int) - 1) * scale <= -m < (-(q as int)) * scale)
                        by (nonlinear_arith)
                        requires
                            q * scale < m < (q + 1) * scale,
                    ;
                    lemma_scaled_floor(-m, p, scale, -(q as int) - 1);
                }
                if e < 1054 {
                    // the shift is at least 22, and the significand is below 2^53
                    if s > 22 {
                        lemma_pow2_strictly_increases(22, s as nat);
                    }
                    assert(q < 0x8000_0000) by (nonlinear_arith)
                        requires
                            q * scale <= m,
                            scale >= 0x40_0000,
                            m < 0x20_0000_0000_0000,
                    ;
                }
            }
            let fraction = (q << s) != sig;
            (q, fraction)
        }
    }
}

/// Numbers with a large exponent lie beyond the given power of two.
proof fn lemma_beyond(b: u64, bits: nat)
    requires
        bits <= 63,
        exponent(b) >= 1023 + bits,
    ensures
        size(b) >= pow2(bits) * one(),
        size(b) / one() >= pow2(bits),
        (-size(b)) / one() <= -(pow2(bits) as int),
{
    let s = significand(b) as int;
    let e = exponent(b);
    let p = pow2((e - 1) as nat) as int;
    let low = (1022 + bits) as nat;
    lemma2_to64();
    lemma2_to64_rest();
    lemma_pow2_adds(52, low);
    lemma_pow2_adds(bits, 1074);
    assert(52 + low == bits + 1074);
    if (e - 1) as nat > low {
        lemma_pow2_strictly_increases(low, (e - 1) as nat);
    }
    lemma_pow2_pos(low);
    lemma_pow2_pos(1074);
    let total = s * p;
    assert(total == size(b));
    assert(s >= 0x10_0000_0000_0000);
    assert(total >= 0x10_0000_0000_0000 * pow2(low)) by (nonlinear_arith)
        requires
            total == s * p,
            s >= 0x10_0000_0000_0000,
            p >= pow2(low),
            pow2(low) > 0,
    ;
    assert(total >= pow2(bits) * one());
    vstd::arithmetic::div_mod::lemma_fundamental_div_mod(total, one());
    vstd::arithmetic::div_mod::lemma_fundamental_div_mod(-total, one());
    let q = total / one();
    let n = (-total) / one();
    assert(q >= pow2(bits)) by (nonlinear_arith)
        requires
            total == one() * q + total % one(),
            0 <= total % one() < one(),
            total >= pow2(bits) * one(),
    ;
    assert(n <= -(pow2(bits) as int)) by (nonlinear_arith)
        requires
            -total == one() * n + (-total) % one(),
            0 <= (-total) % one() < one(),
            total >= pow2(bits) * one(),
    ;
}

/// `b.floor() as i32`.
pub fn floor_i32(b: u64) -> (r: i32)
    ensures
        r == floor_to_i32(b),
{
    if nan(b) {
        return 0;
    }
    let negative = b >= 0x8000_0000_0000_0000;
    let e: u64 = (b % 0x8000_0000_0000_0000) / 0x10_0000_0000_0000;
    proof {
        lemma2_to64();
    }
    if e >= 1054 {
        proof {
            lemma_beyond(b, 31);
        }
        if negative {
            return i32::MIN;
        } else {
            return i32::MAX;
        }
    }
    let (whole, fraction) = whole_part(b);
    if negative {
        let down: i64 = if fraction {
            1
        } else {
            0
        };
        (-(whole as i64) - down) as i32
    } else {
        whole as i32
    }
}

/// `b as i64`.
pub fn trunc_i64(b: u64) -> (r: i64)
    ensures
        r == trunc_to_i64(b),
{
    proof {
        lemma_size_sign(b);
    }
    if nan(b) {
        return 0;
    }
    let negative = b >= 0x8000_0000_0000_0000;
    let e: u64 = (b % 0x8000_0000_0000_0000) / 0x10_0000_0000_0000;
    proof {
        lemma2_to64();
        lemma2_to64_rest();
    }
    if e >= 1086 {
        proof {
            lemma_beyond(b, 63);
        }
        if negative {
            return i64::MIN;
        } else {
            return i64::MAX;
        }
    }
    let (whole, _) = whole_part(b);
    if negative {
        -(whole as i64)
    } else {
        whole as i64
    }
}

/// Rounding down gives the integer that is at most the number and more than the
/// number less one; integers that do not fit give the nearest that does.
pub proof fn law_floor_is_the_integer_below(b: u64)
    requires
        !is_nan(b),
    ensures
        one() > 0,
        i32::MIN * one() <= units(b) < (i32::MAX + 1) * one() ==> floor_to_i32(b) * one()
            <= units(b) < (floor_to_i32(b) + 1) * one(),
        units(b) < i32::MIN * one() ==> floor_to_i32(b) == i32::MIN,
        units(b) >= (i32::MAX + 1) * one() ==> floor_to_i32(b) == i32::MAX,
{
    lemma_pow2_pos(1074);
    let (u, o) = (units(b), one());
    let f = floor_of(b);
    lemma_fundamental_div_mod(u, o);
    assert(f * o <= u < (f + 1) * o) by (nonlinear_arith)
        requires
            u == o * f + u % o,
            0 <= u % o < o,
    ;
    lemma_order_of_multiples(f, i32::MIN as int, u, o);
    lemma_order_of_multiples(f, i32::MAX + 1, u, o);
}

proof fn lemma_order_of_multiples(f: int, n: int, u: int, o: int)
    requires
        o > 0,
        f * o <= u < (f + 1) * o,
    ensures
        n * o <= u <==> n <= f,
{
    if n <= f {
        assert(n * o <= f * o) by (nonlinear_arith)
            requires
                n <= f,
                o > 0,
        ;
    } else {
        assert((f + 1) * o <= n * o) by (nonlinear_arith)
            requires
                f + 1 <= n,
                o > 0,
        ;
    }
}

proof fn lemma_whole(b: u64, odd: nat, shift: nat)
    requires
        !is_nan(b),
        significand(b) == odd * pow2(shift),
    ensures
        size(b) == odd * pow2((shift + exponent(b) - 1) as nat),
{
    let e = (exponent(b) - 1) as nat;
    lemma_pow2_adds(shift, e);
    assert((odd * pow2(shift)) * pow2(e) == odd * (pow2(shift) * pow2(e))) by (nonlinear_arith);
}

/// 0x4008_0000_0000_0000 is three.
pub proof fn lemma_three()
    ensures
        !is_nan(0x4008_0000_0000_0000),
        units(0x4008_0000_0000_0000) == 3 * one(),
{
    lemma2_to64();
    lemma2_to64_rest();
    lemma_whole(0x4008_0000_0000_0000, 3, 51);
}

/// 0x4051_8000_0000_0000 is seventy.
pub proof fn lemma_seventy()
    ensures
        !is_nan(0x4051_8000_0000_0000),
        units(0x4051_8000_0000_0000) == 70 * one(),
{
    lemma2_to64();
    lemma2_to64_rest();
    lemma_whole(0x4051_8000_0000_0000, 35, 47);
    lemma_pow2_adds(1, 1074);
}

/// 0xc060_0000_0000_0000 is 128 below zero.
pub proof fn lemma_minus_128()
    ensures
        !is_nan(0xc060_0000_0000_0000),
        units(0xc060_0000_0000_0000) == -128 * one(),
{
    lemma2_to64();
    lemma2_to64_rest();
    lemma_whole(0xc060_0000_0000_0000, 1, 52);
    lemma_pow2_adds(7, 1074);
}

/// Whether a 32-bit number is above zero.
pub open spec fn f32_positive(b: u32) -> bool {
    0 < b <= 0x7f80_0000
}

pub fn is_positive_f32(b: u32) -> (r: bool)
    ensures
        r == f32_positive(b),
{
    0 < b && b <= 0x7f80_0000
}

/// Whether a 32-bit number is below zero.
pub open spec fn f32_below_zero(b: u32) -> bool {
    0x8000_0000 < b <= 0xff80_0000
}

pub fn is_negative_f32(b: u32) -> (r: bool)
    ensures
        r == f32_below_zero(b),
{
    0x8000_0000 < b && b <= 0xff80_0000
}

/// The order of all bit patterns agrees with that of the numbers; of the two
/// zeros the one with a sign comes first.
pub proof fn law_total_order_agrees_with_numbers(a: u64, b: u64)
    requires
        !is_nan(a),
        !is_nan(b),
    ensures
        units(a) < units(b) ==> total_key(a) < total_key(b),
        total_key(a) == total_key(b) ==> a == b,
        total_key(0x8000_0000_0000_0000) < total_key(0),
{
    lemma_order(a, b);
}

/// Dropping the fraction gives the integer nearest to zero within one of the
/// number, with the sign of the number.
pub proof fn law_truncation_drops_the_fraction(b: u64)
    requires
        !is_nan(b),
        i64::MIN * one() <= units(b) < (i64::MAX + 1) * one(),
    ensures
        units(b) >= 0 ==> trunc_to_i64(b) * one() <= units(b) < (trunc_to_i64(b) + 1) * one(),
        units(b) <= 0 ==> (trunc_to_i64(b) - 1) * one() < units(b) <= trunc_to_i64(b) * one(),
{
    lemma_pow2_pos(1074);
    let (u, o) = (units(b), one());
    if u >= 0 {
        let q = u / o;
        lemma_fundamental_div_mod(u, o);
        assert(q * o <= u < (q + 1) * o) by (nonlinear_arith)
            requires
                u == o * q + u % o,
                0 <= u % o < o,
        ;
        lemma_order_of_multiples(q, 0, u, o);
        lemma_order_of_multiples(q, i64::MAX + 1, u, o);
    }
    if u <= 0 {
        let v = -u;
        let q = v / o;
        lemma_fundamental_div_mod(v, o);
        assert(q * o <= v < (q + 1) * o) by (nonlinear_arith)
            requires
                v == o * q + v % o,
                0 <= v % o < o,
        ;
        lemma_order_of_multiples(q, 0, v, o);
        lemma_order_of_multiples(q, -(i64::MIN as int) + 1, v, o);
        assert((-q - 1) * o < u <= (-q) * o) by (nonlinear_arith)
            requires
                q * o <= -u < (q + 1) * o,
        ;
        assert(v < (-(i64::MIN as int) + 1) * o) by (nonlinear_arith)
            requires
                v == -u,
                i64::MIN * o <= u,
                o > 0,
        ;
    }
}

/// 0x4002_0000_0000_0000 is two and a quarter.
pub proof fn lemma_nine_quarters()
    ensures
        !is_nan(0x4002_0000_0000_0000),
        4 * units(0x4002_0000_0000_0000) == 9 * one(),
{
    lemma2_to64();
    lemma2_to64_rest();
    lemma_whole(0x4002_0000_0000_0000, 9, 49);
    lemma_pow2_adds(2, 1072);
}

} // verus!
