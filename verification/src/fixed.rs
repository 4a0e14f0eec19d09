//! Fixed-point scalars.
//!
//! Every quantity of the simulation (a coordinate, a speed, a density, a
//! time step) is a signed integer that counts millionths: the integer
//! `1_500_000` stands for `1.5`. Products and quotients round toward zero,
//! so that negating an operand negates the result.

use vstd::prelude::*;

verus! {

/// How many units make one: a scalar `v` stands for the number `v / SCALE`.
pub const SCALE: i64 = 1_000_000;

/// The largest magnitude a stored quantity may have (one million, in units).
pub const LIMIT: i64 = 1_000_000_000_000;

/// Whether `v` can be stored as a quantity of the simulation.
pub open spec fn in_range(v: int) -> bool {
    -LIMIT <= v <= LIMIT
}

/// The absolute value of `v`.
pub open spec fn abs(v: int) -> int {
    if v < 0 {
        -v
    } else {
        v
    }
}

/// The quotient of `a` by `b`, rounded toward zero (for `b > 0`).
pub open spec fn trunc_div(a: int, b: int) -> int {
    if a >= 0 {
        a / b
    } else {
        -((-a) / b)
    }
}

/// The fixed-point product of two scalars, rounded toward zero.
pub open spec fn fixed_mul(a: int, b: int) -> int {
    trunc_div(a * b, SCALE as int)
}

/// `v`, or the nearest 64-bit value where `v` does not fit.
pub open spec fn clamp_i64(v: int) -> int {
    if v < i64::MIN {
        i64::MIN as int
    } else if v > i64::MAX {
        i64::MAX as int
    } else {
        v
    }
}

/// Whether `r` is the integer square root of `n`.
pub open spec fn is_floor_sqrt(n: int, r: int) -> bool {
    0 <= r && r * r <= n < (r + 1) * (r + 1)
}

/// The integer square root of `n`: the largest `r` with `r * r <= n`.
pub open spec fn floor_sqrt(n: int) -> int {
    choose|r: int| is_floor_sqrt(n, r)
}

/// A product is bounded by the product of the bounds of its factors.
pub proof fn lemma_mul_bound(a: int, b: int, ma: int, mb: int)
    requires
        abs(a) <= ma,
        abs(b) <= mb,
    ensures
        abs(a * b) <= ma * mb,
        -(ma * mb) <= a * b <= ma * mb,
{
    assert(abs(a * b) <= ma * mb) by (nonlinear_arith)
        requires
            abs(a) <= ma,
            abs(b) <= mb,
    {
        if a >= 0 && b >= 0 {
            assert(a * b <= ma * mb);
        } else if a < 0 && b >= 0 {
            assert((-a) * b <= ma * mb);
        } else if a >= 0 && b < 0 {
            assert(a * (-b) <= ma * mb);
        } else {
            assert((-a) * (-b) <= ma * mb);
        }
    }
}

/// The product of two non-negative numbers is non-negative and grows with
/// either factor.
pub proof fn lemma_mul_nonneg_bound(a: int, b: int, ma: int, mb: int)
    requires
        0 <= a <= ma,
        0 <= b <= mb,
    ensures
        0 <= a * b <= ma * mb,
{
    assert(0 <= a * b <= ma * mb) by (nonlinear_arith)
        requires
            0 <= a <= ma,
            0 <= b <= mb,
    ;
}

/// Rounding toward zero never increases the magnitude, keeps the sign, and
/// a divisor of at least one never yields more than the dividend.
pub proof fn lemma_trunc_div_bound(a: int, d: int)
    requires
        d >= 1,
    ensures
        abs(trunc_div(a, d)) <= abs(a),
        a >= 0 ==> 0 <= trunc_div(a, d) <= a,
        a <= 0 ==> a <= trunc_div(a, d) <= 0,
        trunc_div(-a, d) == -trunc_div(a, d),
{
    assert(forall|n: int| n >= 0 ==> 0 <= #[trigger] (n / d) <= n) by (nonlinear_arith)
        requires
            d >= 1,
    ;
    if a >= 0 {
        assert(0 <= a / d <= a);
    } else {
        assert(0 <= (-a) / d <= -a);
    }
}

/// A dividend of magnitude at most `m * d` gives a quotient of magnitude at
/// most `m`.
pub proof fn lemma_trunc_div_le(a: int, d: int, m: int)
    requires
        d >= 1,
        m >= 0,
        abs(a) <= m * d,
    ensures
        abs(trunc_div(a, d)) <= m,
{
    let n: int = abs(a);
    assert(n / d <= m) by (nonlinear_arith)
        requires
            d >= 1,
            0 <= n <= m * d,
    ;
}

/// There is only one integer square root.
pub proof fn lemma_floor_sqrt_unique(n: int, r: int)
    requires
        is_floor_sqrt(n, r),
    ensures
        floor_sqrt(n) == r,
{
    let s: int = floor_sqrt(n);
    assert(s == r) by (nonlinear_arith)
        requires
            0 <= r,
            r * r <= n < (r + 1) * (r + 1),
            0 <= s,
            s * s <= n < (s + 1) * (s + 1),
    {
        if s < r {
            assert((s + 1) * (s + 1) <= r * r);
        } else if r < s {
            assert((r + 1) * (r + 1) <= s * s);
        }
    }
}

/// Squaring is monotone on the non-negative integers.
pub proof fn lemma_square_monotone(a: int, b: int)
    requires
        0 <= a <= b,
    ensures
        a * a <= b * b,
{
    assert(a * a <= b * b) by (nonlinear_arith)
        requires
            0 <= a <= b,
    ;
}

/// Narrows a wide intermediate to 64 bits, saturating at the ends.
pub fn saturate(v: i128) -> (r: i64)
    ensures
        r == clamp_i64(v as int),
{
    if v < i64::MIN as i128 {
        i64::MIN
    } else if v > i64::MAX as i128 {
        i64::MAX
    } else {
        v as i64
    }
}

/// The product of two 64-bit values, which always fits in 128 bits.
pub fn wide_mul(a: i64, b: i64) -> (p: i128)
    ensures
        p == a * b,
{
    proof {
        lemma_mul_bound(a as int, b as int, 0x8000_0000_0000_0000, 0x8000_0000_0000_0000);
    }
    (a as i128) * (b as i128)
}

/// The fixed-point product of `a` and `b`, rounded toward zero.
///
/// The product of two 64-bit scalars is below 2^126, so the quotient by
/// `SCALE` needs no saturation of the intermediate.
pub fn scaled_mul(a: i64, b: i64) -> (r: i128)
    ensures
        r == fixed_mul(a as int, b as int),
        abs(r as int) <= abs(a * b),
{
    let p: i128 = wide_mul(a, b);
    proof {
        lemma_trunc_div_bound(p as int, SCALE as int);
    }
    p / (SCALE as i128)
}

/// How rounding down relates to rounding toward zero for a negative
/// dividend: where the division leaves a remainder the quotient lies one
/// lower, and the remainder is counted from the other side.
pub proof fn lemma_floor_of_negative(a: int, b: int)
    requires
        a < 0,
        b > 0,
    ensures
        (-a) % b == 0 ==> a / b == -((-a) / b) && a % b == 0,
        (-a) % b != 0 ==> a / b == -((-a) / b) - 1 && a % b == b - (-a) % b,
        a <= a / b <= 0,
{
    let n: int = -a;
    let qn: int = n / b;
    let rn: int = n % b;
    vstd::arithmetic::div_mod::lemma_fundamental_div_mod(n, b);
    lemma_trunc_div_bound(n, b);
    if rn == 0 {
        assert(a == (-qn) * b + 0) by (nonlinear_arith)
            requires
                -a == b * qn + rn,
                rn == 0,
        ;
        vstd::arithmetic::div_mod::lemma_fundamental_div_mod_converse(a, b, -qn, 0);
    } else {
        assert(a == (-qn - 1) * b + (b - rn)) by (nonlinear_arith)
            requires
                -a == b * qn + rn,
        ;
        vstd::arithmetic::div_mod::lemma_fundamental_div_mod_converse(a, b, -qn - 1, b - rn);
        assert(qn + 1 <= n) by (nonlinear_arith)
            requires
                n == b * qn + rn,
                rn > 0,
                b >= 1,
                qn >= 0,
        ;
    }
}

/// The quotient of `a` by `b`, rounded down.
pub fn floor_div(a: i128, b: i128) -> (q: i128)
    requires
        b > 0,
    ensures
        q == a as int / b as int,
        abs(q as int) <= abs(a as int),
{
    let q: i128 = a / b;
    let r: i128 = a % b;
    proof {
        lemma_trunc_div_bound(a as int, b as int);
        if a < 0 {
            lemma_floor_of_negative(a as int, b as int);
        }
    }
    if r < 0 {
        q - 1
    } else {
        q
    }
}

/// The remainder of `a` by `b` that is never negative.
pub fn floor_mod(a: i128, b: i128) -> (r: i128)
    requires
        b > 0,
    ensures
        r == a as int % b as int,
        0 <= r < b,
{
    let r: i128 = a % b;
    proof {
        if a < 0 {
            lemma_floor_of_negative(a as int, b as int);
        }
    }
    if r < 0 {
        r + b
    } else {
        r
    }
}

/// The integer square root of `n`.
pub fn isqrt(n: u128) -> (r: u64)
    ensures
        is_floor_sqrt(n as int, r as int),
        r == floor_sqrt(n as int),
{
    let mut lo: u128 = 0;
    let mut hi: u128 = 0x1_0000_0000_0000_0000;
    proof {
        assert(0x1_0000_0000_0000_0000int * 0x1_0000_0000_0000_0000int
            == 0x1_0000_0000_0000_0000_0000_0000_0000_0000int) by (nonlinear_arith);
    }
    while hi - lo > 1
        invariant
            lo < hi <= 0x1_0000_0000_0000_0000,
            lo * lo <= n < hi * hi,
        decreases hi - lo,
    {
        let mid: u128 = lo + (hi - lo) / 2;
        proof {
            lemma_square_monotone(mid as int, 0xffff_ffff_ffff_ffff);
            assert(0xffff_ffff_ffff_ffffint * 0xffff_ffff_ffff_ffffint
                < 0x1_0000_0000_0000_0000_0000_0000_0000_0000int) by (nonlinear_arith);
        }
        if mid * mid <= n {
            lo = mid;
        } else {
            hi = mid;
        }
    }
    proof {
        lemma_floor_sqrt_unique(n as int, lo as int);
    }
    lo as u64
}

} // verus!
