//! Signed 16.16 fixed-point scalars.
//!
//! Every coordinate, scale factor and color channel of the renderer is an
//! `i32` holding `value * 65536`.  All operations saturate at the `i32`
//! range instead of wrapping or panicking, and division truncates toward
//! zero; the spec functions below state those results exactly.

use vstd::prelude::*;

verus! {

/// Number of fractional steps in one unit: scalars are signed 16.16 fixed point.
pub const FX_ONE: i32 = 65536;

/// Saturation of a mathematical integer to the `i32` range.
pub open spec fn clamp32(x: int) -> int {
    if x > i32::MAX as int {
        i32::MAX as int
    } else if x < i32::MIN as int {
        i32::MIN as int
    } else {
        x
    }
}

/// Absolute value.
pub open spec fn sabs(x: int) -> int {
    if x >= 0 {
        x
    } else {
        -x
    }
}

/// Division truncating toward zero, as machine division does.
pub open spec fn tdiv(a: int, b: int) -> int
    recommends
        b != 0,
{
    if (a >= 0) == (b >= 0) {
        sabs(a) / sabs(b)
    } else {
        -(sabs(a) / sabs(b))
    }
}

/// What saturating fixed-point addition returns.
pub open spec fn fx_add_spec(a: int, b: int) -> int {
    clamp32(a + b)
}

/// What saturating fixed-point subtraction returns.
pub open spec fn fx_sub_spec(a: int, b: int) -> int {
    clamp32(a - b)
}

/// What saturating fixed-point negation returns.
pub open spec fn fx_neg_spec(a: int) -> int {
    clamp32(-a)
}

/// What saturating fixed-point multiplication returns: the exact product
/// carries 32 fractional bits, so it is rescaled by 2^16, truncating
/// toward zero.
pub open spec fn fx_mul_spec(a: int, b: int) -> int {
    clamp32(tdiv(a * b, 65536))
}

/// What saturating fixed-point division returns.  A zero divisor
/// saturates to the sign of the dividend, like an infinity would.
pub open spec fn fx_div_spec(a: int, b: int) -> int {
    if b == 0 {
        if a > 0 {
            i32::MAX as int
        } else if a < 0 {
            i32::MIN as int
        } else {
            0
        }
    } else {
        clamp32(tdiv(a * 65536, b))
    }
}

/// `r` is the integer square root floor of `n`.
pub open spec fn is_sqrt(n: int, r: int) -> bool {
    0 <= r && r * r <= n && n < (r + 1) * (r + 1)
}

/// The integer square root: the unique `r` with `r^2 <= n < (r+1)^2`.
pub open spec fn sqrt_floor(n: int) -> int {
    choose|r: int| #[trigger] is_sqrt(n, r)
}

/// A square root floor exists for every nonnegative integer.
proof fn lemma_sqrt_exists(n: int)
    requires
        n >= 0,
    ensures
        exists|r: int| #[trigger] is_sqrt(n, r),
    decreases n,
{
    if n == 0 {
        assert(is_sqrt(n, 0));
    } else {
        lemma_sqrt_exists(n - 1);
        let p = choose|r: int| #[trigger] is_sqrt(n - 1, r);
        if (p + 1) * (p + 1) <= n {
            assert(n < (p + 2) * (p + 2)) by (nonlinear_arith)
                requires
                    n - 1 < (p + 1) * (p + 1),
                    p >= 0,
            ;
            assert(is_sqrt(n, p + 1));
        } else {
            assert(is_sqrt(n, p));
        }
    }
}

/// The square root floor is unique.
proof fn lemma_sqrt_unique(n: int, r1: int, r2: int)
    requires
        is_sqrt(n, r1),
        is_sqrt(n, r2),
    ensures
        r1 == r2,
{
    assert(r1 == r2) by (nonlinear_arith)
        requires
            0 <= r1 && r1 * r1 <= n && n < (r1 + 1) * (r1 + 1),
            0 <= r2 && r2 * r2 <= n && n < (r2 + 1) * (r2 + 1),
    ;
}

/// `sqrt_floor` deserves its name.
pub proof fn lemma_sqrt_floor(n: int)
    requires
        n >= 0,
    ensures
        is_sqrt(n, sqrt_floor(n)),
{
    lemma_sqrt_exists(n);
}

/// Saturation of an `i64` into an `i32`.
fn clamp64(x: i64) -> (r: i32)
    ensures
        r as int == clamp32(x as int),
{
    if x > i32::MAX as i64 {
        i32::MAX
    } else if x < i32::MIN as i64 {
        i32::MIN
    } else {
        x as i32
    }
}

/// Saturating fixed-point addition.
pub fn fx_add(a: i32, b: i32) -> (r: i32)
    ensures
        r as int == fx_add_spec(a as int, b as int),
{
    clamp64(a as i64 + b as i64)
}

/// Saturating fixed-point subtraction.
pub fn fx_sub(a: i32, b: i32) -> (r: i32)
    ensures
        r as int == fx_sub_spec(a as int, b as int),
{
    clamp64(a as i64 - b as i64)
}

/// Saturating fixed-point negation.
pub fn fx_neg(a: i32) -> (r: i32)
    ensures
        r as int == fx_neg_spec(a as int),
{
    clamp64(-(a as i64))
}

/// Saturating fixed-point multiplication.
pub fn fx_mul(a: i32, b: i32) -> (r: i32)
    ensures
        r as int == fx_mul_spec(a as int, b as int),
{
    proof {
        assert(sabs((a as int) * (b as int)) <= 0x4000_0000_0000_0000int) by (nonlinear_arith)
            requires
                -0x8000_0000 <= a as int <= 0x7fff_ffff,
                -0x8000_0000 <= b as int <= 0x7fff_ffff,
        ;
    }
    let p: i64 = (a as i64) * (b as i64);
    let neg: bool = p < 0;
    let m: u64 = if neg {
        (-(p as i128)) as u64
    } else {
        p as u64
    };
    assert(m as int == sabs(p as int));
    let q: u64 = m / 65536u64;
    let s: i64 = if neg {
        -(q as i64)
    } else {
        q as i64
    };
    assert(s as int == tdiv((a as int) * (b as int), 65536));
    clamp64(s)
}

/// Saturating fixed-point division.
pub fn fx_div(a: i32, b: i32) -> (r: i32)
    ensures
        r as int == fx_div_spec(a as int, b as int),
{
    if b == 0 {
        if a > 0 {
            i32::MAX
        } else if a < 0 {
            i32::MIN
        } else {
            0
        }
    } else {
        let n: i64 = (a as i64) * 65536;
        let nneg: bool = n < 0;
        let bneg: bool = b < 0;
        let mn: u64 = if nneg {
            (-n) as u64
        } else {
            n as u64
        };
        let mb: u64 = if bneg {
            (-(b as i64)) as u64
        } else {
            b as u64
        };
        assert(mn as int == sabs(n as int));
        assert(mb as int == sabs(b as int));
        let q: u64 = mn / mb;
        proof {
            assert(mn as int / mb as int <= mn as int) by (nonlinear_arith)
                requires
                    mb as int >= 1,
                    mn as int >= 0,
            ;
        }
        let s: i64 = if nneg != bneg {
            -(q as i64)
        } else {
            q as i64
        };
        assert(s as int == tdiv((a as int) * 65536, b as int));
        clamp64(s)
    }
}

/// Widening of a whole number of units into fixed point.
pub fn fx_from_int(n: i16) -> (r: i32)
    ensures
        r as int == (n as int) * 65536,
{
    (n as i32) * 65536
}

/// The integer square root of a 64-bit value, by bisection.
pub fn isqrt64(n: u64) -> (r: u64)
    ensures
        r as int == sqrt_floor(n as int),
{
    let mut lo: u64 = 0;
    let mut hi: u64 = 4294967296u64;
    proof {
        assert((hi as int) * (hi as int) > n as int) by (nonlinear_arith)
            requires
                hi as int == 0x1_0000_0000,
                n as int <= 0xffff_ffff_ffff_ffff,
        ;
    }
    while hi - lo > 1
        invariant
            0 <= lo < hi <= 0x1_0000_0000,
            (lo as int) * (lo as int) <= n as int,
            (hi as int) * (hi as int) > n as int,
        decreases hi - lo,
    {
        let mid: u64 = lo + (hi - lo) / 2;
        proof {
            assert((mid as int) * (mid as int) <= 0x1_0000_0000_0000_0000int) by (nonlinear_arith)
                requires
                    0 <= mid as int <= 0x1_0000_0000,
            ;
        }
        if (mid as u128) * (mid as u128) <= n as u128 {
            lo = mid;
        } else {
            hi = mid;
        }
    }
    proof {
        assert(is_sqrt(n as int, lo as int));
        lemma_sqrt_floor(n as int);
        lemma_sqrt_unique(n as int, lo as int, sqrt_floor(n as int));
    }
    lo
}

} // verus!
