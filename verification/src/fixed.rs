//! Fixed-point scalar arithmetic.
//!
//! A world-space quantity `q` is carried as the integer `q * SCALE`
//! (binary fixed point with 16 fractional bits). All operations round
//! toward zero, and every executable function states its result exactly
//! over mathematical integers.

use vstd::prelude::*;

verus! {

/// One world unit in fixed-point raw units.
pub const SCALE: i64 = 65536;

/// Division that truncates toward zero, the rounding of Rust's `/` on
/// signed integers, stated over mathematical integers. The divisor is
/// taken positive; all uses in this crate divide by a positive quantity.
pub open spec fn tdiv(n: int, d: int) -> int {
    if n >= 0 {
        n / d
    } else {
        -((-n) / d)
    }
}

/// Fixed-point product of two raw values: the true product scaled back
/// down by `SCALE`, rounded toward zero.
pub open spec fn mul_fx_spec(a: int, b: int) -> int {
    tdiv(a * b, SCALE as int)
}

/// Magnitude of a raw value.
pub open spec fn abs_sp(a: int) -> int {
    if a >= 0 {
        a
    } else {
        -a
    }
}

proof fn lemma_mul_sign_split(a: int, b: int, am: int, bm: int) by (nonlinear_arith)
    requires
        am == if a >= 0 { a } else { -a },
        bm == if b >= 0 { b } else { -b },
    ensures
        a * b == if (a >= 0) == (b >= 0) {
            am * bm
        } else {
            -(am * bm)
        },
        am * bm >= 0,
{
}

proof fn lemma_div_bound(n: int, d: int)
    requires
        n >= 0,
        d >= 1,
    ensures
        0 <= n / d <= n,
{
    assert(0 <= n / d <= n) by (nonlinear_arith)
        requires
            n >= 0,
            d >= 1,
    ;
}

/// Fixed-point multiply. The result is exactly the truncated scaled
/// product, and no larger in magnitude than `|a * b| / SCALE`.
pub fn mul_fx(a: i64, b: i64) -> (r: i64)
    requires
        abs_sp(a as int) <= 0x1_0000_0000_0000,
        abs_sp(b as int) <= 0x1_0000_0000_0000,
        abs_sp((a as int) * (b as int)) <= 0x4000_0000_0000_0000,
    ensures
        r as int == mul_fx_spec(a as int, b as int),
        abs_sp(r as int) * (SCALE as int) <= abs_sp((a as int) * (b as int)),
{
    let am: i64 = if a >= 0 { a } else { -a };
    let bm: i64 = if b >= 0 { b } else { -b };
    proof {
        lemma_mul_sign_split(a as int, b as int, am as int, bm as int);
    }
    let pm: i64 = (am * bm) / SCALE;
    proof {
        lemma_div_bound((am * bm) as int, SCALE as int);
    }
    if (a >= 0) == (b >= 0) {
        pm
    } else {
        -pm
    }
}

/// `r` is the integer square root of `n`, rounded down.
pub open spec fn is_sqrt_floor(n: int, r: int) -> bool {
    &&& r >= 0
    &&& r * r <= n
    &&& n < (r + 1) * (r + 1)
}

/// The integer square root of `n`, rounded down.
pub open spec fn sqrt_floor(n: int) -> int {
    choose|r: int| is_sqrt_floor(n, r)
}

proof fn lemma_sqrt_floor_unique(n: int, r1: int, r2: int) by (nonlinear_arith)
    requires
        is_sqrt_floor(n, r1),
        is_sqrt_floor(n, r2),
    ensures
        r1 == r2,
{
}

/// The rounded-down square root never grows faster than its argument:
/// a square bounded by `n` stays bounded by `sqrt_floor(n)`.
pub proof fn lemma_sqrt_floor_bounds_square(n: int, a: int) by (nonlinear_arith)
    requires
        a >= 0,
        a * a <= n,
        is_sqrt_floor(n, sqrt_floor(n)),
    ensures
        a <= sqrt_floor(n),
{
}

/// Integer square root, rounded down, by binary search.
pub fn isqrt(n: i64) -> (r: i64)
    requires
        n >= 0,
    ensures
        0 <= r <= 0xFFFF_FFFF,
        r == sqrt_floor(n as int),
        is_sqrt_floor(n as int, r as int),
{
    let mut lo: i64 = 0;
    let mut hi: i64 = 0xFFFF_FFFF;
    proof {
        assert((n as int) < (0xFFFF_FFFFi64 + 1) * (0xFFFF_FFFFi64 + 1)) by (nonlinear_arith)
            requires
                n <= 0x7FFF_FFFF_FFFF_FFFFi64,
        ;
    }
    while lo < hi
        invariant
            0 <= lo <= hi <= 0xFFFF_FFFF,
            lo * lo <= n as int,
            (n as int) < (hi + 1) * (hi + 1),
        decreases hi - lo,
    {
        let mid: i64 = lo + (hi - lo + 1) / 2;
        proof {
            assert(mid * mid <= 0xFFFF_FFFFi64 * 0xFFFF_FFFFi64) by (nonlinear_arith)
                requires
                    0 <= mid <= 0xFFFF_FFFFi64,
            ;
        }
        let sq: i128 = (mid as i128) * (mid as i128);
        if sq <= n as i128 {
            lo = mid;
        } else {
            hi = mid - 1;
        }
    }
    proof {
        assert(is_sqrt_floor(n as int, lo as int));
        assert(is_sqrt_floor(n as int, sqrt_floor(n as int))) by {
            assert(exists|r: int| is_sqrt_floor(n as int, r));
        }
        lemma_sqrt_floor_unique(n as int, lo as int, sqrt_floor(n as int));
    }
    lo
}

} // verus!
