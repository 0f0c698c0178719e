//! Plane geometry on fixed-point vectors.
//!
//! A 2D vector holds two fixed-point raw values. Rotation is applied as
//! the usual matrix with a rotor `(c, s)` that carries `cos` and `sin`
//! of the angle in fixed point; normalization rescales a vector to unit
//! world length with an exact integer square root.

use vstd::prelude::*;

use crate::fixed::SCALE;
use crate::fixed::abs_sp;
use crate::fixed::is_sqrt_floor;
use crate::fixed::isqrt;
use crate::fixed::lemma_sqrt_floor_bounds_square;
use crate::fixed::mul_fx;
use crate::fixed::mul_fx_spec;
use crate::fixed::sqrt_floor;
use crate::fixed::tdiv;

verus! {

/// A 2D vector in fixed-point raw units.
#[derive(Clone, Copy, Debug, PartialEq, Eq, Structural)]
pub struct Vec2Fx {
    pub x: i64,
    pub y: i64,
}

/// Dot product over mathematical integers.
pub open spec fn dot(ux: int, uy: int, vx: int, vy: int) -> int {
    ux * vx + uy * vy
}

/// Cross product (z component) over mathematical integers.
pub open spec fn cross(ux: int, uy: int, vx: int, vy: int) -> int {
    ux * vy - uy * vx
}

/// First component of the unscaled rotation of `(x, y)` by the rotor
/// `(c, s)`: the standard 2D rotation matrix before scaling back down.
pub open spec fn rot_x_exact(c: int, s: int, x: int, y: int) -> int {
    c * x - s * y
}

/// Second component of the unscaled rotation of `(x, y)` by `(c, s)`.
pub open spec fn rot_y_exact(c: int, s: int, x: int, y: int) -> int {
    s * x + c * y
}

/// Distributing a product of two-term sums, stated over the four terms
/// so that the query stays small.
proof fn lemma_expand_product(a1: int, a2: int, b1: int, b2: int) by (nonlinear_arith)
    ensures
        (a1 + a2) * (b1 + b2) == a1 * b1 + a1 * b2 + a2 * b1 + a2 * b2,
{
}

/// Rearranging a product of four factors.
proof fn lemma_regroup(p: int, q: int, r: int, t: int) by (nonlinear_arith)
    ensures
        (p * q) * (r * t) == (p * r) * (q * t),
{
}

proof fn lemma_rotation_scales_dot(c: int, s: int, ux: int, uy: int, vx: int, vy: int)
    ensures
        (c * ux - s * uy) * (c * vx - s * vy) + (s * ux + c * uy) * (s * vx + c * vy) == (c * c
            + s * s) * (ux * vx + uy * vy),
{
    lemma_expand_product(c * ux, -(s * uy), c * vx, -(s * vy));
    lemma_expand_product(s * ux, c * uy, s * vx, c * vy);
    lemma_regroup(c, ux, c, vx);
    lemma_regroup(c, ux, s, vy);
    lemma_regroup(s, uy, c, vx);
    lemma_regroup(s, uy, s, vy);
    lemma_regroup(s, ux, s, vx);
    lemma_regroup(s, ux, c, vy);
    lemma_regroup(c, uy, s, vx);
    lemma_regroup(c, uy, c, vy);
    lemma_expand_product(c * c, s * s, ux * vx, uy * vy);
    assert((c * ux) * -(s * vy) == -((c * ux) * (s * vy))) by (nonlinear_arith);
    assert((-(s * uy)) * (c * vx) == -((s * uy) * (c * vx))) by (nonlinear_arith);
    assert((-(s * uy)) * -(s * vy) == (s * uy) * (s * vy)) by (nonlinear_arith);
}

proof fn lemma_rotation_scales_cross(c: int, s: int, ux: int, uy: int, vx: int, vy: int)
    ensures
        (c * ux - s * uy) * (s * vx + c * vy) - (s * ux + c * uy) * (c * vx - s * vy) == (c * c
            + s * s) * (ux * vy - uy * vx),
{
    lemma_expand_product(c * ux, -(s * uy), s * vx, c * vy);
    lemma_expand_product(s * ux, c * uy, c * vx, -(s * vy));
    lemma_regroup(c, ux, s, vx);
    lemma_regroup(c, ux, c, vy);
    lemma_regroup(s, uy, s, vx);
    lemma_regroup(s, uy, c, vy);
    lemma_regroup(s, ux, c, vx);
    lemma_regroup(s, ux, s, vy);
    lemma_regroup(c, uy, c, vx);
    lemma_regroup(c, uy, s, vy);
    lemma_expand_product(c * c, s * s, ux * vy, -(uy * vx));
    assert((-(s * uy)) * (s * vx) == -((s * uy) * (s * vx))) by (nonlinear_arith);
    assert((-(s * uy)) * (c * vy) == -((s * uy) * (c * vy))) by (nonlinear_arith);
    assert((s * ux) * -(s * vy) == -((s * ux) * (s * vy))) by (nonlinear_arith);
    assert((c * uy) * -(s * vy) == -((c * uy) * (s * vy))) by (nonlinear_arith);
    assert((c * c) * -(uy * vx) == -((c * c) * (uy * vx))) by (nonlinear_arith);
    assert((s * s) * -(uy * vx) == -((s * s) * (uy * vx))) by (nonlinear_arith);
}

/// Rotating two vectors by one rotor scales their dot and cross products
/// by the same nonnegative factor `c * c + s * s`, so the angle between
/// the two vectors is unchanged. Applied to a viewer's direction and
/// camera plane this says that rotation preserves the field of view.
pub proof fn lemma_rotation_preserves_angle(c: int, s: int, ux: int, uy: int, vx: int, vy: int)
    ensures
        dot(
            rot_x_exact(c, s, ux, uy),
            rot_y_exact(c, s, ux, uy),
            rot_x_exact(c, s, vx, vy),
            rot_y_exact(c, s, vx, vy),
        ) == (c * c + s * s) * dot(ux, uy, vx, vy),
        cross(
            rot_x_exact(c, s, ux, uy),
            rot_y_exact(c, s, ux, uy),
            rot_x_exact(c, s, vx, vy),
            rot_y_exact(c, s, vx, vy),
        ) == (c * c + s * s) * cross(ux, uy, vx, vy),
        c * c + s * s >= 0,
{
    lemma_rotation_scales_dot(c, s, ux, uy, vx, vy);
    lemma_rotation_scales_cross(c, s, ux, uy, vx, vy);
    assert(c * c + s * s >= 0) by (nonlinear_arith);
}

/// Before fixed-point truncation, the camera plane derived from a
/// direction `(x, y)` — the direction turned a quarter turn and scaled
/// by `t` — stands exactly at a right angle to the direction, with a
/// cross product of `t` times the direction's squared length. The
/// angle between a viewer's direction and plane is therefore the same
/// for every heading: the field of view does not depend on where the
/// viewer looks.
pub proof fn lemma_plane_orthogonal(x: int, y: int, t: int) by (nonlinear_arith)
    ensures
        dot(x, y, -y * t, x * t) == 0,
        cross(x, y, -y * t, x * t) == t * norm_sq(x, y),
{
}

/// Truncating division by a positive divisor, sign-split so that both
/// branches divide nonnegative values.
pub fn div_trunc(t: i64, d: i64) -> (r: i64)
    requires
        d >= 1,
        abs_sp(t as int) <= 0x4000_0000_0000_0000,
    ensures
        r as int == tdiv(t as int, d as int),
        abs_sp(r as int) == abs_sp(t as int) / (d as int),
        abs_sp(r as int) <= abs_sp(t as int),
{
    proof {
        assert(abs_sp(t as int) / (d as int) <= abs_sp(t as int)) by (nonlinear_arith)
            requires
                d >= 1,
                abs_sp(t as int) >= 0,
        ;
    }
    if t >= 0 {
        t / d
    } else {
        -((-t) / d)
    }
}

/// Rotate `v` by the rotor `(c, s)`, scaling the matrix product back
/// down by `SCALE` with truncation. `(c, s)` carries the cosine and the
/// sine of the rotation angle in fixed point.
pub fn rotate_vec(c: i64, s: i64, v: Vec2Fx) -> (r: Vec2Fx)
    requires
        abs_sp(c as int) <= SCALE as int,
        abs_sp(s as int) <= SCALE as int,
        abs_sp(v.x as int) <= 0x20000,
        abs_sp(v.y as int) <= 0x20000,
    ensures
        r.x as int == tdiv(rot_x_exact(c as int, s as int, v.x as int, v.y as int), SCALE as int),
        r.y as int == tdiv(rot_y_exact(c as int, s as int, v.x as int, v.y as int), SCALE as int),
        abs_sp(r.x as int) <= 0x40000,
        abs_sp(r.y as int) <= 0x40000,
{
    proof {
        lemma_abs_product_bound(c as int, v.x as int, SCALE as int, 0x20000);
        lemma_abs_product_bound(s as int, v.y as int, SCALE as int, 0x20000);
        lemma_abs_product_bound(s as int, v.x as int, SCALE as int, 0x20000);
        lemma_abs_product_bound(c as int, v.y as int, SCALE as int, 0x20000);
    }
    let tx: i64 = c * v.x - s * v.y;
    let ty: i64 = s * v.x + c * v.y;
    let rx: i64 = div_trunc(tx, SCALE);
    let ry: i64 = div_trunc(ty, SCALE);
    proof {
        assert(abs_sp(tx as int) / (SCALE as int) <= 0x40000) by (nonlinear_arith)
            requires
                abs_sp(tx as int) <= 0x40000 * (SCALE as int),
                SCALE == 65536i64,
        ;
        assert(abs_sp(ty as int) / (SCALE as int) <= 0x40000) by (nonlinear_arith)
            requires
                abs_sp(ty as int) <= 0x40000 * (SCALE as int),
                SCALE == 65536i64,
        ;
    }
    Vec2Fx { x: rx, y: ry }
}

pub proof fn lemma_abs_product_bound(a: int, b: int, ba: int, bb: int) by (nonlinear_arith)
    requires
        abs_sp(a) <= ba,
        abs_sp(b) <= bb,
        ba >= 0,
        bb >= 0,
    ensures
        abs_sp(a * b) <= ba * bb,
{
}

/// Squared world length of `(x, y)` in raw units.
pub open spec fn norm_sq(x: int, y: int) -> int {
    x * x + y * y
}

/// Rescale `v` to unit world length (raw length `SCALE`), or return the
/// zero vector when `v` is zero. Each component of the result is exactly
/// the component scaled by `SCALE` and divided, toward zero, by the
/// rounded-down length of `v`; its magnitude never exceeds `SCALE`.
pub fn normalize_or_zero(v: Vec2Fx) -> (r: Vec2Fx)
    requires
        abs_sp(v.x as int) <= 0x100_0000,
        abs_sp(v.y as int) <= 0x100_0000,
    ensures
        v.x == 0 && v.y == 0 ==> r.x == 0 && r.y == 0,
        !(v.x == 0 && v.y == 0) ==> {
            let len = sqrt_floor(norm_sq(v.x as int, v.y as int));
            &&& r.x as int == tdiv(v.x * SCALE, len)
            &&& r.y as int == tdiv(v.y * SCALE, len)
            &&& len >= 1
        },
        abs_sp(r.x as int) <= SCALE as int,
        abs_sp(r.y as int) <= SCALE as int,
{
    if v.x == 0 && v.y == 0 {
        return Vec2Fx { x: 0, y: 0 };
    }
    proof {
        lemma_abs_product_bound(v.x as int, v.x as int, 0x100_0000, 0x100_0000);
        lemma_abs_product_bound(v.y as int, v.y as int, 0x100_0000, 0x100_0000);
        assert(v.x * v.x == abs_sp(v.x as int) * abs_sp(v.x as int)) by (nonlinear_arith);
        assert(v.y * v.y == abs_sp(v.y as int) * abs_sp(v.y as int)) by (nonlinear_arith);
        assert(v.x * v.x >= 0 && v.y * v.y >= 0) by (nonlinear_arith);
        assert(v.x != 0 ==> v.x * v.x >= 1) by (nonlinear_arith);
        assert(v.y != 0 ==> v.y * v.y >= 1) by (nonlinear_arith);
    }
    let n2: i64 = v.x * v.x + v.y * v.y;
    let len: i64 = isqrt(n2);
    proof {
        assert(len >= 1) by {
            assert(is_sqrt_floor(n2 as int, len as int));
            assert(n2 >= 1);
            assert(len == 0 ==> n2 < 1) by (nonlinear_arith)
                requires
                    is_sqrt_floor(n2 as int, len as int),
            ;
        }
        lemma_sqrt_floor_bounds_square(n2 as int, abs_sp(v.x as int));
        lemma_sqrt_floor_bounds_square(n2 as int, abs_sp(v.y as int));
        lemma_abs_product_bound(v.x as int, SCALE as int, 0x100_0000, SCALE as int);
        lemma_abs_product_bound(v.y as int, SCALE as int, 0x100_0000, SCALE as int);
    }
    let sx: i64 = div_trunc(v.x * SCALE, len);
    let sy: i64 = div_trunc(v.y * SCALE, len);
    proof {
        lemma_scaled_component_bounded(v.x as int, len as int);
        lemma_scaled_component_bounded(v.y as int, len as int);
    }
    Vec2Fx { x: sx, y: sy }
}

/// A component no longer than the vector's length scales to at most one
/// world unit.
proof fn lemma_scaled_component_bounded(a: int, len: int) by (nonlinear_arith)
    requires
        len >= 1,
        abs_sp(a) <= len,
    ensures
        abs_sp(a * SCALE as int) / len <= SCALE as int,
{
}

/// The camera plane for a viewing direction: the direction rotated a
/// quarter turn counter-clockwise and scaled by `tan_half_fov`, the
/// tangent of half the field of view in fixed point. The plane's length
/// relative to the direction encodes the field of view.
pub fn plane_from_direction(dir: Vec2Fx, tan_half_fov: i64) -> (p: Vec2Fx)
    requires
        abs_sp(dir.x as int) <= SCALE as int,
        abs_sp(dir.y as int) <= SCALE as int,
        0 <= tan_half_fov <= SCALE as int,
    ensures
        p.x as int == mul_fx_spec(-dir.y as int, tan_half_fov as int),
        p.y as int == mul_fx_spec(dir.x as int, tan_half_fov as int),
        abs_sp(p.x as int) <= SCALE as int,
        abs_sp(p.y as int) <= SCALE as int,
{
    proof {
        lemma_abs_product_bound(-dir.y as int, tan_half_fov as int, SCALE as int, SCALE as int);
        lemma_abs_product_bound(dir.x as int, tan_half_fov as int, SCALE as int, SCALE as int);
        lemma_mul_fx_bound(-dir.y as int, tan_half_fov as int);
        lemma_mul_fx_bound(dir.x as int, tan_half_fov as int);
    }
    let px: i64 = mul_fx(-dir.y, tan_half_fov);
    let py: i64 = mul_fx(dir.x, tan_half_fov);
    Vec2Fx { x: px, y: py }
}

/// A fixed-point product of factors within one world unit stays within
/// one world unit.
pub proof fn lemma_mul_fx_bound(a: int, b: int) by (nonlinear_arith)
    requires
        abs_sp(a) <= SCALE as int,
        abs_sp(b) <= SCALE as int,
    ensures
        abs_sp(mul_fx_spec(a, b)) <= SCALE as int,
{
}

} // verus!
