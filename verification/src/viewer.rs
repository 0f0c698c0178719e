//! The viewer: position, facing direction and camera plane.
//!
//! The camera plane is always derived from the direction and a fixed
//! field of view, so rotating the viewer cannot change the apparent
//! field of view. Movement displaces the position along the direction
//! normalized to unit length, scaled by a constant speed and by the
//! elapsed time, so motion is frame-rate independent.

use vstd::prelude::*;

use crate::fixed::SCALE;
use crate::fixed::abs_sp;
use crate::fixed::mul_fx;
use crate::fixed::mul_fx_spec;
use crate::fixed::sqrt_floor;
use crate::fixed::tdiv;
use crate::geom::Vec2Fx;
use crate::geom::norm_sq;
use crate::geom::normalize_or_zero;
use crate::geom::plane_from_direction;
use crate::geom::rot_x_exact;
use crate::geom::rot_y_exact;
use crate::geom::rotate_vec;
use crate::grid::Grid;

verus! {

/// The tangent of half the field of view (33 degrees) in fixed point.
pub const TAN_HALF_FOV: i64 = 42559;

/// Movement speed in world units per second.
pub const MOVE_SPEED: i64 = 5;

/// Rotation speed in radians per second, fixed point.
pub const ROTATE_SPEED: i64 = 65536;

/// Largest accepted elapsed time per movement step, fixed point: 64
/// seconds.
pub const DT_MAX: i64 = 0x40_0000;

/// Largest accepted position coordinate magnitude, fixed point.
pub const POS_LIMIT: i64 = 0x100_0000_0000;

/// First component of a vector rescaled to unit world length, zero kept
/// zero.
pub open spec fn normalized_x(x: int, y: int) -> int {
    if x == 0 && y == 0 {
        0
    } else {
        tdiv(x * SCALE, sqrt_floor(norm_sq(x, y)))
    }
}

/// Second component of a vector rescaled to unit world length.
pub open spec fn normalized_y(x: int, y: int) -> int {
    if x == 0 && y == 0 {
        0
    } else {
        tdiv(y * SCALE, sqrt_floor(norm_sq(x, y)))
    }
}

/// First component of the displacement of one movement step along
/// direction `d` over elapsed time `dt`.
pub open spec fn displacement_x(d: Vec2Fx, dt: int) -> int {
    mul_fx_spec(normalized_x(d.x as int, d.y as int), MOVE_SPEED * dt)
}

/// Second component of the displacement of one movement step.
pub open spec fn displacement_y(d: Vec2Fx, dt: int) -> int {
    mul_fx_spec(normalized_y(d.x as int, d.y as int), MOVE_SPEED * dt)
}

/// The viewer's pose.
#[derive(Clone, Copy, Debug, PartialEq, Eq, Structural)]
pub struct Viewer {
    /// Position in grid-cell units, fixed point, sub-cell precision.
    pub position: Vec2Fx,
    /// Facing direction, unit world length (or zero when degenerate).
    pub direction: Vec2Fx,
    /// Camera plane: the direction turned a quarter turn and scaled by
    /// the tangent of half the field of view.
    pub plane: Vec2Fx,
}

impl Viewer {
    /// Well-formedness: direction within one world unit per component,
    /// and the plane derived from the direction and the fixed field of
    /// view.
    pub open spec fn wf(self) -> bool {
        &&& abs_sp(self.direction.x as int) <= SCALE as int
        &&& abs_sp(self.direction.y as int) <= SCALE as int
        &&& abs_sp(self.plane.x as int) <= SCALE as int
        &&& abs_sp(self.plane.y as int) <= SCALE as int
        &&& self.plane.x as int == mul_fx_spec(-self.direction.y as int, TAN_HALF_FOV as int)
        &&& self.plane.y as int == mul_fx_spec(self.direction.x as int, TAN_HALF_FOV as int)
    }

    /// A new viewer at `(x, y)`, facing toward decreasing `y`, with the
    /// camera plane derived from that heading.
    pub fn new(x: i64, y: i64) -> (v: Viewer)
        requires
            abs_sp(x as int) <= POS_LIMIT as int,
            abs_sp(y as int) <= POS_LIMIT as int,
        ensures
            v.wf(),
            v.position == (Vec2Fx { x, y }),
            v.direction.x == 0 && v.direction.y as int == -(SCALE as int),
    {
        let direction = Vec2Fx { x: 0, y: -SCALE };
        let plane = plane_from_direction(direction, TAN_HALF_FOV);
        Viewer { position: Vec2Fx { x, y }, direction, plane }
    }

    /// Rotate the heading by the rotor `(c, s)`, the cosine and sine of
    /// the angle in fixed point, positive angles counter-clockwise. The
    /// direction is rotated and rescaled to unit length, and the plane
    /// is rederived from it, so the field of view is preserved.
    pub fn rotate(&mut self, c: i64, s: i64)
        requires
            old(self).wf(),
            abs_sp(c as int) <= SCALE as int,
            abs_sp(s as int) <= SCALE as int,
        ensures
            final(self).wf(),
            final(self).position == old(self).position,
            final(self).direction.x as int == normalized_x(
                tdiv(
                    rot_x_exact(c as int, s as int, old(self).direction.x as int, old(self).direction.y as int),
                    SCALE as int,
                ),
                tdiv(
                    rot_y_exact(c as int, s as int, old(self).direction.x as int, old(self).direction.y as int),
                    SCALE as int,
                ),
            ),
            final(self).direction.y as int == normalized_y(
                tdiv(
                    rot_x_exact(c as int, s as int, old(self).direction.x as int, old(self).direction.y as int),
                    SCALE as int,
                ),
                tdiv(
                    rot_y_exact(c as int, s as int, old(self).direction.x as int, old(self).direction.y as int),
                    SCALE as int,
                ),
            ),
    {
        let rotated = rotate_vec(c, s, self.direction);
        let direction = normalize_or_zero(rotated);
        let plane = plane_from_direction(direction, TAN_HALF_FOV);
        self.direction = direction;
        self.plane = plane;
    }

    /// Move forward: displace the position along the unit direction by
    /// `MOVE_SPEED` times the elapsed time `dt`, when the destination
    /// is enterable.
    pub fn advance(&mut self, grid: &Grid, dt: i64)
        requires
            old(self).wf(),
            grid.wf(),
            0 <= dt <= DT_MAX as int,
            abs_sp(old(self).position.x as int) <= POS_LIMIT as int,
            abs_sp(old(self).position.y as int) <= POS_LIMIT as int,
        ensures
            final(self).wf(),
            final(self).direction == old(self).direction,
            final(self).plane == old(self).plane,
            final(self).position.x as int == old(self).position.x + displacement_x(
                old(self).direction,
                dt as int,
            ),
            final(self).position.y as int == old(self).position.y + displacement_y(
                old(self).direction,
                dt as int,
            ),
    {
        let (dx, dy) = self.step(dt);
        let candidate = Vec2Fx { x: self.position.x + dx, y: self.position.y + dy };
        if can_enter(grid, candidate) {
            self.position = candidate;
        }
    }

    /// Move backward: the same displacement as `advance`, subtracted.
    pub fn retreat(&mut self, grid: &Grid, dt: i64)
        requires
            old(self).wf(),
            grid.wf(),
            0 <= dt <= DT_MAX as int,
            abs_sp(old(self).position.x as int) <= POS_LIMIT as int,
            abs_sp(old(self).position.y as int) <= POS_LIMIT as int,
        ensures
            final(self).wf(),
            final(self).direction == old(self).direction,
            final(self).plane == old(self).plane,
            final(self).position.x as int == old(self).position.x - displacement_x(
                old(self).direction,
                dt as int,
            ),
            final(self).position.y as int == old(self).position.y - displacement_y(
                old(self).direction,
                dt as int,
            ),
    {
        let (dx, dy) = self.step(dt);
        let candidate = Vec2Fx { x: self.position.x - dx, y: self.position.y - dy };
        if can_enter(grid, candidate) {
            self.position = candidate;
        }
    }

    /// One movement step's displacement for elapsed time `dt`.
    fn step(&self, dt: i64) -> (d: (i64, i64))
        requires
            self.wf(),
            0 <= dt <= DT_MAX as int,
        ensures
            d.0 as int == displacement_x(self.direction, dt as int),
            d.1 as int == displacement_y(self.direction, dt as int),
            abs_sp(d.0 as int) <= 0x200_0000,
            abs_sp(d.1 as int) <= 0x200_0000,
    {
        let unit = normalize_or_zero(self.direction);
        let speed_dt: i64 = MOVE_SPEED * dt;
        proof {
            crate::geom::lemma_abs_product_bound(
                unit.x as int,
                speed_dt as int,
                SCALE as int,
                (MOVE_SPEED * DT_MAX) as int,
            );
            crate::geom::lemma_abs_product_bound(
                unit.y as int,
                speed_dt as int,
                SCALE as int,
                (MOVE_SPEED * DT_MAX) as int,
            );
            lemma_step_fits(unit.x as int, speed_dt as int);
            lemma_step_fits(unit.y as int, speed_dt as int);
        }
        let dx = mul_fx(unit.x, speed_dt);
        let dy = mul_fx(unit.y, speed_dt);
        (dx, dy)
    }
}

/// A displacement component stays within a quarter cell of two to the
/// twenty-fifth raw units: one world unit times the largest speed and
/// elapsed time, scaled down.
proof fn lemma_step_fits(ux: int, sdt: int) by (nonlinear_arith)
    requires
        abs_sp(ux) <= SCALE as int,
        0 <= sdt <= MOVE_SPEED * DT_MAX,
    ensures
        abs_sp(mul_fx_spec(ux, sdt)) <= 0x200_0000,
        abs_sp(ux * sdt) <= SCALE * (MOVE_SPEED * DT_MAX),
{
}

/// Whether a movement step may end at `candidate`. A deliberately open
/// extension point for collision handling: every destination is
/// currently accepted, as the movement rules leave collision to the
/// host.
pub fn can_enter(grid: &Grid, candidate: Vec2Fx) -> (r: bool)
    requires
        grid.wf(),
    ensures
        r == true,
{
    let _ = grid;
    let _ = candidate;
    true
}

/// Moving forward over some elapsed time and then backward over the
/// same elapsed time, with the direction unchanged in between, returns
/// the position exactly to its starting value. The hypotheses are the
/// movement contracts of `Viewer::advance` and `Viewer::retreat`.
pub proof fn lemma_move_round_trip(v0: Viewer, v1: Viewer, v2: Viewer, dt: int)
    requires
        v1.direction == v0.direction,
        v1.position.x as int == v0.position.x + displacement_x(v0.direction, dt),
        v1.position.y as int == v0.position.y + displacement_y(v0.direction, dt),
        v2.position.x as int == v1.position.x - displacement_x(v1.direction, dt),
        v2.position.y as int == v1.position.y - displacement_y(v1.direction, dt),
    ensures
        v2.position == v0.position,
{
}

} // verus!
