//! The ray caster.
//!
//! For a screen column, the caster maps the column to a camera-plane
//! coordinate, forms the ray direction from the viewer's direction and
//! plane, and walks the ray through the grid one cell boundary at a
//! time, advancing along whichever axis has accumulated the smaller
//! distance, until it enters an occupied cell. The walk compares exact
//! integer cross products instead of quotients, so an axis-parallel
//! ray (an infinite unit distance on the other axis) needs no
//! sentinel: that axis simply never wins the comparison.
//!
//! Distances are measured in units of the ray direction's length. The
//! perpendicular wall distance drops the final over-step, which is what
//! the projector needs to avoid fisheye distortion.

use vstd::prelude::*;

use crate::fixed::SCALE;
use crate::fixed::abs_sp;
use crate::fixed::is_sqrt_floor;
use crate::fixed::lemma_sqrt_floor_bounds_square;
use crate::fixed::isqrt;
use crate::fixed::mul_fx;
use crate::fixed::mul_fx_spec;
use crate::fixed::sqrt_floor;
use crate::geom::lemma_abs_product_bound;
use crate::geom::lemma_mul_fx_bound;
use crate::geom::norm_sq;
use crate::grid::Grid;
use crate::viewer::Viewer;
use vstd::arithmetic::div_mod::lemma_div_non_zero;
use vstd::arithmetic::div_mod::lemma_div_pos_is_pos;
use vstd::arithmetic::div_mod::lemma_multiply_divide_lt;

verus! {

/// Largest accepted screen width in columns.
pub const SCREEN_W_MAX: usize = 1_000_000;

/// What one cast ray reports, at the specification level: which axis
/// was crossed last, the tag of the hit cell, the numerator of the
/// perpendicular distance (in raw units of cell fractions along the
/// crossed axis), and how many cells the walk advanced.
pub ghost struct DdaHit {
    pub side: int,
    pub tag: int,
    pub perp_num: int,
    pub steps: int,
}

/// What one cast ray reports to the projector.
#[derive(Clone, Copy, Debug, PartialEq, Eq, Structural)]
pub struct Hit {
    /// The screen column the ray was cast through.
    pub column: usize,
    /// 0 when the last crossing was of a vertical grid line (a step
    /// along x), 1 when of a horizontal one (a step along y).
    pub side: u8,
    /// The tag of the wall cell the ray hit; always positive.
    pub tag: i32,
    /// Perpendicular distance from the viewer to the hit wall, fixed
    /// point, in units of the ray direction's length.
    pub perp_dist: i64,
}

/// The camera-plane coordinate of screen column `x` out of `w`:
/// `(2 * x / w) - 1` in fixed point, spanning `[-1, 1)` left to right.
pub open spec fn camera_x_spec(x: int, w: int) -> int {
    (2 * x * SCALE) / w - SCALE
}

/// How many cells remain before the walk would leave the map along one
/// axis: the distance from `m` to the border ring in direction `s`.
pub open spec fn border_steps(n: int, m: int, s: int) -> int {
    if s > 0 {
        n - 1 - m
    } else {
        m
    }
}

/// The grid walk. From cell `(mx, my)`, with accumulated distance
/// numerators `nx` and `ny` (scaled by the ray length over `arx` times
/// `SCALE`, respectively `ary`), step along whichever axis has the
/// smaller accumulated distance — the comparison `nx / arx < ny / ary`
/// taken as the cross product `nx * ary < ny * arx`, an axis with a
/// zero direction component never winning — until the entered cell is
/// occupied. Returns `None` only from degenerate arguments that the
/// caster never produces: a step that is not a unit step, or a walk
/// that leaves the map.
pub open spec fn dda(
    g: Grid,
    mx: int,
    my: int,
    nx: int,
    ny: int,
    sx: int,
    sy: int,
    arx: int,
    ary: int,
) -> Option<DdaHit>
    decreases border_steps(g.size(), mx, sx) + border_steps(g.size(), my, sy),
{
    if !(sx == 1 || sx == -1) || !(sy == 1 || sy == -1) || !(0 <= mx < g.size()) || !(0 <= my
        < g.size()) {
        None
    } else {
        let step_x = arx > 0 && (ary == 0 || nx * ary < ny * arx);
        if step_x {
            let mx2 = mx + sx;
            if !(0 <= mx2 < g.size()) {
                None
            } else if g.cell(mx2, my) > 0 {
                Some(DdaHit { side: 0, tag: g.cell(mx2, my), perp_num: nx, steps: 1 })
            } else {
                match dda(g, mx2, my, nx + SCALE, ny, sx, sy, arx, ary) {
                    None => None,
                    Some(h) => Some(DdaHit { steps: h.steps + 1, ..h }),
                }
            }
        } else {
            let my2 = my + sy;
            if !(0 <= my2 < g.size()) {
                None
            } else if g.cell(mx, my2) > 0 {
                Some(DdaHit { side: 1, tag: g.cell(mx, my2), perp_num: ny, steps: 1 })
            } else {
                match dda(g, mx, my2, nx, ny + SCALE, sx, sy, arx, ary) {
                    None => None,
                    Some(h) => Some(DdaHit { steps: h.steps + 1, ..h }),
                }
            }
        }
    }
}

/// The walk's result without its step count.
pub open spec fn dda_found(r: Option<DdaHit>) -> Option<(int, int, int)> {
    match r {
        None => None,
        Some(h) => Some((h.side, h.tag, h.perp_num)),
    }
}

/// First component of the world direction of the ray through column
/// `x`: the viewer's direction plus the plane scaled by the camera
/// coordinate.
pub open spec fn ray_x_spec(v: Viewer, x: int, w: int) -> int {
    v.direction.x + mul_fx_spec(v.plane.x as int, camera_x_spec(x, w))
}

/// Second component of the ray's world direction.
pub open spec fn ray_y_spec(v: Viewer, x: int, w: int) -> int {
    v.direction.y + mul_fx_spec(v.plane.y as int, camera_x_spec(x, w))
}

/// The full cast of column `x`, at the specification level: `None` for
/// a degenerate (zero) ray direction, otherwise the walk from the
/// viewer's cell with the initial distance numerators taken from the
/// position's offset inside that cell.
pub open spec fn cast_ray_spec(v: Viewer, g: Grid, x: int, w: int) -> Option<DdaHit> {
    let rx = ray_x_spec(v, x, w);
    let ry = ray_y_spec(v, x, w);
    if rx == 0 && ry == 0 {
        None
    } else {
        let mx = (v.position.x as int) / (SCALE as int);
        let my = (v.position.y as int) / (SCALE as int);
        let nx0 = if rx < 0 {
            v.position.x - mx * SCALE
        } else {
            mx * SCALE + SCALE - v.position.x
        };
        let ny0 = if ry < 0 {
            v.position.y - my * SCALE
        } else {
            my * SCALE + SCALE - v.position.y
        };
        dda(
            g,
            mx,
            my,
            nx0,
            ny0,
            if rx < 0 { -1 } else { 1 },
            if ry < 0 { -1 } else { 1 },
            abs_sp(rx),
            abs_sp(ry),
        )
    }
}

/// The perpendicular distance reported for a walk that ended with
/// numerator `perp_num` on side `side`, for a ray `(rx, ry)`: the
/// numerator times the ray's length, divided by the crossed axis's
/// direction component.
pub open spec fn perp_dist_spec(rx: int, ry: int, side: int, perp_num: int) -> int {
    (perp_num * sqrt_floor(norm_sq(rx, ry))) / (if side == 0 {
        abs_sp(rx)
    } else {
        abs_sp(ry)
    })
}

/// The viewer's position lies strictly inside the grid's border ring,
/// with at least one raw unit of clearance before the ring.
pub open spec fn strictly_inside(v: Viewer, g: Grid) -> bool {
    &&& SCALE as int <= v.position.x <= (g.size() - 1) * SCALE - 1
    &&& SCALE as int <= v.position.y <= (g.size() - 1) * SCALE - 1
}

/// What `cast_ray` promises about its result: a hit is returned exactly
/// when the ray direction is not zero, and the hit reports the walk of
/// `cast_ray_spec` together with its perpendicular distance.
pub open spec fn hit_matches(v: Viewer, g: Grid, x: int, w: int, r: Option<Hit>) -> bool {
    &&& (r is Some <==> !(ray_x_spec(v, x, w) == 0 && ray_y_spec(v, x, w) == 0))
    &&& (r matches Some(h) ==> {
        &&& cast_ray_spec(v, g, x, w) matches Some(d)
        &&& h.column == x
        &&& h.side == d.side
        &&& h.tag == d.tag
        &&& h.perp_dist == perp_dist_spec(ray_x_spec(v, x, w), ray_y_spec(v, x, w), d.side, d.perp_num)
        &&& h.tag > 0
        &&& h.perp_dist >= 0
        &&& (d.perp_num > 0 ==> h.perp_dist > 0)
        &&& (h.side == 0 || h.side == 1)
    })
}

/// Decide whether the viewer stands strictly inside the border ring,
/// where casting is defined: the executable twin of `strictly_inside`,
/// for hosts that must test the condition before asking for a frame.
pub fn strictly_inside_bounds(v: &Viewer, g: &Grid) -> (r: bool)
    requires
        g.wf(),
    ensures
        r == strictly_inside(*v, *g),
{
    let n: i64 = g.side_len() as i64;
    SCALE <= v.position.x && v.position.x <= (n - 1) * SCALE - 1 && SCALE <= v.position.y
        && v.position.y <= (n - 1) * SCALE - 1
}

/// Map screen column `x` of `w` to its camera-plane coordinate.
/// Column 0 maps to exactly -1; every column stays strictly below +1.
pub fn camera_x(x: usize, w: usize) -> (cx: i64)
    requires
        1 <= w <= SCREEN_W_MAX as int,
        x < w,
    ensures
        cx as int == camera_x_spec(x as int, w as int),
        x == 0 ==> cx as int == -(SCALE as int),
        -(SCALE as int) <= cx as int,
        (cx as int) < SCALE as int,
{
    let num: i64 = 2 * (x as i64) * SCALE;
    proof {
        assert(num < (w as int) * (2 * SCALE as int)) by (nonlinear_arith)
            requires
                num == 2 * (x as int) * (SCALE as int),
                (x as int) < (w as int),
                SCALE as int == 65536,
        ;
        lemma_multiply_divide_lt(num as int, w as int, 2 * SCALE as int);
        lemma_div_pos_is_pos(num as int, w as int);
    }
    num / (w as i64) - SCALE
}

/// Cast the ray for screen column `x` of `w` from `v` through `g`.
/// Returns `None` exactly when the ray direction degenerates to zero;
/// otherwise the walk is guaranteed to terminate on an occupied cell —
/// the border ring closes the map — and the hit reports the crossed
/// axis, the wall tag and the perpendicular distance.
pub fn cast_ray(v: &Viewer, g: &Grid, x: usize, w: usize) -> (r: Option<Hit>)
    requires
        v.wf(),
        g.wf(),
        1 <= w <= SCREEN_W_MAX as int,
        x < w,
        strictly_inside(*v, *g),
    ensures
        hit_matches(*v, *g, x as int, w as int, r),
{
    let cx = camera_x(x, w);
    proof {
        lemma_abs_product_bound(v.plane.x as int, cx as int, SCALE as int, SCALE as int);
        lemma_abs_product_bound(v.plane.y as int, cx as int, SCALE as int, SCALE as int);
        lemma_mul_fx_bound(v.plane.x as int, cx as int);
        lemma_mul_fx_bound(v.plane.y as int, cx as int);
    }
    let rx: i64 = v.direction.x + mul_fx(v.plane.x, cx);
    let ry: i64 = v.direction.y + mul_fx(v.plane.y, cx);
    if rx == 0 && ry == 0 {
        return None;
    }
    let size: usize = g.side_len();
    let mut mx: usize = (v.position.x / SCALE) as usize;
    let mut my: usize = (v.position.y / SCALE) as usize;
    let step_x_pos: bool = rx >= 0;
    let step_y_pos: bool = ry >= 0;
    let arx: i64 = if rx >= 0 { rx } else { -rx };
    let ary: i64 = if ry >= 0 { ry } else { -ry };
    let mut nx: i64 = if rx < 0 {
        v.position.x - (mx as i64) * SCALE
    } else {
        (mx as i64) * SCALE + SCALE - v.position.x
    };
    let mut ny: i64 = if ry < 0 {
        v.position.y - (my as i64) * SCALE
    } else {
        (my as i64) * SCALE + SCALE - v.position.y
    };
    let ghost sx: int = if rx < 0 { -1int } else { 1int };
    let ghost sy: int = if ry < 0 { -1int } else { 1int };
    let ghost mx0: int = mx as int;
    let ghost my0: int = my as int;
    let ghost init: Option<DdaHit> = dda(
        *g,
        mx as int,
        my as int,
        nx as int,
        ny as int,
        sx,
        sy,
        arx as int,
        ary as int,
    );
    proof {
        assert(init == cast_ray_spec(*v, *g, x as int, w as int));
    }
    let mut hit: bool = false;
    let mut side: u8 = 0;
    let mut tag: i32 = 0;
    let mut perp_num: i64 = 0;
    while !hit
        invariant
            g.wf(),
            v.wf(),
            strictly_inside(*v, *g),
            size == g.size(),
            mx0 == (v.position.x as int) / (SCALE as int),
            my0 == (v.position.y as int) / (SCALE as int),
            1 <= mx0 <= size - 2,
            1 <= my0 <= size - 2,
            sx == if step_x_pos { 1int } else { -1int },
            sy == if step_y_pos { 1int } else { -1int },
            arx >= 0,
            ary >= 0,
            arx > 0 || ary > 0,
            arx as int <= 2 * SCALE as int,
            ary as int <= 2 * SCALE as int,
            0 <= mx < size,
            0 <= my < size,
            nx as int == (if step_x_pos {
                mx0 * SCALE + SCALE - v.position.x + (mx - mx0) * SCALE
            } else {
                v.position.x - mx0 * SCALE + (mx0 - mx) * SCALE
            }),
            ny as int == (if step_y_pos {
                my0 * SCALE + SCALE - v.position.y + (my - my0) * SCALE
            } else {
                v.position.y - my0 * SCALE + (my0 - my) * SCALE
            }),
            0 <= nx as int <= (2 * size + 2) * SCALE as int,
            0 <= ny as int <= (2 * size + 2) * SCALE as int,
            !hit ==> 1 <= mx <= size - 2 && 1 <= my <= size - 2,
            !hit ==> dda_found(
                dda(*g, mx as int, my as int, nx as int, ny as int, sx, sy, arx as int, ary as int),
            ) == dda_found(init),
            hit ==> dda_found(init) == Some((side as int, tag as int, perp_num as int)),
            hit ==> (side == 0 || side == 1),
            hit ==> (side == 0 ==> arx > 0) && (side == 1 ==> ary > 0),
            hit ==> tag > 0,
            hit ==> perp_num >= 0,
            0 <= perp_num as int <= (2 * size + 2) * SCALE as int,
        decreases border_steps(size as int, mx as int, sx) + border_steps(
            size as int,
            my as int,
            sy,
        ) + (if hit { 0int } else { 1int }),
    {
        proof {
            lemma_abs_product_bound(nx as int, ary as int, 0x8000000int * 16, 2 * SCALE as int);
            lemma_abs_product_bound(ny as int, arx as int, 0x8000000int * 16, 2 * SCALE as int);
        }
        let go_x: bool = arx > 0 && (ary == 0 || nx * ary < ny * arx);
        if go_x {
            perp_num = nx;
            nx = nx + SCALE;
            if step_x_pos {
                mx = mx + 1;
            } else {
                mx = mx - 1;
            }
            side = 0;
        } else {
            perp_num = ny;
            ny = ny + SCALE;
            if step_y_pos {
                my = my + 1;
            } else {
                my = my - 1;
            }
            side = 1;
        }
        let t = g.occupied(mx, my);
        if t > 0 {
            tag = t;
            hit = true;
        }
    }
    proof {
        lemma_abs_product_bound(rx as int, rx as int, 2 * SCALE as int, 2 * SCALE as int);
        lemma_abs_product_bound(ry as int, ry as int, 2 * SCALE as int, 2 * SCALE as int);
        lemma_square_nonneg(rx as int);
        lemma_square_nonneg(ry as int);
    }
    let n2: i64 = rx * rx + ry * ry;
    let len: i64 = isqrt(n2);
    let ar_side: i64 = if side == 0 {
        arx
    } else {
        ary
    };
    proof {
        assert(len <= 0x60000) by {
            assert(is_sqrt_floor(n2 as int, len as int));
            assert(n2 as int <= 8 * (SCALE as int) * (SCALE as int)) by (nonlinear_arith)
                requires
                    abs_sp((rx as int) * (rx as int)) <= (2 * SCALE as int) * (2 * SCALE as int),
                    abs_sp((ry as int) * (ry as int)) <= (2 * SCALE as int) * (2 * SCALE as int),
                    n2 as int == (rx as int) * (rx as int) + (ry as int) * (ry as int),
                    (rx as int) * (rx as int) >= 0,
                    (ry as int) * (ry as int) >= 0,
                    SCALE as int == 65536,
            ;
            assert(len as int <= 0x60000) by (nonlinear_arith)
                requires
                    is_sqrt_floor(n2 as int, len as int),
                    0 <= n2 as int <= 8 * 65536 * 65536,
            ;
        }
        lemma_abs_product_bound(perp_num as int, len as int, 0x8000000int * 16, 0x60000int);
        assert(perp_num * len >= 0) by (nonlinear_arith)
            requires
                perp_num >= 0,
                len >= 0,
        ;
        lemma_div_pos_is_pos((perp_num * len) as int, ar_side as int);
        if perp_num > 0 {
            assert((arx as int) * (arx as int) == (rx as int) * (rx as int)) by (nonlinear_arith)
                requires
                    arx == rx || arx as int == -(rx as int),
            ;
            assert((ary as int) * (ary as int) == (ry as int) * (ry as int)) by (nonlinear_arith)
                requires
                    ary == ry || ary as int == -(ry as int),
            ;
            assert((ar_side as int) * (ar_side as int) <= n2 as int);
            lemma_sqrt_floor_bounds_square(n2 as int, ar_side as int);
            assert(perp_num * len >= len) by (nonlinear_arith)
                requires
                    perp_num >= 1,
                    len >= 0,
            ;
            lemma_div_non_zero((perp_num * len) as int, ar_side as int);
        }
    }
    let perp: i64 = (perp_num * len) / ar_side;
    Some(Hit { column: x, side, tag, perp_dist: perp })
}

/// From any interior cell of a well-formed grid, the walk always finds
/// a wall: the border ring is occupied, so the walk can never leave the
/// map, and each step moves one cell closer to the ring along its
/// axis, so a hit comes within the cells remaining to the ring. The
/// walk never steps along an axis whose direction component is zero.
pub proof fn lemma_dda_hits(
    g: Grid,
    mx: int,
    my: int,
    nx: int,
    ny: int,
    sx: int,
    sy: int,
    arx: int,
    ary: int,
)
    requires
        g.wf(),
        sx == 1 || sx == -1,
        sy == 1 || sy == -1,
        arx >= 0,
        ary >= 0,
        arx > 0 || ary > 0,
        nx >= 0,
        ny >= 0,
        1 <= mx <= g.size() - 2,
        1 <= my <= g.size() - 2,
    ensures
        dda(g, mx, my, nx, ny, sx, sy, arx, ary) matches Some(h) && {
            &&& h.side == 0 || h.side == 1
            &&& h.side == 0 ==> arx > 0
            &&& h.side == 1 ==> ary > 0
            &&& ary == 0 ==> h.side == 0
            &&& arx == 0 ==> h.side == 1
            &&& h.tag > 0
            &&& h.perp_num >= 0
            &&& nx > 0 && ny > 0 ==> h.perp_num > 0
            &&& 1 <= h.steps <= border_steps(g.size(), mx, sx) + border_steps(g.size(), my, sy)
        },
    decreases border_steps(g.size(), mx, sx) + border_steps(g.size(), my, sy),
{
    let step_x = arx > 0 && (ary == 0 || nx * ary < ny * arx);
    if step_x {
        let mx2 = mx + sx;
        if g.cell(mx2, my) > 0 {
        } else {
            assert(!(mx2 == 0 || my == 0 || mx2 == g.size() - 1 || my == g.size() - 1));
            lemma_dda_hits(g, mx2, my, nx + SCALE, ny, sx, sy, arx, ary);
        }
    } else {
        assert(ary > 0);
        let my2 = my + sy;
        if g.cell(mx, my2) > 0 {
        } else {
            assert(!(mx == 0 || my2 == 0 || mx == g.size() - 1 || my2 == g.size() - 1));
            lemma_dda_hits(g, mx, my2, nx, ny + SCALE, sx, sy, arx, ary);
        }
    }
}

/// Every ray with a nonzero direction, cast from a position strictly
/// inside the border of a well-formed grid, terminates on a wall: the
/// cast reports a hit whose side is 0 or 1, whose tag is positive,
/// whose perpendicular-distance numerator is nonnegative — positive
/// whenever the viewer does not stand exactly on a grid line — and
/// whose walk took at most two side-lengths' worth of steps.
pub proof fn lemma_cast_always_hits(v: Viewer, g: Grid, x: int, w: int)
    requires
        g.wf(),
        strictly_inside(v, g),
        !(ray_x_spec(v, x, w) == 0 && ray_y_spec(v, x, w) == 0),
    ensures
        cast_ray_spec(v, g, x, w) matches Some(h) && {
            &&& h.side == 0 || h.side == 1
            &&& h.tag > 0
            &&& h.perp_num >= 0
            &&& (v.position.x as int) % (SCALE as int) != 0 && (v.position.y as int) % (
            SCALE as int) != 0 ==> h.perp_num > 0
            &&& 1 <= h.steps <= 2 * g.size()
        },
{
    let rx = ray_x_spec(v, x, w);
    let ry = ray_y_spec(v, x, w);
    let mx = (v.position.x as int) / (SCALE as int);
    let my = (v.position.y as int) / (SCALE as int);
    let sx: int = if rx < 0 { -1int } else { 1int };
    let sy: int = if ry < 0 { -1int } else { 1int };
    let nx0 = if rx < 0 {
        v.position.x - mx * SCALE
    } else {
        mx * SCALE + SCALE - v.position.x
    };
    let ny0 = if ry < 0 {
        v.position.y - my * SCALE
    } else {
        my * SCALE + SCALE - v.position.y
    };
    lemma_dda_hits(g, mx, my, nx0, ny0, sx, sy, abs_sp(rx), abs_sp(ry));
    assert(border_steps(g.size(), mx, sx) + border_steps(g.size(), my, sy) <= 2 * g.size());
}

/// A ray parallel to the x axis — a zero y component, where the
/// per-cell crossing distance along y would be infinite — steps only
/// along x, so its hit always reports side 0; symmetrically for a ray
/// parallel to the y axis.
pub proof fn lemma_axis_parallel_ray(v: Viewer, g: Grid, x: int, w: int)
    requires
        g.wf(),
        strictly_inside(v, g),
        !(ray_x_spec(v, x, w) == 0 && ray_y_spec(v, x, w) == 0),
    ensures
        ray_y_spec(v, x, w) == 0 ==> (cast_ray_spec(v, g, x, w) matches Some(h) && h.side == 0),
        ray_x_spec(v, x, w) == 0 ==> (cast_ray_spec(v, g, x, w) matches Some(h) && h.side == 1),
{
    let rx = ray_x_spec(v, x, w);
    let ry = ray_y_spec(v, x, w);
    let mx = (v.position.x as int) / (SCALE as int);
    let my = (v.position.y as int) / (SCALE as int);
    let sx: int = if rx < 0 { -1int } else { 1int };
    let sy: int = if ry < 0 { -1int } else { 1int };
    let nx0 = if rx < 0 {
        v.position.x - mx * SCALE
    } else {
        mx * SCALE + SCALE - v.position.x
    };
    let ny0 = if ry < 0 {
        v.position.y - my * SCALE
    } else {
        my * SCALE + SCALE - v.position.y
    };
    lemma_dda_hits(g, mx, my, nx0, ny0, sx, sy, abs_sp(rx), abs_sp(ry));
}

/// Cast one ray for every screen column, left to right.
pub fn cast_columns(v: &Viewer, g: &Grid, w: usize) -> (hits: Vec<Option<Hit>>)
    requires
        v.wf(),
        g.wf(),
        1 <= w <= SCREEN_W_MAX as int,
        strictly_inside(*v, *g),
    ensures
        hits@.len() == w,
        forall|i: int| 0 <= i < w ==> hit_matches(*v, *g, i, w as int, #[trigger] hits@[i]),
{
    let mut hits: Vec<Option<Hit>> = Vec::new();
    let mut x: usize = 0;
    while x < w
        invariant
            v.wf(),
            g.wf(),
            1 <= w <= SCREEN_W_MAX as int,
            strictly_inside(*v, *g),
            0 <= x <= w,
            hits@.len() == x,
            forall|i: int| 0 <= i < x ==> hit_matches(*v, *g, i, w as int, #[trigger] hits@[i]),
        decreases w - x,
    {
        let h = cast_ray(v, g, x, w);
        hits.push(h);
        x = x + 1;
    }
    hits
}

proof fn lemma_square_nonneg(a: int) by (nonlinear_arith)
    ensures
        a * a >= 0,
        a != 0 ==> a * a >= 1,
{
}

} // verus!
