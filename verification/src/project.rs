//! The column projector.
//!
//! A hit record becomes a vertical screen segment: the segment's height
//! is the screen height divided by the perpendicular wall distance
//! (closer walls are taller), centered vertically and clipped to the
//! viewport. The wall tag picks a base color, and a crossing of a
//! vertical grid line lightens it by a fixed factor, the classic
//! two-tone shading. A miss (a degenerate ray) becomes an empty
//! background segment.

use vstd::prelude::*;

use crate::fixed::SCALE;
use crate::grid::Grid;
use crate::raycast::Hit;
use crate::raycast::SCREEN_W_MAX;
use crate::raycast::cast_columns;
use crate::raycast::hit_matches;
use crate::raycast::strictly_inside;
use crate::viewer::Viewer;

verus! {

/// Largest accepted screen height in pixels.
pub const SCREEN_H_MAX: usize = 1_000_000;

/// A vertical screen segment with its resolved color: the output of
/// the pipeline for one screen column. Vertical coordinates are in
/// fixed-point pixels, 0 at the top of the viewport.
#[derive(Clone, Copy, Debug, PartialEq, Eq, Structural)]
pub struct ColumnSegment {
    /// The screen column.
    pub column: usize,
    /// Top of the wall segment, fixed-point pixels.
    pub y_start: i64,
    /// Bottom of the wall segment, fixed-point pixels.
    pub y_end: i64,
    /// Red channel of the resolved color.
    pub red: u8,
    /// Green channel of the resolved color.
    pub green: u8,
    /// Blue channel of the resolved color.
    pub blue: u8,
}

/// Clamp `v` into `[lo, hi]`.
pub open spec fn clamp_spec(v: int, lo: int, hi: int) -> int {
    if v < lo {
        lo
    } else if v > hi {
        hi
    } else {
        v
    }
}

/// The projected height of a wall at perpendicular distance `perp`
/// (fixed point) on a screen `hpx` pixels tall, in fixed-point pixels:
/// height over distance, a nonpositive distance defensively treated as
/// the nearest representable wall.
pub open spec fn line_height_spec(hpx: int, perp: int) -> int {
    (hpx * SCALE * SCALE) / (if perp <= 0 {
        1int
    } else {
        perp
    })
}

/// Top of the projected segment: centered, clipped to the viewport.
pub open spec fn y_start_spec(hpx: int, perp: int) -> int {
    clamp_spec(
        (hpx * SCALE) / 2 - line_height_spec(hpx, perp) / 2,
        0,
        hpx * SCALE,
    )
}

/// Bottom of the projected segment: centered, clipped to end one pixel
/// above the viewport's bottom edge.
pub open spec fn y_end_spec(hpx: int, perp: int) -> int {
    clamp_spec(
        (hpx * SCALE) / 2 + line_height_spec(hpx, perp) / 2,
        0,
        (hpx - 1) * SCALE,
    )
}

/// Red channel of a wall tag's base color.
pub open spec fn base_red(tag: int) -> int {
    if tag == 1 {
        255
    } else if tag == 2 {
        240
    } else if tag == 3 {
        18
    } else if tag == 4 {
        11
    } else {
        0
    }
}

/// Green channel of a wall tag's base color.
pub open spec fn base_green(tag: int) -> int {
    if tag == 1 {
        190
    } else if tag == 2 {
        90
    } else if tag == 3 {
        91
    } else if tag == 4 {
        132
    } else {
        0
    }
}

/// Blue channel of a wall tag's base color.
pub open spec fn base_blue(tag: int) -> int {
    if tag == 1 {
        152
    } else if tag == 2 {
        126
    } else if tag == 3 {
        154
    } else if tag == 4 {
        148
    } else {
        0
    }
}

/// Lighten one channel by five percent of its headroom.
pub open spec fn lighten_spec(c: int) -> int {
    c + ((255 - c) * 5) / 100
}

/// One resolved channel: the base color, lightened when the hit
/// crossed a vertical grid line.
pub open spec fn channel_spec(base: int, side: int) -> int {
    if side == 0 {
        lighten_spec(base)
    } else {
        base
    }
}

/// What `project_column` promises: a miss becomes an empty background
/// segment at mid-screen, a hit the centered, clipped wall segment
/// with its shaded color.
pub open spec fn projects_to(x: int, r: Option<Hit>, hpx: int, seg: ColumnSegment) -> bool {
    &&& seg.column == x
    &&& (r is None ==> {
        &&& seg.y_start == (hpx * SCALE) / 2
        &&& seg.y_end == (hpx * SCALE) / 2
        &&& seg.red == 0 && seg.green == 0 && seg.blue == 0
    })
    &&& (r matches Some(h) ==> {
        &&& seg.y_start == y_start_spec(hpx, h.perp_dist as int)
        &&& seg.y_end == y_end_spec(hpx, h.perp_dist as int)
        &&& seg.red == channel_spec(base_red(h.tag as int), h.side as int)
        &&& seg.green == channel_spec(base_green(h.tag as int), h.side as int)
        &&& seg.blue == channel_spec(base_blue(h.tag as int), h.side as int)
    })
}

/// Lighten one color channel by five percent of its headroom toward
/// white.
fn lighten(c: u8) -> (r: u8)
    ensures
        r as int == lighten_spec(c as int),
        c <= r <= 255,
{
    c + ((255 - c) as u16 * 5 / 100) as u8
}

/// The resolved color for a wall tag, lightened on side 0.
fn wall_color(tag: i32, side: u8) -> (rgb: (u8, u8, u8))
    ensures
        rgb.0 as int == channel_spec(base_red(tag as int), side as int),
        rgb.1 as int == channel_spec(base_green(tag as int), side as int),
        rgb.2 as int == channel_spec(base_blue(tag as int), side as int),
{
    let base: (u8, u8, u8) = if tag == 1 {
        (255, 190, 152)
    } else if tag == 2 {
        (240, 90, 126)
    } else if tag == 3 {
        (18, 91, 154)
    } else if tag == 4 {
        (11, 132, 148)
    } else {
        (0, 0, 0)
    };
    if side == 0 {
        (lighten(base.0), lighten(base.1), lighten(base.2))
    } else {
        base
    }
}

/// Project the cast result for column `x` onto a screen `screen_h`
/// pixels tall.
pub fn project_column(x: usize, hit: &Option<Hit>, screen_h: usize) -> (seg: ColumnSegment)
    requires
        1 <= screen_h <= SCREEN_H_MAX as int,
        hit matches Some(h) ==> h.perp_dist >= 0,
    ensures
        projects_to(x as int, *hit, screen_h as int, seg),
        0 <= seg.y_start <= (screen_h as int) * SCALE,
        0 <= seg.y_end <= (screen_h as int) * SCALE,
        screen_h >= 2 ==> seg.y_start <= seg.y_end,
{
    let hs: i64 = (screen_h as i64) * SCALE;
    let half: i64 = hs / 2;
    match hit {
        None => ColumnSegment { column: x, y_start: half, y_end: half, red: 0, green: 0, blue: 0 },
        Some(h) => {
            let denom: i64 = if h.perp_dist <= 0 {
                1
            } else {
                h.perp_dist
            };
            proof {
                lemma_height_div_bounds((screen_h as int) * SCALE * SCALE, denom as int);
                assert((screen_h as int) * SCALE * SCALE == (hs as int) * SCALE);
            }
            let lh: i64 = hs * SCALE / denom;
            let raw_start: i64 = half - lh / 2;
            let raw_end: i64 = half + lh / 2;
            let y_start: i64 = if raw_start < 0 {
                0
            } else if raw_start > hs {
                hs
            } else {
                raw_start
            };
            let top_end: i64 = hs - SCALE;
            let y_end: i64 = if raw_end < 0 {
                0
            } else if raw_end > top_end {
                top_end
            } else {
                raw_end
            };
            let (red, green, blue) = wall_color(h.tag, h.side);
            ColumnSegment { column: x, y_start, y_end, red, green, blue }
        },
    }
}

/// A nonnegative quotient of a bounded numerator stays bounded.
proof fn lemma_height_div_bounds(num: int, denom: int) by (nonlinear_arith)
    requires
        0 <= num <= 0x10_0000_0000_0000_0000,
        denom >= 1,
    ensures
        0 <= num / denom <= num,
{
}

/// What one rendered column promises: some cast result both matches
/// the ray walk for that column and projects to this segment.
pub open spec fn segment_matches(
    v: Viewer,
    g: Grid,
    x: int,
    w: int,
    hpx: int,
    seg: ColumnSegment,
) -> bool {
    exists|r: Option<Hit>|
        #[trigger] hit_matches(v, g, x, w, r) && projects_to(x, r, hpx, seg)
}

/// Run the whole per-frame pipeline: cast one ray per screen column
/// and project every hit, returning the columns' segments left to
/// right. Each column depends only on the viewer pose and the grid, so
/// the result is a pure function of its arguments.
pub fn render_columns(v: &Viewer, g: &Grid, w: usize, screen_h: usize) -> (segs: Vec<
    ColumnSegment,
>)
    requires
        v.wf(),
        g.wf(),
        1 <= w <= SCREEN_W_MAX as int,
        1 <= screen_h <= SCREEN_H_MAX as int,
        strictly_inside(*v, *g),
    ensures
        segs@.len() == w,
        forall|i: int|
            0 <= i < w ==> segment_matches(*v, *g, i, w as int, screen_h as int, #[trigger] segs@[i]),
{
    let hits = cast_columns(v, g, w);
    let mut segs: Vec<ColumnSegment> = Vec::new();
    let mut x: usize = 0;
    while x < w
        invariant
            1 <= screen_h <= SCREEN_H_MAX as int,
            hits@.len() == w,
            forall|i: int| 0 <= i < w ==> hit_matches(*v, *g, i, w as int, #[trigger] hits@[i]),
            0 <= x <= w,
            segs@.len() == x,
            forall|i: int|
                0 <= i < x ==> segment_matches(
                    *v,
                    *g,
                    i,
                    w as int,
                    screen_h as int,
                    #[trigger] segs@[i],
                ),
        decreases w - x,
    {
        let seg = project_column(x, &hits[x], screen_h);
        segs.push(seg);
        proof {
            assert(hit_matches(*v, *g, x as int, w as int, hits@[x as int]) && projects_to(
                x as int,
                hits@[x as int],
                screen_h as int,
                seg,
            ));
        }
        x = x + 1;
    }
    segs
}

} // verus!
