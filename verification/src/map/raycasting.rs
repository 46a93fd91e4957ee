use crate::conf::MAX_DEPTH;
use crate::fixed::{FP_ONE, COORD_LIMIT, abs_i, div_tr, mod_tr, div_fp, cos_fp_spec,
    wrap_angle_spec, cos_fp, wrap_angle, lemma_mul_abs_bound, lemma_div_tr_bound};
use crate::map::map::{Grid, MapObject};
use crate::map::pos::{Pos, MapPos};
use crate::map::traverse::{traverse_spec, traverse_grid, lemma_traverse_depth_bound};
use vstd::arithmetic::div_mod::{lemma_div_pos_is_pos, lemma_div_is_ordered,
    lemma_div_is_ordered_by_denominator};
use vstd::prelude::*;

verus! {

/// A divisor with zero nudged to the smallest positive fixed-point
/// value, so a ray exactly parallel to a grid axis degenerates to a
/// very deep intersection instead of a fault.
pub open spec fn nonzero(v: int) -> int {
    if v == 0 {
        1
    } else {
        v
    }
}

/// Ray origins are expected within a couple of map widths of the grid,
/// which keeps every intermediate of the setup arithmetic far from
/// overflow.
pub open spec fn ray_origin_ok(pos: Pos) -> bool {
    &&& -32 * FP_ONE <= pos.x <= 32 * FP_ONE
    &&& -32 * FP_ONE <= pos.y <= 32 * FP_ONE
}

/// The horizontal DDA branch: the first wall met while stepping from
/// one horizontal grid line to the next. Yields the branch depth, the
/// final x coordinate and the struck material.
pub open spec fn horizontal_intersection_spec(
    grid: Grid,
    pos: Pos,
    map_pos: MapPos,
    sin_a: int,
    cos_a: int,
) -> (int, int, Option<MapObject>) {
    let y0 = if sin_a >= 0 {
        (map_pos.y + 1) * FP_ONE
    } else {
        map_pos.y * FP_ONE - 1
    };
    let dy = if sin_a >= 0 {
        FP_ONE as int
    } else {
        -(FP_ONE as int)
    };
    let s = nonzero(sin_a);
    let depth0 = div_tr((y0 - pos.y) * FP_ONE, s);
    let x0 = pos.x + div_tr(depth0 * cos_a, FP_ONE as int);
    let delta = div_tr(dy * FP_ONE, s);
    let dx = div_tr(delta * cos_a, FP_ONE as int);
    let t = traverse_spec(grid, x0, y0, dx, dy, depth0, delta, (MAX_DEPTH - 1) as nat);
    (t.0, t.1, t.3)
}

/// The vertical DDA branch: the first wall met while stepping from one
/// vertical grid line to the next. Yields the branch depth, the final
/// y coordinate and the struck material.
pub open spec fn vertical_intersection_spec(
    grid: Grid,
    pos: Pos,
    map_pos: MapPos,
    sin_a: int,
    cos_a: int,
) -> (int, int, Option<MapObject>) {
    let x0 = if cos_a >= 0 {
        (map_pos.x + 1) * FP_ONE
    } else {
        map_pos.x * FP_ONE - 1
    };
    let dx = if cos_a >= 0 {
        FP_ONE as int
    } else {
        -(FP_ONE as int)
    };
    let c = nonzero(cos_a);
    let depth0 = div_tr((x0 - pos.x) * FP_ONE, c);
    let y0 = pos.y + div_tr(depth0 * sin_a, FP_ONE as int);
    let delta = div_tr(dx * FP_ONE, c);
    let dy = div_tr(delta * sin_a, FP_ONE as int);
    let t = traverse_spec(grid, x0, y0, dx, dy, depth0, delta, (MAX_DEPTH - 1) as nat);
    (t.0, t.2, t.3)
}

/// Walks the horizontal DDA branch for a ray leaving `pos` (inside the
/// cell `map_pos`) with direction `(cos_a, sin_a)`.
pub fn calculate_horizontal_intersection(
    grid: &Grid,
    pos: &Pos,
    map_pos: &MapPos,
    sin_a: i64,
    cos_a: i64,
) -> (r: (i64, i64, Option<MapObject>))
    requires
        grid.wf(),
        ray_origin_ok(*pos),
        map_pos.x <= 32,
        map_pos.y <= 32,
        -FP_ONE <= sin_a <= FP_ONE,
        -FP_ONE <= cos_a <= FP_ONE,
    ensures
        ({
            let t = horizontal_intersection_spec(*grid, *pos, *map_pos, sin_a as int, cos_a as int);
            r.0 == t.0 && r.1 == t.1 && r.2 == t.2
        }),
        abs_i(r.0 as int) <= 85 * FP_ONE * FP_ONE,
        abs_i(r.1 as int) <= 20 * COORD_LIMIT,
{
    let (y_hor, dy): (i64, i64) = if sin_a >= 0 {
        (((map_pos.y + 1) as i64) * FP_ONE, FP_ONE)
    } else {
        ((map_pos.y as i64) * FP_ONE - 1, -FP_ONE)
    };
    let s = if sin_a == 0 {
        1
    } else {
        sin_a
    };
    let depth_hor = div_fp((y_hor - pos.y) * FP_ONE, s);
    proof {
        lemma_mul_abs_bound(depth_hor as int, cos_a as int, 66 * FP_ONE * FP_ONE, FP_ONE as int);
        lemma_div_tr_bound(depth_hor as int * cos_a as int, FP_ONE as int, 66 * FP_ONE * FP_ONE);
    }
    let x_hor = pos.x + div_fp(depth_hor * cos_a, FP_ONE);
    let delta_depth = div_fp(dy * FP_ONE, s);
    proof {
        lemma_mul_abs_bound(delta_depth as int, cos_a as int, FP_ONE as int * FP_ONE, FP_ONE as int);
        lemma_div_tr_bound(delta_depth as int * cos_a as int, FP_ONE as int, FP_ONE as int * FP_ONE);
    }
    let dx = div_fp(delta_depth * cos_a, FP_ONE);
    proof {
        lemma_traverse_depth_bound(
            *grid,
            x_hor as int,
            y_hor as int,
            dx as int,
            dy as int,
            depth_hor as int,
            delta_depth as int,
            (MAX_DEPTH - 1) as nat,
            66 * FP_ONE * FP_ONE,
            FP_ONE as int * FP_ONE,
        );
    }
    let t = traverse_grid(grid, Pos::new(x_hor, y_hor), Pos::new(dx, dy), depth_hor, delta_depth);
    (t.0, t.1.x(), t.2)
}

/// Walks the vertical DDA branch for a ray leaving `pos` (inside the
/// cell `map_pos`) with direction `(cos_a, sin_a)`.
pub fn calculate_vertical_intersection(
    grid: &Grid,
    pos: &Pos,
    map_pos: &MapPos,
    sin_a: i64,
    cos_a: i64,
) -> (r: (i64, i64, Option<MapObject>))
    requires
        grid.wf(),
        ray_origin_ok(*pos),
        map_pos.x <= 32,
        map_pos.y <= 32,
        -FP_ONE <= sin_a <= FP_ONE,
        -FP_ONE <= cos_a <= FP_ONE,
    ensures
        ({
            let t = vertical_intersection_spec(*grid, *pos, *map_pos, sin_a as int, cos_a as int);
            r.0 == t.0 && r.1 == t.1 && r.2 == t.2
        }),
        abs_i(r.0 as int) <= 85 * FP_ONE * FP_ONE,
        abs_i(r.1 as int) <= 20 * COORD_LIMIT,
{
    let (x_vert, dx): (i64, i64) = if cos_a >= 0 {
        (((map_pos.x + 1) as i64) * FP_ONE, FP_ONE)
    } else {
        ((map_pos.x as i64) * FP_ONE - 1, -FP_ONE)
    };
    let c = if cos_a == 0 {
        1
    } else {
        cos_a
    };
    let depth_vert = div_fp((x_vert - pos.x) * FP_ONE, c);
    proof {
        lemma_mul_abs_bound(depth_vert as int, sin_a as int, 66 * FP_ONE * FP_ONE, FP_ONE as int);
        lemma_div_tr_bound(depth_vert as int * sin_a as int, FP_ONE as int, 66 * FP_ONE * FP_ONE);
    }
    let y_vert = pos.y + div_fp(depth_vert * sin_a, FP_ONE);
    let delta_depth = div_fp(dx * FP_ONE, c);
    proof {
        lemma_mul_abs_bound(delta_depth as int, sin_a as int, FP_ONE as int * FP_ONE, FP_ONE as int);
        lemma_div_tr_bound(delta_depth as int * sin_a as int, FP_ONE as int, FP_ONE as int * FP_ONE);
    }
    let dy = div_fp(delta_depth * sin_a, FP_ONE);
    proof {
        lemma_traverse_depth_bound(
            *grid,
            x_vert as int,
            y_vert as int,
            dx as int,
            dy as int,
            depth_vert as int,
            delta_depth as int,
            (MAX_DEPTH - 1) as nat,
            66 * FP_ONE * FP_ONE,
            FP_ONE as int * FP_ONE,
        );
    }
    let t = traverse_grid(grid, Pos::new(x_vert, y_vert), Pos::new(dx, dy), depth_vert, delta_depth);
    (t.0, t.1.y(), t.2)
}

/// The texture offset across the struck face: the fractional part of
/// the non-stepped coordinate, mirrored by the ray direction so the
/// texture reads the same way from either side.
pub open spec fn wall_offset_spec(dir: int, mirror_on_positive: bool, coord: int) -> int {
    let m = mod_tr(coord, FP_ONE as int);
    if (dir >= 0) == mirror_on_positive {
        FP_ONE - m
    } else {
        m
    }
}

/// The selection rule as a value: smaller depth wins, ties go to the
/// vertical branch, and the winner's non-stepped coordinate gives the
/// texture offset.
pub open spec fn select_closest_spec(
    depth_hor: int,
    x_hor: int,
    texture_hor: Option<MapObject>,
    depth_vert: int,
    y_vert: int,
    texture_vert: Option<MapObject>,
    sin_a: int,
    cos_a: int,
) -> (int, int, Option<MapObject>) {
    if depth_vert <= depth_hor {
        (depth_vert, wall_offset_spec(cos_a, false, y_vert), texture_vert)
    } else {
        (depth_hor, wall_offset_spec(sin_a, true, x_hor), texture_hor)
    }
}

/// Whether a position lies within the engine's safe ray-origin margin.
pub fn ray_origin_within(pos: Pos) -> (r: bool)
    ensures
        r == ray_origin_ok(pos),
{
    -32 * FP_ONE <= pos.x && pos.x <= 32 * FP_ONE && -32 * FP_ONE <= pos.y && pos.y <= 32 * FP_ONE
}

/// Picks the nearer of the two branch intersections: the smaller depth
/// wins and a tie goes to the vertical face. The offset comes from the
/// winning branch's non-stepped coordinate.
pub fn select_closest_intersection(
    depth_hor: i64,
    x_hor: i64,
    texture_hor: Option<MapObject>,
    depth_vert: i64,
    y_vert: i64,
    texture_vert: Option<MapObject>,
    sin_a: i64,
    cos_a: i64,
) -> (r: (i64, i64, Option<MapObject>))
    requires
        x_hor > i64::MIN,
        y_vert > i64::MIN,
    ensures
        r.0 == if depth_vert <= depth_hor {
            depth_vert
        } else {
            depth_hor
        },
        r.0 <= depth_vert && r.0 <= depth_hor,
        depth_vert <= depth_hor ==> r.1 == wall_offset_spec(cos_a as int, false, y_vert as int)
            && r.2 == texture_vert,
        depth_vert > depth_hor ==> r.1 == wall_offset_spec(sin_a as int, true, x_hor as int) && r.2
            == texture_hor,
        ({
            let t = select_closest_spec(
                depth_hor as int,
                x_hor as int,
                texture_hor,
                depth_vert as int,
                y_vert as int,
                texture_vert,
                sin_a as int,
                cos_a as int,
            );
            r.0 == t.0 && r.1 == t.1 && r.2 == t.2
        }),
{
    if depth_vert <= depth_hor {
        let y_mod = y_vert % FP_ONE;
        let offset = if cos_a >= 0 {
            y_mod
        } else {
            FP_ONE - y_mod
        };
        (depth_vert, offset, texture_vert)
    } else {
        let x_mod = x_hor % FP_ONE;
        let offset = if sin_a >= 0 {
            FP_ONE - x_mod
        } else {
            x_mod
        };
        (depth_hor, offset, texture_hor)
    }
}

/// Scales a raw ray depth by the cosine of the angle between the ray
/// and the view direction, undoing the fishbowl distortion of a flat
/// projection plane.
pub fn correct_fishbowl_effect(depth: i64, player_angle: i64, ray_angle: i64) -> (r: i64)
    requires
        -COORD_LIMIT <= depth <= COORD_LIMIT,
        -COORD_LIMIT <= player_angle <= COORD_LIMIT,
        -COORD_LIMIT <= ray_angle <= COORD_LIMIT,
    ensures
        r == div_tr(
            depth * cos_fp_spec(wrap_angle_spec(player_angle - ray_angle)),
            FP_ONE as int,
        ),
        abs_i(r as int) <= abs_i(depth as int),
{
    let c = cos_fp(wrap_angle(player_angle - ray_angle));
    proof {
        lemma_mul_abs_bound(depth as int, c as int, COORD_LIMIT as int, FP_ONE as int);
    }
    let r = div_fp(depth * c, FP_ONE);
    proof {
        assert(abs_i(depth as int * c as int) <= abs_i(depth as int) * FP_ONE) by (nonlinear_arith)
            requires
                -FP_ONE <= c <= FP_ONE,
                FP_ONE == 65536,
        ;
        assert(abs_i(div_tr(depth as int * c as int, FP_ONE as int)) <= abs_i(depth as int)) by {
            let n = abs_i(depth as int * c as int);
            lemma_div_is_ordered(n, abs_i(depth as int) * FP_ONE, FP_ONE as int);
            vstd::arithmetic::div_mod::lemma_div_by_multiple(abs_i(depth as int), FP_ONE as int);
        }
    }
    r
}

/// The projected wall-slice height for a corrected depth, in
/// fixed-point pixels: the screen distance over the depth, with the
/// depth floored away from zero by one fixed-point unit so the result
/// is defined (and finite) for every depth down to zero.
pub fn calculate_projection_height(screen_dist: i64, depth: i64) -> (r: i64)
    requires
        0 <= screen_dist <= COORD_LIMIT,
        0 <= depth <= 100 * COORD_LIMIT,
    ensures
        r == screen_dist * FP_ONE / (depth + 1),
        r >= 0,
{
    proof {
        lemma_div_pos_is_pos(screen_dist as int * FP_ONE, depth as int + 1);
    }
    (screen_dist * FP_ONE) / (depth + 1)
}

/// The exact projected height is the rational `s * FP_ONE / (d + 1)`;
/// comparing two of them cross-multiplied avoids the rounding of the
/// executable division. For a fixed positive screen distance the exact
/// height strictly decreases as the corrected depth grows, and the
/// executable height never grows; both are defined for every depth at
/// or above zero.
pub proof fn lemma_projection_height_decreasing(s: int, d1: int, d2: int)
    requires
        s > 0,
        0 <= d1 < d2,
    ensures
        (s * FP_ONE) * (d2 + 1) > (s * FP_ONE) * (d1 + 1),
        s * FP_ONE / (d1 + 1) >= s * FP_ONE / (d2 + 1),
        s * FP_ONE / (d2 + 1) >= 0,
{
    assert((s * FP_ONE) * (d2 + 1) > (s * FP_ONE) * (d1 + 1)) by (nonlinear_arith)
        requires
            s > 0,
            0 <= d1 < d2,
            FP_ONE == 65536,
    ;
    lemma_div_is_ordered_by_denominator(s * FP_ONE, d1 + 1, d2 + 1);
    lemma_div_pos_is_pos(s * FP_ONE, d2 + 1);
}

} // verus!
