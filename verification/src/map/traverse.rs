use crate::conf::MAX_DEPTH;
use crate::fixed::{COORD_LIMIT, abs_i};
use crate::map::map::{Grid, MapObject, get_texture, in_map, is_wall};
use crate::map::pos::{Pos, cell_of};
use vstd::prelude::*;

verus! {

/// Whether the fixed-point coordinates fall on a blocking cell:
/// out-of-map coordinates never do.
pub open spec fn wall_at_coords(grid: Grid, px: int, py: int) -> bool {
    let cx = cell_of(px);
    let cy = cell_of(py);
    in_map(cx, cy) && grid.cell_at(cx, cy) != MapObject::F
}

/// The material at the fixed-point coordinates, or `None` off the map.
pub open spec fn texture_at_coords(grid: Grid, px: int, py: int) -> Option<MapObject> {
    let cx = cell_of(px);
    let cy = cell_of(py);
    if in_map(cx, cy) {
        Some(grid.cell_at(cx, cy))
    } else {
        None
    }
}

/// One DDA branch walked to the end: starting from `(px, py)` with
/// accumulated depth `depth`, step by `(dx, dy)` (adding `delta` to the
/// depth) until a wall cell is reached or the fuel runs out. Returns
/// the final depth, the final coordinates and the struck material
/// (`None` when the trace was exhausted).
pub open spec fn traverse_spec(
    grid: Grid,
    px: int,
    py: int,
    dx: int,
    dy: int,
    depth: int,
    delta: int,
    fuel: nat,
) -> (int, int, int, Option<MapObject>)
    decreases fuel,
{
    if fuel == 0 {
        (depth, px, py, None)
    } else if wall_at_coords(grid, px, py) {
        (depth, px, py, texture_at_coords(grid, px, py))
    } else {
        traverse_spec(grid, px + dx, py + dy, dx, dy, depth + delta, delta, (fuel - 1) as nat)
    }
}

/// The depth a branch reports stays within the starting depth plus one
/// delta per step of fuel.
pub proof fn lemma_traverse_depth_bound(
    grid: Grid,
    px: int,
    py: int,
    dx: int,
    dy: int,
    depth: int,
    delta: int,
    fuel: nat,
    b: int,
    bd: int,
) -> (t: (int, int, int, Option<MapObject>))
    requires
        abs_i(depth) <= b,
        abs_i(delta) <= bd,
        0 <= bd,
    ensures
        t == traverse_spec(grid, px, py, dx, dy, depth, delta, fuel),
        abs_i(t.0) <= b + fuel * bd,
    decreases fuel,
{
    let t = traverse_spec(grid, px, py, dx, dy, depth, delta, fuel);
    if fuel == 0 || wall_at_coords(grid, px, py) {
        assert(abs_i(t.0) <= b + fuel * bd) by (nonlinear_arith)
            requires
                abs_i(t.0) <= b,
                0 <= bd,
                fuel >= 0,
        ;
    } else {
        lemma_traverse_depth_bound(
            grid,
            px + dx,
            py + dy,
            dx,
            dy,
            depth + delta,
            delta,
            (fuel - 1) as nat,
            b + bd,
            bd,
        );
        assert((b + bd) + (fuel - 1) * bd == b + fuel * bd) by (nonlinear_arith);
    }
    t
}

/// Walks one DDA branch across the grid: repeatedly advances the
/// sample position by `dist` and the depth by `delta_depth` until a
/// wall cell is struck or `MAX_DEPTH - 1` steps are exhausted.
pub fn traverse_grid(grid: &Grid, pos: Pos, dist: Pos, depth: i64, delta_depth: i64) -> (r: (
    i64,
    Pos,
    Option<MapObject>,
))
    requires
        grid.wf(),
        -COORD_LIMIT <= pos.x <= COORD_LIMIT,
        -COORD_LIMIT <= pos.y <= COORD_LIMIT,
        -COORD_LIMIT <= depth <= COORD_LIMIT,
        -COORD_LIMIT <= dist.x <= COORD_LIMIT,
        -COORD_LIMIT <= dist.y <= COORD_LIMIT,
        -COORD_LIMIT <= delta_depth <= COORD_LIMIT,
    ensures
        ({
            let t = traverse_spec(
                *grid,
                pos.x as int,
                pos.y as int,
                dist.x as int,
                dist.y as int,
                depth as int,
                delta_depth as int,
                (MAX_DEPTH - 1) as nat,
            );
            r.0 == t.0 && r.1.x == t.1 && r.1.y == t.2 && r.2 == t.3
        }),
        abs_i(r.1.x as int) <= 20 * COORD_LIMIT,
        abs_i(r.1.y as int) <= 20 * COORD_LIMIT,
        abs_i(r.0 as int) <= 20 * COORD_LIMIT,
{
    let ghost t = traverse_spec(
        *grid,
        pos.x as int,
        pos.y as int,
        dist.x as int,
        dist.y as int,
        depth as int,
        delta_depth as int,
        (MAX_DEPTH - 1) as nat,
    );
    let mut p = pos;
    let mut d = depth;
    let mut texture: Option<MapObject> = None;
    let mut hit = false;
    let mut k: usize = 1;
    while k < MAX_DEPTH && !hit
        invariant
            grid.wf(),
            1 <= k <= MAX_DEPTH,
            -COORD_LIMIT <= dist.x <= COORD_LIMIT,
            -COORD_LIMIT <= dist.y <= COORD_LIMIT,
            -COORD_LIMIT <= delta_depth <= COORD_LIMIT,
            -(k as int) * COORD_LIMIT <= p.x <= (k as int) * COORD_LIMIT,
            -(k as int) * COORD_LIMIT <= p.y <= (k as int) * COORD_LIMIT,
            -(k as int) * COORD_LIMIT <= d <= (k as int) * COORD_LIMIT,
            !hit ==> t == traverse_spec(
                *grid,
                p.x as int,
                p.y as int,
                dist.x as int,
                dist.y as int,
                d as int,
                delta_depth as int,
                (MAX_DEPTH - k) as nat,
            ),
            !hit ==> texture is None,
            hit ==> t == (d as int, p.x as int, p.y as int, texture),
        decreases MAX_DEPTH - k + (if hit {
            0int
        } else {
            1int
        }),
    {
        if is_wall(grid, p) {
            texture = get_texture(grid, p);
            hit = true;
        } else {
            proof {
                assert((k as int) * COORD_LIMIT + COORD_LIMIT == (k as int + 1) * COORD_LIMIT)
                    by (nonlinear_arith);
            }
            p = p.add(dist);
            d = d + delta_depth;
            k = k + 1;
        }
    }
    (d, p, texture)
}

} // verus!
