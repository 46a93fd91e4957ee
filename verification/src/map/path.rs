use crate::fixed::{FP_ONE, abs_i};
use crate::map::map::{Grid, MapObject, WIDTH, HEIGHT, in_map, is_in_map, is_wall};
use crate::map::pos::{Pos, MapPos};
use vstd::prelude::*;

verus! {

/// The eight step directions, cardinals first: the fixed expansion
/// order makes the search deterministic among equal-length paths.
pub open spec fn way_spec(i: int) -> (i64, i64) {
    if i == 0 {
        (-1i64, 0i64)
    } else if i == 1 {
        (0i64, -1i64)
    } else if i == 2 {
        (1i64, 0i64)
    } else if i == 3 {
        (0i64, 1i64)
    } else if i == 4 {
        (-1i64, -1i64)
    } else if i == 5 {
        (1i64, -1i64)
    } else if i == 6 {
        (1i64, 1i64)
    } else {
        (-1i64, 1i64)
    }
}

/// The `i`-th of the eight neighbor directions.
pub fn way(i: usize) -> (r: (i64, i64))
    requires
        i < 8,
    ensures
        r == way_spec(i as int),
{
    if i == 0 {
        (-1, 0)
    } else if i == 1 {
        (0, -1)
    } else if i == 2 {
        (1, 0)
    } else if i == 3 {
        (0, 1)
    } else if i == 4 {
        (-1, -1)
    } else if i == 5 {
        (1, -1)
    } else if i == 6 {
        (1, 1)
    } else {
        (-1, 1)
    }
}

/// A cell an entity can stand on: an in-map floor cell.
pub open spec fn walkable(grid: Grid, x: int, y: int) -> bool {
    in_map(x, y) && grid.cell_at(x, y) == MapObject::F
}

/// Two distinct cells within one king move of each other.
pub open spec fn adjacent8(a: MapPos, b: MapPos) -> bool {
    a != b && abs_i(a.x - b.x) <= 1 && abs_i(a.y - b.y) <= 1
}

/// The flat index of a cell in the row-major traversal graph.
pub open spec fn idx_of(p: MapPos) -> int {
    p.y * WIDTH + p.x
}

/// The cell a flat graph index stands for.
pub open spec fn node_at(i: int) -> MapPos {
    MapPos { x: (i % (WIDTH as int)) as usize, y: (i / (WIDTH as int)) as usize }
}

/// The walkable 8-neighbors of `(x, y)` among the first `n` directions,
/// in direction order.
pub open spec fn neighbor_seq(grid: Grid, x: int, y: int, n: nat) -> Seq<MapPos>
    decreases n,
{
    if n == 0 {
        Seq::empty()
    } else {
        let prev = neighbor_seq(grid, x, y, (n - 1) as nat);
        let d = way_spec(n - 1);
        let nx = x + d.0;
        let ny = y + d.1;
        if walkable(grid, nx, ny) {
            prev.push(MapPos { x: nx as usize, y: ny as usize })
        } else {
            prev
        }
    }
}

/// Every listed neighbor is walkable and one king move away.
pub proof fn lemma_neighbor_seq_props(grid: Grid, x: int, y: int, n: nat)
    requires
        in_map(x, y),
        n <= 8,
    ensures
        forall|k: int|
            0 <= k < neighbor_seq(grid, x, y, n).len() ==> {
                let b = #[trigger] neighbor_seq(grid, x, y, n)[k];
                walkable(grid, b.x as int, b.y as int) && adjacent8(
                    MapPos { x: x as usize, y: y as usize },
                    b,
                )
            },
    decreases n,
{
    if n > 0 {
        lemma_neighbor_seq_props(grid, x, y, (n - 1) as nat);
        let prev = neighbor_seq(grid, x, y, (n - 1) as nat);
        let cur = neighbor_seq(grid, x, y, n);
        let d = way_spec(n - 1);
        let nx = x + d.0;
        let ny = y + d.1;
        assert(d.0 != 0 || d.1 != 0);
        if walkable(grid, nx, ny) {
            let b = MapPos { x: nx as usize, y: ny as usize };
            assert(cur == prev.push(b));
            assert(adjacent8(MapPos { x: x as usize, y: y as usize }, b));
            assert(forall|k: int| 0 <= k < prev.len() ==> cur[k] == #[trigger] prev[k]);
            assert(cur[cur.len() - 1] == b);
        } else {
            assert(cur == prev);
        }
    }
}

/// The walkable 8-neighbors of the cell `(x, y)`, in direction order.
pub fn get_next_nodes(grid: &Grid, x: i64, y: i64) -> (r: Vec<MapPos>)
    requires
        grid.wf(),
        -100 <= x <= 100,
        -100 <= y <= 100,
    ensures
        r@ == neighbor_seq(*grid, x as int, y as int, 8),
{
    let mut r: Vec<MapPos> = Vec::new();
    let mut i: usize = 0;
    while i < 8
        invariant
            grid.wf(),
            -100 <= x <= 100,
            -100 <= y <= 100,
            i <= 8,
            r@ == neighbor_seq(*grid, x as int, y as int, i as nat),
        decreases 8 - i,
    {
        let (dx, dy) = way(i);
        let nx = x + dx;
        let ny = y + dy;
        if is_in_map(nx, ny) && !is_wall(grid, Pos::new(nx * FP_ONE, ny * FP_ONE)) {
            r.push(MapPos::new(nx as usize, ny as usize));
        }
        i = i + 1;
    }
    r
}

/// Builds the row-major adjacency table of the grid: floor cells map to
/// their walkable neighbors, wall cells to nothing.
pub fn get_graph(grid: &Grid) -> (r: Vec<Vec<MapPos>>)
    requires
        grid.wf(),
    ensures
        r@.len() == WIDTH * HEIGHT,
        forall|x: int, y: int|
            in_map(x, y) ==> (#[trigger] r@[y * WIDTH + x])@ == if walkable(*grid, x, y) {
                neighbor_seq(*grid, x, y, 8)
            } else {
                Seq::<MapPos>::empty()
            },
{
    let mut r: Vec<Vec<MapPos>> = Vec::new();
    let mut y: usize = 0;
    while y < HEIGHT
        invariant
            grid.wf(),
            y <= HEIGHT,
            r@.len() == y * WIDTH,
            forall|x2: int, y2: int|
                0 <= x2 < WIDTH && 0 <= y2 < y ==> (#[trigger] r@[y2 * WIDTH + x2])@
                    == if walkable(*grid, x2, y2) {
                    neighbor_seq(*grid, x2, y2, 8)
                } else {
                    Seq::<MapPos>::empty()
                },
        decreases HEIGHT - y,
    {
        let mut x: usize = 0;
        while x < WIDTH
            invariant
                grid.wf(),
                y < HEIGHT,
                x <= WIDTH,
                r@.len() == y * WIDTH + x,
                forall|x2: int, y2: int|
                    0 <= x2 < WIDTH && 0 <= y2 < y ==> (#[trigger] r@[y2 * WIDTH + x2])@
                        == if walkable(*grid, x2, y2) {
                        neighbor_seq(*grid, x2, y2, 8)
                    } else {
                        Seq::<MapPos>::empty()
                    },
                forall|x2: int|
                    0 <= x2 < x ==> (#[trigger] r@[y * WIDTH + x2])@ == if walkable(
                        *grid,
                        x2,
                        y as int,
                    ) {
                        neighbor_seq(*grid, x2, y as int, 8)
                    } else {
                        Seq::<MapPos>::empty()
                    },
            decreases WIDTH - x,
        {
            let row = &grid.cells[y];
            let c = row[x];
            if match c {
                MapObject::F => true,
                _ => false,
            } {
                r.push(get_next_nodes(grid, x as i64, y as i64));
            } else {
                r.push(Vec::new());
            }
            x = x + 1;
        }
        y = y + 1;
    }
    r
}

/// Grid-based pathfinding: a breadth-first search over the traversal
/// graph built once from the static grid.
pub struct PathFinding {
    pub graph: Vec<Vec<MapPos>>,
}

impl PathFinding {
    /// The graph matches the grid: one row-major entry per cell, floor
    /// cells holding their walkable neighbors in direction order.
    pub open spec fn wf(&self, grid: Grid) -> bool {
        &&& self.graph@.len() == WIDTH * HEIGHT
        &&& forall|x: int, y: int|
            in_map(x, y) ==> (#[trigger] self.graph@[y * WIDTH + x])@ == if walkable(grid, x, y) {
                neighbor_seq(grid, x, y, 8)
            } else {
                Seq::<MapPos>::empty()
            }
    }

    /// A directed edge of the traversal graph.
    pub open spec fn edge(&self, a: MapPos, b: MapPos) -> bool {
        &&& 0 <= idx_of(a) < self.graph@.len()
        &&& self.graph@[idx_of(a)]@.contains(b)
    }

    /// Against a well-formed graph, every edge target is a walkable
    /// king-move neighbor of the source.
    pub proof fn lemma_edge_props(&self, grid: Grid, a: MapPos, b: MapPos)
        requires
            self.wf(grid),
            in_map(a.x as int, a.y as int),
            self.edge(a, b),
        ensures
            walkable(grid, b.x as int, b.y as int),
            adjacent8(a, b),
    {
        lemma_neighbor_seq_props(grid, a.x as int, a.y as int, 8);
        if walkable(grid, a.x as int, a.y as int) {
            let s = neighbor_seq(grid, a.x as int, a.y as int, 8);
            let k = choose|k: int| 0 <= k < s.len() && s[k] == b;
            assert(s[k] == b);
        }
    }

    /// Builds the pathfinder for a grid.
    pub fn new(grid: &Grid) -> (r: PathFinding)
        requires
            grid.wf(),
        ensures
            r.wf(*grid),
            r.graph_ok(),
    {
        let r = PathFinding { graph: get_graph(grid) };
        proof {
            r.lemma_wf_graph_ok(*grid);
        }
        r
    }

    /// The shape every traversal graph has, grid aside: one entry per
    /// cell, every listed neighbor on the map.
    pub open spec fn graph_ok(&self) -> bool {
        &&& self.graph@.len() == WIDTH * HEIGHT
        &&& forall|i: int, k: int|
            0 <= i < self.graph@.len() && 0 <= k < self.graph@[i]@.len() ==> in_map(
                (#[trigger] self.graph@[i]@[k]).x as int,
                self.graph@[i]@[k].y as int,
            )
    }

    /// A graph built from a grid has the plain shape.
    pub proof fn lemma_wf_graph_ok(&self, grid: Grid)
        requires
            self.wf(grid),
        ensures
            self.graph_ok(),
    {
        assert forall|i: int, k: int|
            0 <= i < self.graph@.len() && 0 <= k < self.graph@[i]@.len() implies in_map(
            (#[trigger] self.graph@[i]@[k]).x as int,
            self.graph@[i]@[k].y as int,
        ) by {
            let x = i % (WIDTH as int);
            let y = i / (WIDTH as int);
            assert(i == y * WIDTH + x && 0 <= x < WIDTH && 0 <= y < HEIGHT) by (nonlinear_arith)
                requires
                    0 <= i < WIDTH * HEIGHT,
                    x == i % (WIDTH as int),
                    y == i / (WIDTH as int),
                    WIDTH == 16,
                    HEIGHT == 9,
            ;
            assert(in_map(x, y));
            lemma_neighbor_seq_props(grid, x, y, 8);
            if walkable(grid, x, y) {
                assert(self.graph@[i]@ == neighbor_seq(grid, x, y, 8));
            } else {
                assert(self.graph@[i]@.len() == 0);
            }
        }
    }
}

/// The number of unvisited slots in a predecessor table.
pub open spec fn count_none(s: Seq<Option<MapPos>>) -> int
    decreases s.len(),
{
    if s.len() == 0 {
        0
    } else {
        count_none(s.drop_last()) + if s.last() is None {
            1int
        } else {
            0int
        }
    }
}

pub proof fn lemma_count_none_nonneg(s: Seq<Option<MapPos>>)
    ensures
        count_none(s) >= 0,
    decreases s.len(),
{
    if s.len() > 0 {
        lemma_count_none_nonneg(s.drop_last());
    }
}

/// A blank table is unvisited throughout.
pub proof fn lemma_count_none_blank(n: nat)
    ensures
        count_none(Seq::new(n, |i: int| Option::<MapPos>::None)) == n,
    decreases n,
{
    if n > 0 {
        lemma_count_none_blank((n - 1) as nat);
        assert(Seq::new(n, |i: int| Option::<MapPos>::None).drop_last() =~= Seq::new(
            (n - 1) as nat,
            |i: int| Option::<MapPos>::None,
        ));
    }
}

/// Marking an unvisited slot visited lowers the count by one.
pub proof fn lemma_count_none_update(s: Seq<Option<MapPos>>, i: int, v: MapPos)
    requires
        0 <= i < s.len(),
        s[i] is None,
    ensures
        count_none(s.update(i, Some(v))) == count_none(s) - 1,
    decreases s.len(),
{
    let t = s.update(i, Some(v));
    if i == s.len() - 1 {
        assert(t.drop_last() =~= s.drop_last());
    } else {
        lemma_count_none_update(s.drop_last(), i, v);
        assert(t.drop_last() =~= s.drop_last().update(i, Some(v)));
        assert(t.last() == s.last());
    }
}

/// A cell index round-trips through the flat graph index.
pub proof fn lemma_node_at_idx(p: MapPos)
    requires
        in_map(p.x as int, p.y as int),
    ensures
        node_at(idx_of(p)) == p,
        0 <= idx_of(p) < WIDTH * HEIGHT,
{
    assert((p.y * WIDTH + p.x) % (WIDTH as int) == p.x && (p.y * WIDTH + p.x) / (WIDTH as int)
        == p.y && 0 <= p.y * WIDTH + p.x < WIDTH * HEIGHT) by (nonlinear_arith)
        requires
            0 <= p.x < WIDTH,
            0 <= p.y < HEIGHT,
            WIDTH == 16,
            HEIGHT == 9,
    ;
}

/// The invariant of the search's predecessor table: every visited cell
/// other than the start was reached over one graph edge from another
/// visited cell, is on the map, and avoids the occupied cells; only
/// the goal may be entered while occupied, so an occupied goal can
/// still be approached.
pub open spec fn visited_wf(
    pf: PathFinding,
    visited: Seq<Option<MapPos>>,
    start: MapPos,
    goal: MapPos,
    occupied: Seq<MapPos>,
) -> bool {
    &&& visited.len() == WIDTH * HEIGHT
    &&& in_map(start.x as int, start.y as int)
    &&& visited[idx_of(start)] == Some(start)
    &&& forall|i: int|
        0 <= i < visited.len() && i != idx_of(start) && (#[trigger] visited[i]) is Some ==> {
            let node = node_at(i);
            let pred = visited[i]->0;
            &&& in_map(node.x as int, node.y as int)
            &&& pf.edge(pred, node)
            &&& (!occupied.contains(node) || node == goal)
            &&& in_map(pred.x as int, pred.y as int)
            &&& visited[idx_of(pred)] is Some
        }
}

/// One node's expansion pass, mirrored at spec level: from direction
/// index `j` on, every admissible unvisited neighbor of `cur` (the
/// goal exempt from the occupied filter) is marked with `cur` as its
/// predecessor and appended to the queue, in direction order.
pub open spec fn bfs_expand_spec(
    pf: PathFinding,
    goal: MapPos,
    occ: Seq<MapPos>,
    visited: Seq<Option<MapPos>>,
    queue: Seq<MapPos>,
    cur: MapPos,
    j: nat,
) -> (Seq<Option<MapPos>>, Seq<MapPos>)
    decreases pf.graph@[idx_of(cur)]@.len() - j,
{
    let neighbors = pf.graph@[idx_of(cur)]@;
    if j >= neighbors.len() {
        (visited, queue)
    } else {
        let next = neighbors[j as int];
        let ni = idx_of(next);
        let enterable = next == goal || !occ.contains(next);
        if 0 <= ni < visited.len() && visited[ni] is None && enterable {
            bfs_expand_spec(
                pf,
                goal,
                occ,
                visited.update(ni, Some(cur)),
                queue.push(next),
                cur,
                (j + 1) as nat,
            )
        } else {
            bfs_expand_spec(pf, goal, occ, visited, queue, cur, (j + 1) as nat)
        }
    }
}

/// The search's main loop, mirrored at spec level: dequeue, stop on
/// the goal, otherwise expand and go on. The fuel only bounds the
/// recursion; one unit more than the cell count always outlasts the
/// queue, since every cell is enqueued at most once.
pub open spec fn bfs_loop_spec(
    pf: PathFinding,
    goal: MapPos,
    occ: Seq<MapPos>,
    visited: Seq<Option<MapPos>>,
    queue: Seq<MapPos>,
    head: nat,
    fuel: nat,
) -> Seq<Option<MapPos>>
    decreases fuel,
{
    if fuel == 0 || head >= queue.len() {
        visited
    } else {
        let cur = queue[head as int];
        if cur == goal {
            visited
        } else {
            let vq = bfs_expand_spec(pf, goal, occ, visited, queue, cur, 0);
            bfs_loop_spec(pf, goal, occ, vq.0, vq.1, (head + 1) as nat, (fuel - 1) as nat)
        }
    }
}

/// The predecessor table the search computes: start self-mapped in an
/// otherwise blank table, then the main loop run to rest.
pub open spec fn bfs_spec(
    pf: PathFinding,
    start: MapPos,
    goal: MapPos,
    occ: Seq<MapPos>,
) -> Seq<Option<MapPos>> {
    let blank = Seq::new((WIDTH * HEIGHT) as nat, |i: int| Option::<MapPos>::None);
    bfs_loop_spec(
        pf,
        goal,
        occ,
        blank.update(idx_of(start), Some(start)),
        seq![start],
        0,
        (WIDTH * HEIGHT + 1) as nat,
    )
}

/// The chain walk of the path reconstruction, mirrored at spec level:
/// follow predecessors from `cur` for at most `fuel` hops and report
/// the node walked last together with where the walk stopped.
pub open spec fn back_walk_spec(
    visited: Seq<Option<MapPos>>,
    start: MapPos,
    last: MapPos,
    cur: MapPos,
    fuel: nat,
) -> (MapPos, MapPos)
    decreases fuel,
{
    if cur == start || fuel == 0 {
        (last, cur)
    } else {
        let ci = idx_of(cur);
        let nxt = if 0 <= ci < visited.len() && visited[ci] is Some {
            visited[ci]->0
        } else {
            start
        };
        back_walk_spec(visited, start, cur, nxt, (fuel - 1) as nat)
    }
}

/// The step `get_path` reports, as a value: none when start and goal
/// coincide or the search never reached the goal; otherwise the first
/// node after the start on the reconstructed predecessor chain, unless
/// that node is occupied (an approached occupied goal) or the chain
/// never came back to the start.
pub open spec fn first_step_spec(
    pf: PathFinding,
    start: MapPos,
    goal: MapPos,
    occ: Seq<MapPos>,
) -> Option<MapPos> {
    if start == goal {
        None
    } else {
        let visited = bfs_spec(pf, start, goal, occ);
        let gi = idx_of(goal);
        if !(0 <= gi < visited.len() && visited[gi] is Some) {
            None
        } else {
            let w = back_walk_spec(visited, start, goal, visited[gi]->0, (WIDTH * HEIGHT) as nat);
            if w.1 == start {
                if occ.contains(w.0) {
                    None
                } else {
                    Some(w.0)
                }
            } else {
                None
            }
        }
    }
}

/// Every neighbor of `q` is either ruled out by the occupied set (the
/// goal exempt) or already visited.
#[verifier::opaque]
pub open spec fn expanded_at(
    pf: PathFinding,
    visited: Seq<Option<MapPos>>,
    occ: Seq<MapPos>,
    goal: MapPos,
    q: MapPos,
) -> bool {
    forall|j: int|
        0 <= j < pf.graph@[idx_of(q)]@.len() ==> {
            let n = #[trigger] pf.graph@[idx_of(q)]@[j];
            (occ.contains(n) && n != goal) || (0 <= idx_of(n) < visited.len() && visited[idx_of(n)]
                is Some)
        }
}

/// A predecessor table the search has run to rest on: every visited
/// cell's admissible neighbors are visited too, so no clear path leads
/// out of the visited set.
pub open spec fn bfs_closed(
    pf: PathFinding,
    visited: Seq<Option<MapPos>>,
    occ: Seq<MapPos>,
    goal: MapPos,
) -> bool {
    forall|i: int|
        0 <= i < visited.len() && (#[trigger] visited[i]) is Some ==> expanded_at(
            pf,
            visited,
            occ,
            goal,
            node_at(i),
        )
}

/// The search state still leads to the table `bfs_spec` names: running
/// the spec-level loop from here yields the target table.
#[verifier::opaque]
pub open spec fn bfs_trace_ok(
    pf: PathFinding,
    goal: MapPos,
    occ: Seq<MapPos>,
    target: Seq<Option<MapPos>>,
    visited: Seq<Option<MapPos>>,
    queue: Seq<MapPos>,
    head: int,
) -> bool {
    target == bfs_loop_spec(pf, goal, occ, visited, queue, head as nat, (WIDTH * HEIGHT + 1
        - head) as nat)
}

/// Every visited cell has an entry somewhere in the queue.
#[verifier::opaque]
pub open spec fn queued(visited: Seq<Option<MapPos>>, queue: Seq<MapPos>) -> bool {
    forall|i: int|
        0 <= i < visited.len() && (#[trigger] visited[i]) is Some ==> exists|t: int|
            0 <= t < queue.len() && queue[t] == node_at(i)
}

/// The first `head` queue entries have had their expansion pass.
#[verifier::opaque]
pub open spec fn frontier_expanded(
    pf: PathFinding,
    visited: Seq<Option<MapPos>>,
    occ: Seq<MapPos>,
    goal: MapPos,
    queue: Seq<MapPos>,
    head: int,
) -> bool {
    forall|t: int| 0 <= t < head ==> expanded_at(pf, visited, occ, goal, #[trigger] queue[t])
}

/// A walk toward `goal` over graph edges whose interior never enters
/// an occupied cell (the goal itself exempt).
pub open spec fn is_clear_path(
    pf: PathFinding,
    occ: Seq<MapPos>,
    goal: MapPos,
    p: Seq<MapPos>,
) -> bool {
    &&& p.len() >= 1
    &&& p.last() == goal
    &&& forall|k: int| 0 <= k < p.len() - 1 ==> pf.edge(#[trigger] p[k], p[k + 1])
    &&& forall|k: int| 1 <= k < p.len() ==> !occ.contains(#[trigger] p[k]) || p[k] == goal
}

/// A walk over graph edges cannot leave a closed visited set: if its
/// first node is visited, its goal end is visited too.
pub proof fn lemma_closed_reaches(
    pf: PathFinding,
    visited: Seq<Option<MapPos>>,
    occ: Seq<MapPos>,
    goal: MapPos,
    p: Seq<MapPos>,
)
    requires
        pf.graph_ok(),
        visited.len() == WIDTH * HEIGHT,
        bfs_closed(pf, visited, occ, goal),
        is_clear_path(pf, occ, goal, p),
        in_map(p[0].x as int, p[0].y as int),
        visited[idx_of(p[0])] is Some,
    ensures
        0 <= idx_of(goal) < visited.len() && visited[idx_of(goal)] is Some,
    decreases p.len(),
{
    reveal(expanded_at);
    lemma_node_at_idx(p[0]);
    if p.len() == 1 {
        assert(p[0] == goal);
    } else {
        assert(pf.edge(p[0], p[1]));
        let neighbors = pf.graph@[idx_of(p[0])]@;
        let j = choose|j: int| 0 <= j < neighbors.len() && neighbors[j] == p[1];
        assert(expanded_at(pf, visited, occ, goal, p[0]));
        assert((occ.contains(p[1]) && p[1] != goal) || (0 <= idx_of(p[1]) < visited.len()
            && visited[idx_of(p[1])] is Some)) by {
            assert(neighbors[j] == p[1]);
        }
        assert(!occ.contains(p[1]) || p[1] == goal);
        assert(in_map(p[1].x as int, p[1].y as int));
        let tail = p.subrange(1, p.len() as int);
        assert(is_clear_path(pf, occ, goal, tail)) by {
            assert(tail.last() == p.last());
            assert(forall|k: int|
                0 <= k < tail.len() - 1 ==> pf.edge(#[trigger] tail[k], tail[k + 1])) by {
                assert(forall|k: int|
                    0 <= k < tail.len() - 1 ==> #[trigger] tail[k] == p[k + 1] && tail[k + 1] == p[
                        k + 2
                    ]);
            }
            assert(forall|k: int|
                1 <= k < tail.len() ==> !occ.contains(#[trigger] tail[k]) || tail[k] == goal) by {
                assert(forall|k: int| 1 <= k < tail.len() ==> #[trigger] tail[k] == p[k + 1]);
            }
        }
        lemma_closed_reaches(pf, visited, occ, goal, tail);
    }
}

/// The search's completeness, as a law: whenever a clear path joins
/// the start to the goal, the predecessor table the search hands back
/// holds the goal. The table is either closed (the frontier ran dry)
/// or the goal itself was dequeued; either way the goal was reached.
pub proof fn lemma_bfs_complete(
    pf: PathFinding,
    start: MapPos,
    goal: MapPos,
    occ: Seq<MapPos>,
    visited: Seq<Option<MapPos>>,
    p: Seq<MapPos>,
)
    requires
        pf.graph_ok(),
        visited_wf(pf, visited, start, goal, occ),
        (0 <= idx_of(goal) < visited.len() && visited[idx_of(goal)] is Some) || bfs_closed(
            pf,
            visited,
            occ,
            goal,
        ),
        is_clear_path(pf, occ, goal, p),
        p[0] == start,
    ensures
        0 <= idx_of(goal) < visited.len() && visited[idx_of(goal)] is Some,
{
    if !(0 <= idx_of(goal) < visited.len() && visited[idx_of(goal)] is Some) {
        lemma_node_at_idx(start);
        lemma_closed_reaches(pf, visited, occ, goal, p);
    }
}

impl PathFinding {
    /// The breadth-first search pass: explores the graph from `start`,
    /// never entering an occupied cell, and records each reached
    /// cell's predecessor. Stops early once `goal` is dequeued.
    #[verifier::rlimit(100)]
    pub fn bfs(&self, start: MapPos, goal: MapPos, npc_positions: &Vec<MapPos>) -> (visited: Vec<
        Option<MapPos>,
    >)
        requires
            self.graph_ok(),
            in_map(start.x as int, start.y as int),
        ensures
            visited_wf(*self, visited@, start, goal, npc_positions@),
            visited@ == bfs_spec(*self, start, goal, npc_positions@),
            (0 <= idx_of(goal) < visited@.len() && visited@[idx_of(goal)] is Some) || bfs_closed(
                *self,
                visited@,
                npc_positions@,
                goal,
            ),
    {
        let mut visited: Vec<Option<MapPos>> = Vec::new();
        let mut i: usize = 0;
        while i < WIDTH * HEIGHT
            invariant
                i <= WIDTH * HEIGHT,
                visited@.len() == i,
                forall|k: int| 0 <= k < i ==> (#[trigger] visited@[k]) is None,
            decreases WIDTH * HEIGHT - i,
        {
            visited.push(None);
            i = i + 1;
        }
        proof {
            lemma_node_at_idx(start);
            assert(visited@ =~= Seq::new((WIDTH * HEIGHT) as nat, |i: int| Option::<MapPos>::None));
        }
        let si = start.y * WIDTH + start.x;
        visited[si] = Some(start);
        let ghost target = bfs_spec(*self, start, goal, npc_positions@);
        let mut queue: Vec<MapPos> = Vec::new();
        queue.push(start);
        let mut head: usize = 0;
        let mut done = false;
        proof {
            lemma_count_none_nonneg(visited@);
            lemma_count_none_update(
                Seq::new((WIDTH * HEIGHT) as nat, |i: int| Option::<MapPos>::None),
                si as int,
                start,
            );
            lemma_count_none_blank((WIDTH * HEIGHT) as nat);
            assert(queue@ =~= seq![start]);
            assert(queued(visited@, queue@)) by {
                reveal(queued);
                assert forall|i2: int|
                    0 <= i2 < visited@.len() && (#[trigger] visited@[i2]) is Some implies exists|
                    t: int,
                |
                    0 <= t < queue@.len() && queue@[t] == node_at(i2) by {
                    assert(i2 == si as int && queue@[0] == start && node_at(si as int) == start);
                }
            }
            assert(frontier_expanded(*self, visited@, npc_positions@, goal, queue@, 0)) by {
                reveal(frontier_expanded);
            }
            assert(bfs_trace_ok(*self, goal, npc_positions@, target, visited@, queue@, 0)) by {
                reveal(bfs_trace_ok);
            }
        }
        while head < queue.len() && !done
            invariant
                self.graph_ok(),
                in_map(start.x as int, start.y as int),
                visited_wf(*self, visited@, start, goal, npc_positions@),
                head <= queue@.len(),
                forall|k: int|
                    0 <= k < queue@.len() ==> {
                        let q = #[trigger] queue@[k];
                        in_map(q.x as int, q.y as int) && visited@[idx_of(q)] is Some
                    },
                count_none(visited@) >= 0,
                queue@.len() + count_none(visited@) == WIDTH * HEIGHT,
                queued(visited@, queue@),
                !done ==> frontier_expanded(
                    *self,
                    visited@,
                    npc_positions@,
                    goal,
                    queue@,
                    head as int,
                ),
                done ==> 0 <= idx_of(goal) < visited@.len() && visited@[idx_of(goal)] is Some,
                !done ==> bfs_trace_ok(
                    *self,
                    goal,
                    npc_positions@,
                    target,
                    visited@,
                    queue@,
                    head as int,
                ),
                done ==> target == visited@,
            decreases count_none(visited@), queue@.len() - head, (if done {
                0int
            } else {
                1int
            }),
        {
            let ghost cn0 = count_none(visited@);
            let ghost qlen0 = queue@.len();
            let ghost v0 = visited@;
            let ghost q0 = queue@;
            let ghost h0 = head;
            let ghost fuel0 = (WIDTH * HEIGHT + 1 - head) as nat;
            let cur = queue[head];
            head = head + 1;
            if cur.x == goal.x && cur.y == goal.y {
                proof {
                    assert(cur == goal);
                    assert(visited@[idx_of(cur)] is Some);
                    assert(target == visited@) by {
                        reveal(bfs_trace_ok);
                        assert(bfs_trace_ok(
                            *self,
                            goal,
                            npc_positions@,
                            target,
                            v0,
                            q0,
                            h0 as int,
                        ));
                    }
                }
                done = true;
            } else {
                proof {
                    lemma_node_at_idx(cur);
                }
                let ci = cur.y * WIDTH + cur.x;
                let mut j: usize = 0;
                while j < self.graph[ci].len()
                    invariant
                        self.graph_ok(),
                        in_map(start.x as int, start.y as int),
                        in_map(cur.x as int, cur.y as int),
                        ci == idx_of(cur),
                        h0 == head - 1,
                        q0.len() <= queue@.len(),
                        forall|t2: int| 0 <= t2 < q0.len() ==> #[trigger] queue@[t2] == q0[t2],
                        visited_wf(*self, visited@, start, goal, npc_positions@),
                        visited@[idx_of(cur)] is Some,
                        j <= self.graph@[ci as int]@.len(),
                        head <= queue@.len(),
                        forall|k: int|
                            0 <= k < queue@.len() ==> {
                                let q = #[trigger] queue@[k];
                                in_map(q.x as int, q.y as int) && visited@[idx_of(q)] is Some
                            },
                        count_none(visited@) >= 0,
                        count_none(visited@) <= cn0,
                        queue@.len() == qlen0 + cn0 - count_none(visited@),
                        queued(visited@, queue@),
                        frontier_expanded(
                            *self,
                            visited@,
                            npc_positions@,
                            goal,
                            queue@,
                            h0 as int,
                        ),
                        forall|j2: int|
                            0 <= j2 < j ==> {
                                let n = #[trigger] self.graph@[ci as int]@[j2];
                                (npc_positions@.contains(n) && n != goal) || (0 <= idx_of(n)
                                    < visited@.len() && visited@[idx_of(n)] is Some)
                            },
                        bfs_expand_spec(*self, goal, npc_positions@, v0, q0, cur, 0)
                            == bfs_expand_spec(
                            *self,
                            goal,
                            npc_positions@,
                            visited@,
                            queue@,
                            cur,
                            j as nat,
                        ),
                    decreases self.graph@[ci as int]@.len() - j,
                {
                    let next = self.graph[ci][j];
                    proof {
                        lemma_node_at_idx(next);
                    }
                    let ni = next.y * WIDTH + next.x;
                    let unvisited = match visited[ni] {
                        Option::None => true,
                        Option::Some(_) => false,
                    };
                    let enterable = (next.x == goal.x && next.y == goal.y) || !contains_pos(
                        npc_positions,
                        next,
                    );
                    proof {
                        assert(enterable == (next == goal || !npc_positions@.contains(next)));
                    }
                    let ghost pv = visited@;
                    let ghost pq = queue@;
                    if unvisited && enterable {
                        proof {
                            lemma_count_none_update(visited@, ni as int, cur);
                            assert(self.graph@[idx_of(cur)]@[j as int] == next);
                            assert(self.graph@[idx_of(cur)]@.contains(next));
                        }
                        visited[ni] = Some(cur);
                        queue.push(next);
                        proof {
                            assert(node_at(ni as int) == next);
                            assert(visited@[idx_of(start)] == Some(start));
                            lemma_count_none_nonneg(visited@);
                            assert(queued(visited@, queue@)) by {
                                reveal(queued);
                                assert forall|i2: int|
                                    0 <= i2 < visited@.len() && (#[trigger] visited@[i2])
                                        is Some implies exists|t: int|
                                    0 <= t < queue@.len() && queue@[t] == node_at(i2) by {
                                    if i2 == ni as int {
                                        assert(queue@[queue@.len() - 1] == next);
                                    } else {
                                        assert(pv[i2] is Some);
                                        let t = choose|t: int|
                                            0 <= t < pq.len() && pq[t] == node_at(i2);
                                        assert(queue@[t] == node_at(i2));
                                    }
                                }
                            }
                            assert(frontier_expanded(
                                *self,
                                visited@,
                                npc_positions@,
                                goal,
                                queue@,
                                h0 as int,
                            )) by {
                                reveal(frontier_expanded);
                                assert forall|t: int| 0 <= t < h0 implies expanded_at(
                                    *self,
                                    visited@,
                                    npc_positions@,
                                    goal,
                                    #[trigger] queue@[t],
                                ) by {
                                    reveal(frontier_expanded);
                                    reveal(expanded_at);
                                    let q = queue@[t];
                                    assert(queue@ == pq.push(next));
                                    assert(0 <= t < pq.len());
                                    assert(pq.push(next)[t] == pq[t]);
                                    assert(q == pq[t]);
                                    assert(frontier_expanded(
                                        *self,
                                        pv,
                                        npc_positions@,
                                        goal,
                                        pq,
                                        h0 as int,
                                    ));
                                    assert(expanded_at(*self, pv, npc_positions@, goal, q));
                                    assert forall|j3: int|
                                        0 <= j3 < self.graph@[idx_of(q)]@.len() implies {
                                        let n = #[trigger] self.graph@[idx_of(q)]@[j3];
                                        (npc_positions@.contains(n) && n != goal) || (0 <= idx_of(
                                            n,
                                        ) < visited@.len() && visited@[idx_of(n)] is Some)
                                    } by {
                                        let n = self.graph@[idx_of(q)]@[j3];
                                        assert((npc_positions@.contains(n) && n != goal) || (0
                                            <= idx_of(n) < pv.len() && pv[idx_of(n)] is Some));
                                    }
                                }
                            }
                            assert forall|j2: int| 0 <= j2 < j + 1 implies {
                                let n = #[trigger] self.graph@[ci as int]@[j2];
                                (npc_positions@.contains(n) && n != goal) || (0 <= idx_of(n)
                                    < visited@.len() && visited@[idx_of(n)] is Some)
                            } by {
                                let n = self.graph@[ci as int]@[j2];
                                if j2 < j {
                                    assert((npc_positions@.contains(n) && n != goal) || (0
                                        <= idx_of(n) < pv.len() && pv[idx_of(n)] is Some));
                                } else {
                                    assert(n == next && visited@[ni as int] is Some);
                                }
                            }
                        }
                    } else {
                        proof {
                            if !unvisited {
                                assert(visited@[ni as int] is Some);
                            }
                            assert forall|j2: int| 0 <= j2 < j + 1 implies {
                                let n = #[trigger] self.graph@[ci as int]@[j2];
                                (npc_positions@.contains(n) && n != goal) || (0 <= idx_of(n)
                                    < visited@.len() && visited@[idx_of(n)] is Some)
                            } by {
                                let n = self.graph@[ci as int]@[j2];
                                if j2 == j {
                                    assert(n == next);
                                }
                            }
                        }
                    }
                    j = j + 1;
                }
                proof {
                    assert(frontier_expanded(
                        *self,
                        visited@,
                        npc_positions@,
                        goal,
                        queue@,
                        head as int,
                    )) by {
                        reveal(frontier_expanded);
                        reveal(expanded_at);
                        assert(expanded_at(*self, visited@, npc_positions@, goal, cur));
                        assert forall|t: int| 0 <= t < head implies expanded_at(
                            *self,
                            visited@,
                            npc_positions@,
                            goal,
                            #[trigger] queue@[t],
                        ) by {
                            if t == h0 {
                                assert(queue@[t] == cur);
                            }
                        }
                    }
                    assert(bfs_expand_spec(*self, goal, npc_positions@, v0, q0, cur, 0) == (
                    visited@,
                    queue@,
                    ));
                    assert(bfs_trace_ok(
                        *self,
                        goal,
                        npc_positions@,
                        target,
                        visited@,
                        queue@,
                        head as int,
                    )) by {
                        reveal(bfs_trace_ok);
                        assert(target == bfs_loop_spec(
                            *self,
                            goal,
                            npc_positions@,
                            v0,
                            q0,
                            h0 as nat,
                            fuel0,
                        ));
                        assert(fuel0 >= 1 && h0 < q0.len() && q0[h0 as int] == cur);
                        assert(bfs_loop_spec(*self, goal, npc_positions@, v0, q0, h0 as nat, fuel0)
                            == bfs_loop_spec(
                            *self,
                            goal,
                            npc_positions@,
                            visited@,
                            queue@,
                            head as nat,
                            (fuel0 - 1) as nat,
                        ));
                    }
                }
            }
        }
        proof {
            if !done {
                assert(target == visited@) by {
                    reveal(bfs_trace_ok);
                }
                reveal(queued);
                reveal(frontier_expanded);
                assert forall|i2: int|
                    0 <= i2 < visited@.len() && (#[trigger] visited@[i2]) is Some implies
                    expanded_at(*self, visited@, npc_positions@, goal, node_at(i2)) by {
                    reveal(queued);
                    reveal(frontier_expanded);
                    let t = choose|t: int| 0 <= t < queue@.len() && queue@[t] == node_at(i2);
                    assert(expanded_at(*self, visited@, npc_positions@, goal, queue@[t]));
                }
            }
        }
        visited
    }

    /// One breadth-first search from `start` toward `goal`, avoiding
    /// the occupied cells, returning the first step of the found path:
    /// the cell to enter next, `None` when the goal is the start or no
    /// path clears the occupied cells.
    pub fn get_path(&self, start: MapPos, goal: MapPos, npc_positions: Vec<MapPos>) -> (r: Option<
        MapPos,
    >)
        requires
            self.graph_ok(),
            in_map(start.x as int, start.y as int),
            in_map(goal.x as int, goal.y as int),
        ensures
            r == first_step_spec(*self, start, goal, npc_positions@),
            start == goal ==> r is None,
            r is Some ==> {
                let step = r->0;
                &&& self.edge(start, step)
                &&& !npc_positions@.contains(step)
                &&& step != start
                &&& in_map(step.x as int, step.y as int)
            },
    {
        if start.x == goal.x && start.y == goal.y {
            return None;
        }
        let visited = self.bfs(start, goal, &npc_positions);
        proof {
            lemma_node_at_idx(goal);
            lemma_node_at_idx(start);
        }
        let gi = goal.y * WIDTH + goal.x;
        let goal_seen = match visited[gi] {
            Option::None => false,
            Option::Some(_) => true,
        };
        if !goal_seen {
            return None;
        }
        let mut last = goal;
        let mut cur = match visited[gi] {
            Option::None => start,
            Option::Some(p) => p,
        };
        let ghost walk = back_walk_spec(visited@, start, goal, cur, (WIDTH * HEIGHT) as nat);
        let mut fuel: usize = WIDTH * HEIGHT;
        while (cur.x != start.x || cur.y != start.y) && fuel > 0
            invariant
                visited_wf(*self, visited@, start, goal, npc_positions@),
                in_map(start.x as int, start.y as int),
                in_map(last.x as int, last.y as int),
                in_map(cur.x as int, cur.y as int),
                last != start,
                visited@[idx_of(last)] == Some(cur),
                visited@[idx_of(cur)] is Some,
                walk == back_walk_spec(visited@, start, last, cur, fuel as nat),
            decreases fuel,
        {
            proof {
                lemma_node_at_idx(cur);
                lemma_node_at_idx(last);
                assert(node_at(idx_of(last)) == last);
            }
            last = cur;
            let ci = cur.y * WIDTH + cur.x;
            cur = match visited[ci] {
                Option::None => start,
                Option::Some(p) => p,
            };
            fuel = fuel - 1;
        }
        proof {
            assert(walk == (last, cur));
        }
        if cur.x == start.x && cur.y == start.y {
            proof {
                lemma_node_at_idx(last);
                assert(visited@[idx_of(last)] == Some(start));
                assert(idx_of(last) != idx_of(start)) by {
                    if idx_of(last) == idx_of(start) {
                        assert(node_at(idx_of(last)) == last && node_at(idx_of(start)) == start);
                    }
                }
            }
            if contains_pos(&npc_positions, last) {
                None
            } else {
                Some(last)
            }
        } else {
            None
        }
    }
}

/// Whether a list of cells holds one equal to `p`.
pub fn contains_pos(v: &Vec<MapPos>, p: MapPos) -> (r: bool)
    ensures
        r == v@.contains(p),
{
    let mut i: usize = 0;
    while i < v.len()
        invariant
            i <= v@.len(),
            forall|k: int| 0 <= k < i ==> v@[k] != p,
        decreases v@.len() - i,
    {
        if v[i].x == p.x && v[i].y == p.y {
            assert(v@[i as int] == p);
            return true;
        }
        i = i + 1;
    }
    false
}

} // verus!
