use doomie::map::map::{Grid, MapObject, WIDTH, HEIGHT};
use doomie::map::path::{PathFinding, get_next_nodes};
use doomie::map::pos::MapPos;

fn open_grid() -> Grid {
    let mut cells = Vec::new();
    for _ in 0..HEIGHT {
        let mut row = Vec::new();
        for _ in 0..WIDTH {
            row.push(MapObject::F);
        }
        cells.push(row);
    }
    Grid { cells }
}

fn chebyshev(a: MapPos, b: MapPos) -> i64 {
    let dx = (a.x as i64 - b.x as i64).abs();
    let dy = (a.y as i64 - b.y as i64).abs();
    if dx > dy { dx } else { dy }
}

#[test]
fn first_step_from_start_room_to_goal() {
    let grid = Grid::standard();
    let pf = PathFinding::new(&grid);
    let step = pf.get_path(MapPos::new(1, 1), MapPos::new(5, 1), Vec::new());
    assert_eq!(step, Some(MapPos::new(2, 1)));
}

#[test]
fn start_equals_goal_returns_none() {
    let grid = Grid::standard();
    let pf = PathFinding::new(&grid);
    assert_eq!(pf.get_path(MapPos::new(3, 3), MapPos::new(3, 3), Vec::new()), None);
}

#[test]
fn open_grid_step_strictly_decreases_chebyshev_distance() {
    let grid = open_grid();
    let pf = PathFinding::new(&grid);
    for sy in 0..HEIGHT {
        for sx in 0..WIDTH {
            for gy in 0..HEIGHT {
                for gx in 0..WIDTH {
                    let start = MapPos::new(sx, sy);
                    let goal = MapPos::new(gx, gy);
                    let step = pf.get_path(start, goal, Vec::new());
                    if start == goal {
                        assert_eq!(step, None);
                    } else {
                        let step = step.expect("open grid must always yield a step");
                        assert_eq!(chebyshev(step, goal), chebyshev(start, goal) - 1);
                        assert_eq!(chebyshev(step, start), 1);
                    }
                }
            }
        }
    }
}

#[test]
fn occupied_goal_still_approached_but_never_entered() {
    let grid = open_grid();
    let pf = PathFinding::new(&grid);
    let start = MapPos::new(1, 1);
    let goal = MapPos::new(4, 1);
    let occupied = vec![MapPos::new(4, 1)];
    let step = pf.get_path(start, goal, occupied).expect("a step toward the occupied goal");
    assert_ne!(step, goal);
    assert_eq!(step, MapPos::new(2, 1));
    let near = pf.get_path(MapPos::new(3, 1), goal, vec![MapPos::new(4, 1)]);
    assert_eq!(near, None);
}

#[test]
fn search_avoids_occupied_cells() {
    let grid = Grid::standard();
    let pf = PathFinding::new(&grid);
    let step = pf
        .get_path(MapPos::new(1, 1), MapPos::new(3, 1), vec![MapPos::new(2, 1)])
        .expect("a detour exists");
    assert_ne!(step, MapPos::new(2, 1));
    assert_eq!(step, MapPos::new(2, 2));
}

#[test]
fn unreachable_goal_returns_none() {
    let grid = Grid::standard();
    let pf = PathFinding::new(&grid);
    // The goal cell is a wall: it never enters the traversal graph.
    assert_eq!(pf.get_path(MapPos::new(1, 1), MapPos::new(0, 0), Vec::new()), None);
}

#[test]
fn neighbors_listed_cardinals_first() {
    let grid = Grid::standard();
    let n = get_next_nodes(&grid, 1, 1);
    assert_eq!(n, vec![MapPos::new(2, 1), MapPos::new(1, 2), MapPos::new(2, 2)]);
    let m = get_next_nodes(&grid, 8, 1);
    // All four cardinals of (8, 1) except the wall row above are floor.
    assert!(m.contains(&MapPos::new(7, 1)));
    assert!(m.contains(&MapPos::new(9, 1)));
    assert!(!m.contains(&MapPos::new(8, 0)));
}
