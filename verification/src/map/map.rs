use crate::engine::TextureID;
use crate::map::pos::Pos;
use vstd::prelude::*;

verus! {

/// Width of the level grid, in cells.
pub const WIDTH: usize = 16;

/// Height of the level grid, in cells.
pub const HEIGHT: usize = 9;

/// The kind of one grid cell. Everything except `F` blocks movement and
/// rays; the decorated wall kinds only pick a different look at render
/// time.
#[derive(Clone, Copy, PartialEq, Eq, Structural, Debug, Hash, Default)]
pub enum MapObject {
    /// floor
    F,
    /// wall
    #[default]
    W,
    /// gargoyle wall
    G,
    /// brick wall
    B,
    /// shield wall
    S,
    /// mold wall
    M,
}

/// Whether the cell coordinates fall inside the level grid.
pub open spec fn in_map(x: int, y: int) -> bool {
    0 <= x < WIDTH && 0 <= y < HEIGHT
}

/// Whether a pair of (possibly negative) cell coordinates falls inside
/// the level grid.
pub fn is_in_map(x: i64, y: i64) -> (r: bool)
    ensures
        r == in_map(x as int, y as int),
{
    0 <= x && x < WIDTH as i64 && 0 <= y && y < HEIGHT as i64
}

/// The fixed level layout, row by row from the top:
///
///   W W W W W W W W M M M W W W W W
///   W . . . . . . . . . . . . . . W
///   W . . S B B B . . . B B B . . W
///   W . . . . . B . . . . . B . . W
///   W . . . . . B . . . . . B . . W
///   W . . S B B B . . . . . . . . W
///   W . . . . . . . . . . . . . . W
///   W . . M . . . M . . . . . . . W
///   W W W W W W W W G W G W G W W W
pub open spec fn level_cell(x: int, y: int) -> MapObject {
    if y == 0 {
        if 8 <= x <= 10 {
            MapObject::M
        } else {
            MapObject::W
        }
    } else if y == 2 {
        if x == 0 || x == 15 {
            MapObject::W
        } else if x == 3 {
            MapObject::S
        } else if 4 <= x <= 6 || 10 <= x <= 12 {
            MapObject::B
        } else {
            MapObject::F
        }
    } else if y == 3 || y == 4 {
        if x == 0 || x == 15 {
            MapObject::W
        } else if x == 6 || x == 12 {
            MapObject::B
        } else {
            MapObject::F
        }
    } else if y == 5 {
        if x == 0 || x == 15 {
            MapObject::W
        } else if x == 3 {
            MapObject::S
        } else if 4 <= x <= 6 {
            MapObject::B
        } else {
            MapObject::F
        }
    } else if y == 7 {
        if x == 0 || x == 15 {
            MapObject::W
        } else if x == 3 || x == 7 {
            MapObject::M
        } else {
            MapObject::F
        }
    } else if y == 8 {
        if x == 8 || x == 10 || x == 12 {
            MapObject::G
        } else {
            MapObject::W
        }
    } else {
        if x == 0 || x == 15 {
            MapObject::W
        } else {
            MapObject::F
        }
    }
}

/// The cell of the fixed level at the given in-range coordinates.
fn standard_cell(x: usize, y: usize) -> (r: MapObject)
    requires
        in_map(x as int, y as int),
    ensures
        r == level_cell(x as int, y as int),
{
    if y == 0 {
        if 8 <= x && x <= 10 {
            MapObject::M
        } else {
            MapObject::W
        }
    } else if y == 2 {
        if x == 0 || x == 15 {
            MapObject::W
        } else if x == 3 {
            MapObject::S
        } else if (4 <= x && x <= 6) || (10 <= x && x <= 12) {
            MapObject::B
        } else {
            MapObject::F
        }
    } else if y == 3 || y == 4 {
        if x == 0 || x == 15 {
            MapObject::W
        } else if x == 6 || x == 12 {
            MapObject::B
        } else {
            MapObject::F
        }
    } else if y == 5 {
        if x == 0 || x == 15 {
            MapObject::W
        } else if x == 3 {
            MapObject::S
        } else if 4 <= x && x <= 6 {
            MapObject::B
        } else {
            MapObject::F
        }
    } else if y == 7 {
        if x == 0 || x == 15 {
            MapObject::W
        } else if x == 3 || x == 7 {
            MapObject::M
        } else {
            MapObject::F
        }
    } else if y == 8 {
        if x == 8 || x == 10 || x == 12 {
            MapObject::G
        } else {
            MapObject::W
        }
    } else {
        if x == 0 || x == 15 {
            MapObject::W
        } else {
            MapObject::F
        }
    }
}

/// The static occupancy grid: read-only after construction, queried by
/// the raycaster, the pathfinder and movement.
pub struct Grid {
    pub cells: Vec<Vec<MapObject>>,
}

impl Grid {
    /// A well-formed grid has exactly `HEIGHT` rows of `WIDTH` cells.
    pub open spec fn wf(&self) -> bool {
        &&& self.cells@.len() == HEIGHT
        &&& forall|j: int| 0 <= j < HEIGHT ==> (#[trigger] self.cells@[j])@.len() == WIDTH
    }

    /// The cell at in-range coordinates.
    pub open spec fn cell_at(&self, x: int, y: int) -> MapObject {
        self.cells@[y]@[x]
    }

    /// Whether the continuous position falls on a blocking cell.
    /// Positions outside the map never count as walls.
    pub open spec fn is_wall_spec(&self, pos: Pos) -> bool {
        let m = pos.map_spec();
        in_map(m.x as int, m.y as int) && self.cell_at(m.x as int, m.y as int) != MapObject::F
    }

    /// The material under the continuous position, if it is on the map.
    pub open spec fn texture_spec(&self, pos: Pos) -> Option<MapObject> {
        let m = pos.map_spec();
        if in_map(m.x as int, m.y as int) {
            Some(self.cell_at(m.x as int, m.y as int))
        } else {
            None
        }
    }

    /// Builds the fixed level grid.
    pub fn standard() -> (r: Grid)
        ensures
            r.wf(),
            forall|x: int, y: int|
                in_map(x, y) ==> #[trigger] r.cell_at(x, y) == level_cell(x, y),
    {
        let mut cells: Vec<Vec<MapObject>> = Vec::new();
        let mut y: usize = 0;
        while y < HEIGHT
            invariant
                y <= HEIGHT,
                cells@.len() == y,
                forall|j: int| 0 <= j < y ==> (#[trigger] cells@[j])@.len() == WIDTH,
                forall|j: int, i: int|
                    0 <= j < y && 0 <= i < WIDTH ==> #[trigger] cells@[j]@[i] == level_cell(i, j),
            decreases HEIGHT - y,
        {
            let mut row: Vec<MapObject> = Vec::new();
            let mut x: usize = 0;
            while x < WIDTH
                invariant
                    x <= WIDTH,
                    y < HEIGHT,
                    row@.len() == x,
                    forall|i: int| 0 <= i < x ==> #[trigger] row@[i] == level_cell(i, y as int),
                decreases WIDTH - x,
            {
                row.push(standard_cell(x, y));
                x = x + 1;
            }
            cells.push(row);
            y = y + 1;
        }
        Grid { cells }
    }
}

/// Whether the continuous position falls on a blocking cell of the
/// grid; out-of-map positions fail soft and report no wall.
pub fn is_wall(grid: &Grid, pos: Pos) -> (r: bool)
    requires
        grid.wf(),
    ensures
        r == grid.is_wall_spec(pos),
{
    let m = pos.map();
    if is_in_map(m.x as i64, m.y as i64) {
        let row = &grid.cells[m.y];
        let c = row[m.x];
        match c {
            MapObject::F => false,
            _ => true,
        }
    } else {
        false
    }
}

/// The material under the continuous position, or `None` off the map.
pub fn get_texture(grid: &Grid, pos: Pos) -> (r: Option<MapObject>)
    requires
        grid.wf(),
    ensures
        r == grid.texture_spec(pos),
{
    let m = pos.map();
    if is_in_map(m.x as i64, m.y as i64) {
        let row = &grid.cells[m.y];
        Some(row[m.x])
    } else {
        None
    }
}

/// The wall texture a struck material renders with: every wall kind
/// shares the one wall texture for now.
pub fn map_to_texture(map_object: MapObject) -> (r: TextureID)
    ensures
        r == TextureID::Wall,
{
    match map_object {
        _ => TextureID::Wall,
    }
}

} // verus!
