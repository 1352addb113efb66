use vstd::prelude::*;
use crate::point::{clamp_coord, clamp_to_coord, coord_max, coord_min, Point};

verus! {

/// The largest number of rows, and of cells in a row, that a shape may have:
/// a cell's column and row must be coordinates.
pub const MAX_SHAPE: usize = 32767;

/// The display colour of a cell.
#[derive(Debug, Copy, Clone, PartialEq, Eq, Structural)]
pub enum Color {
    Red,
    Green,
    Yellow,
    Blue,
    Cyan,
    LightRed,
    LightGreen,
    LightBlue,
    LightMagenta,
}

/// The cell showing `symbol` in `color`.
pub open spec fn glyph(symbol: char, color: Color) -> Cell {
    Cell { symbol, color }
}

/// One glyph of a shape; a blank glyph is neither drawn nor hit.
#[derive(Debug, Copy, Clone, PartialEq, Eq, Structural)]
pub struct Cell {
    pub symbol: char,
    pub color: Color,
}

impl Cell {
    pub open spec fn is_solid(self) -> bool {
        self.symbol != ' '
    }

    pub fn new(symbol: char, color: Color) -> (r: Cell)
        ensures
            r.symbol == symbol,
            r.color == color,
    {
        Cell { symbol, color }
    }
}

#[derive(Debug, Copy, Clone, PartialEq, Eq, Structural)]
pub enum Direction {
    Up,
    Down,
    Left,
    Right,
    Still,
}

/// What every entity has: identity, place, facing, hit points and shape.
/// Row 0 of `cells` is the visual top; row `dy` lies `dy` cells below `pos`.
pub struct SpriteState {
    pub hp: u16,
    pub id: u32,
    pub pos: Point,
    pub direction: Direction,
    pub cells: Vec<Vec<Cell>>,
}

impl SpriteState {
    /// The glyph rows of the shape.
    pub open spec fn shape(self) -> Seq<Seq<Cell>> {
        self.cells@.map_values(|row: Vec<Cell>| row@)
    }

    /// The shape has at least one row and fits in `MAX_SHAPE` by `MAX_SHAPE`.
    pub open spec fn shape_ok(self) -> bool {
        &&& 1 <= self.cells@.len() <= MAX_SHAPE
        &&& forall|dy: int| 0 <= dy < self.cells@.len() ==> #[trigger] self.cells@[dy]@.len() <= MAX_SHAPE
    }

    /// Whether the cell at row `dy`, column `dx` exists and is solid.
    pub open spec fn solid_at(self, dy: int, dx: int) -> bool {
        &&& 0 <= dy < self.cells@.len()
        &&& 0 <= dx < self.cells@[dy]@.len()
        &&& self.cells@[dy]@[dx].is_solid()
    }

    /// Whether the footprint holds `p`: the cell at column `p.x - pos.x`,
    /// row `pos.y - p.y` is solid.
    pub open spec fn covers(self, p: Point) -> bool {
        self.solid_at(self.pos.y - p.y, p.x - self.pos.x)
    }

    /// The width of the top row, or 0 for a shape without rows.
    pub open spec fn top_width(self) -> int {
        if self.cells@.len() == 0 { 0 } else { self.cells@[0]@.len() as int }
    }

    /// Where a bullet fired by this entity starts.
    pub open spec fn fire_point_spec(self) -> Point {
        Point {
            x: clamp_coord(self.pos.x + self.top_width() / 2),
            y: if self.direction == Direction::Down {
                clamp_coord(self.pos.y - self.cells@.len())
            } else {
                self.pos.y
            },
        }
    }

    /// Moves the entity by `d`.
    pub fn move_by(&mut self, d: &Point)
        ensures
            final(self).pos == old(self).pos.plus_spec(*d),
            final(self).hp == old(self).hp,
            final(self).id == old(self).id,
            final(self).direction == old(self).direction,
            final(self).cells == old(self).cells,
    {
        self.pos.add_assign(*d);
    }

    /// Whether `p` lies on a solid cell of the shape, placed at `pos`.
    pub fn collides(&self, p: &Point) -> (r: bool)
        ensures
            r == self.covers(*p),
    {
        let ox: i32 = p.x as i32 - self.pos.x as i32;
        let oy: i32 = self.pos.y as i32 - p.y as i32;
        if ox < 0 || oy < 0 {
            return false;
        }
        let dy = oy as usize;
        let dx = ox as usize;
        if dy >= self.cells.len() {
            return false;
        }
        let row = &self.cells[dy];
        if dx >= row.len() {
            return false;
        }
        row[dx].symbol != ' '
    }

    /// Where a bullet fired by this entity starts: the middle of the top row,
    /// and one shape height lower when the entity faces down.
    pub fn fire_point(&self) -> (r: Point)
        ensures
            r == self.fire_point_spec(),
    {
        let width: usize = if self.cells.len() == 0 { 0 } else { self.cells[0].len() };
        let half: i64 = if width / 2 > 65536 { 65536 } else { (width / 2) as i64 };
        let x = clamp_to_coord(self.pos.x as i64 + half);
        let y = match self.direction {
            Direction::Down => {
                let height: i64 = if self.cells.len() > 65536 { 65536 } else { self.cells.len() as i64 };
                clamp_to_coord(self.pos.y as i64 - height)
            },
            _ => self.pos.y,
        };
        Point::new(x, y)
    }

    /// Whether the cell at row `dy`, column `dx` is solid and shows `c`.
    pub open spec fn shows_at(self, c: char, dy: int, dx: int) -> bool {
        self.solid_at(dy, dx) && self.cells@[dy]@[dx].symbol == c
    }

    /// `r` holds the entity-local position of every solid cell that shows
    /// `c`, and nothing else, in row-major order.
    pub open spec fn lists_cells(self, c: char, r: Seq<Point>) -> bool {
        &&& forall|k: int| 0 <= k < r.len() ==> self.shows_at(c, #[trigger] r[k].y as int, r[k].x as int)
        &&& forall|dy: int, dx: int| #[trigger] self.shows_at(c, dy, dx) ==>
                exists|k: int| 0 <= k < r.len() && r[k] == grid_point(dx, dy)
        &&& forall|k: int, l: int| 0 <= k < l < r.len() ==>
                cell_order(#[trigger] r[k]) < cell_order(#[trigger] r[l])
    }

    /// The entity-local position of every solid cell that shows `c`, row by
    /// row and left to right within a row; `y` is the row, `x` the column.
    pub fn find_char_pos(&self, c: char) -> (r: Vec<Point>)
        requires
            self.shape_ok(),
        ensures
            self.lists_cells(c, r@),
    {
        let mut v: Vec<Point> = Vec::new();
        let mut y: usize = 0;
        while y < self.cells.len()
            invariant
                self.shape_ok(),
                y <= self.cells@.len(),
                forall|k: int| 0 <= k < v@.len() ==> self.shows_at(c, #[trigger] v@[k].y as int, v@[k].x as int),
                forall|k: int| 0 <= k < v@.len() ==> 0 <= (#[trigger] v@[k]).x < MAX_SHAPE && 0 <= v@[k].y < y,
                forall|dy: int, dx: int| #[trigger] self.shows_at(c, dy, dx) && dy < y ==>
                    exists|k: int| 0 <= k < v@.len() && v@[k] == grid_point(dx, dy),
                forall|k: int, l: int| 0 <= k < l < v@.len() ==>
                    cell_order(#[trigger] v@[k]) < cell_order(#[trigger] v@[l]),
            decreases self.cells@.len() - y,
        {
            let row = &self.cells[y];
            assert(row@.len() <= MAX_SHAPE);
            let mut x: usize = 0;
            while x < row.len()
                invariant
                    self.shape_ok(),
                    y < self.cells@.len(),
                    row@ == self.cells@[y as int]@,
                    x <= row@.len(),
                    row@.len() <= MAX_SHAPE,
                    forall|k: int| 0 <= k < v@.len() ==> self.shows_at(c, #[trigger] v@[k].y as int, v@[k].x as int),
                    forall|k: int| 0 <= k < v@.len() ==> 0 <= (#[trigger] v@[k]).x < MAX_SHAPE && 0 <= v@[k].y <= y,
                    forall|k: int| 0 <= k < v@.len() && (#[trigger] v@[k]).y == y ==> v@[k].x < x,
                    forall|dy: int, dx: int| #[trigger] self.shows_at(c, dy, dx) && (dy < y || (dy == y && dx < x)) ==>
                        exists|k: int| 0 <= k < v@.len() && v@[k] == grid_point(dx, dy),
                    forall|k: int, l: int| 0 <= k < l < v@.len() ==>
                        cell_order(#[trigger] v@[k]) < cell_order(#[trigger] v@[l]),
                decreases row@.len() - x,
            {
                let cell = row[x];
                if cell.symbol != ' ' && cell.symbol == c {
                    let p = Point::new(x as i16, y as i16);
                    let ghost old_v = v@;
                    v.push(p);
                    assert forall|dy: int, dx: int| #[trigger] self.shows_at(c, dy, dx) && (dy < y || (dy == y && dx < x + 1)) implies
                        exists|k: int| 0 <= k < v@.len() && v@[k] == grid_point(dx, dy) by {
                        if dy == y && dx == x {
                            assert(v@[old_v.len() as int] == grid_point(dx, dy));
                        } else {
                            let k = choose|k: int| 0 <= k < old_v.len() && old_v[k] == grid_point(dx, dy);
                            assert(v@[k] == old_v[k]);
                        }
                    }
                }
                x += 1;
            }
            y += 1;
        }
        v
    }
}

/// The point with coordinates `x` and `y`.
pub open spec fn grid_point(x: int, y: int) -> Point {
    Point { x: x as i16, y: y as i16 }
}

/// The place of a cell position in row-major order.
pub open spec fn cell_order(p: Point) -> int {
    p.y * 65536 + p.x
}

} // verus!

verus! {

/// A point lies on the footprint exactly when some solid cell, placed at its
/// offset from the entity's position, lands on it.
pub proof fn lemma_collides_iff_solid_cell(s: SpriteState, p: Point)
    ensures
        s.covers(p) <==> exists|dy: int, dx: int|
            #[trigger] s.solid_at(dy, dx) && p.x == s.pos.x + dx && p.y == s.pos.y - dy,
{
    if s.covers(p) {
        assert(s.solid_at(s.pos.y - p.y, p.x - s.pos.x));
    }
}

/// Whether the point over cell (`dy`, `dx`) is hit follows that cell's
/// solidity alone: two entities at one place whose shapes differ in that
/// cell's solidity disagree there, and agree where its solidity agrees.
pub proof fn lemma_cell_solidity_decides(s1: SpriteState, s2: SpriteState, dy: int, dx: int)
    requires
        s1.pos == s2.pos,
        0 <= dy < s1.cells@.len(),
        0 <= dx < s1.cells@[dy]@.len(),
        0 <= dy < s2.cells@.len(),
        0 <= dx < s2.cells@[dy]@.len(),
        coord_min() <= s1.pos.x + dx <= coord_max(),
        coord_min() <= s1.pos.y - dy <= coord_max(),
    ensures
        s1.covers(grid_point(s1.pos.x + dx, s1.pos.y - dy)) == s1.cells@[dy]@[dx].is_solid(),
        s2.covers(grid_point(s1.pos.x + dx, s1.pos.y - dy)) == s2.cells@[dy]@[dx].is_solid(),
        s1.cells@[dy]@[dx].is_solid() != s2.cells@[dy]@[dx].is_solid() ==>
            s1.covers(grid_point(s1.pos.x + dx, s1.pos.y - dy)) != s2.covers(grid_point(s1.pos.x + dx, s1.pos.y - dy)),
{
}

} // verus!
