use vstd::prelude::*;

verus! {

/// The least value a coordinate can hold.
pub open spec fn coord_min() -> int {
    i16::MIN as int
}

/// The largest value a coordinate can hold.
pub open spec fn coord_max() -> int {
    i16::MAX as int
}

/// `v` held to the range of a coordinate.
pub open spec fn clamp_coord(v: int) -> i16 {
    if v < coord_min() {
        i16::MIN
    } else if v > coord_max() {
        i16::MAX
    } else {
        v as i16
    }
}

/// Clamps a wide integer to the range of a coordinate.
pub fn clamp_to_coord(v: i64) -> (r: i16)
    ensures
        r == clamp_coord(v as int),
{
    if v < i16::MIN as i64 {
        i16::MIN
    } else if v > i16::MAX as i64 {
        i16::MAX
    } else {
        v as i16
    }
}

/// A point of the playfield grid.
#[derive(Debug, Copy, Clone, PartialEq, Eq, Structural)]
pub struct Point {
    pub x: i16,
    pub y: i16,
}

impl Point {
    pub open spec fn new_spec(x: i16, y: i16) -> Point {
        Point { x, y }
    }

    pub fn new(x: i16, y: i16) -> (r: Point)
        ensures
            r == Point::new_spec(x, y),
    {
        Point { x, y }
    }

    /// The sum of two points, each coordinate held to its range.
    pub open spec fn plus_spec(self, o: Point) -> Point {
        Point { x: clamp_coord(self.x + o.x), y: clamp_coord(self.y + o.y) }
    }

    /// The difference of two points, each coordinate held to its range.
    pub open spec fn minus_spec(self, o: Point) -> Point {
        Point { x: clamp_coord(self.x - o.x), y: clamp_coord(self.y - o.y) }
    }

    pub fn plus(self, o: Point) -> (r: Point)
        ensures
            r == self.plus_spec(o),
            coord_min() <= self.x + o.x <= coord_max() ==> r.x == self.x + o.x,
            coord_min() <= self.y + o.y <= coord_max() ==> r.y == self.y + o.y,
    {
        Point {
            x: clamp_to_coord(self.x as i64 + o.x as i64),
            y: clamp_to_coord(self.y as i64 + o.y as i64),
        }
    }

    pub fn minus(self, o: Point) -> (r: Point)
        ensures
            r == self.minus_spec(o),
            coord_min() <= self.x - o.x <= coord_max() ==> r.x == self.x - o.x,
            coord_min() <= self.y - o.y <= coord_max() ==> r.y == self.y - o.y,
    {
        Point {
            x: clamp_to_coord(self.x as i64 - o.x as i64),
            y: clamp_to_coord(self.y as i64 - o.y as i64),
        }
    }

    /// Moves this point by `o`.
    pub fn add_assign(&mut self, o: Point)
        ensures
            *final(self) == old(self).plus_spec(o),
    {
        *self = self.plus(o);
    }
}

} // verus!
