use vstd::prelude::*;

use crate::direction::Direction;

verus! {

/// A cell of the grid: `x` counts rows from the top, `y` columns from the left.
#[derive(PartialEq, Eq, Structural, Debug, Clone, Copy)]
pub struct Point {
    pub x: i16,
    pub y: i16,
}

/// The change of row and column that one move in `d` makes.
pub open spec fn offset(d: Direction) -> (int, int) {
    match d {
        Direction::Up => (-1, 0),
        Direction::Down => (1, 0),
        Direction::Left => (0, -1),
        Direction::Right => (0, 1),
        Direction::Absent => (0, 0),
    }
}

/// The cell one move away from `p` in `d` on a toroidal grid of side `size`:
/// leaving one edge re-enters at the opposite one.
pub open spec fn neighbor(p: Point, d: Direction, size: int) -> Point {
    Point { x: ((p.x + offset(d).0) % size) as i16, y: ((p.y + offset(d).1) % size) as i16 }
}

/// The point lies on a grid of side `size`.
pub open spec fn in_bounds(p: Point, size: int) -> bool {
    0 <= p.x < size && 0 <= p.y < size
}

/// `a` is one move away from `b` in one of the four headings.
pub open spec fn linked(a: Point, b: Point, size: int) -> bool {
    ||| a == neighbor(b, Direction::Up, size)
    ||| a == neighbor(b, Direction::Down, size)
    ||| a == neighbor(b, Direction::Left, size)
    ||| a == neighbor(b, Direction::Right, size)
}

/// The heading in which `b` lies as seen from `a`, when the two share a row or a
/// column. A gap of one cell gives the plain heading; a wider gap is read as the
/// way round the edge of a toroidal grid, and so gives the opposite heading.
/// `Absent` when they share neither or are the same point.
pub open spec fn heading_to(a: Point, b: Point) -> Direction {
    let dx = b.x - a.x;
    let dy = b.y - a.y;
    if dy == 0 && dx != 0 {
        if dx == 1 || dx < -1 {
            Direction::Down
        } else {
            Direction::Up
        }
    } else if dx == 0 && dy != 0 {
        if dy == 1 || dy < -1 {
            Direction::Right
        } else {
            Direction::Left
        }
    } else {
        Direction::Absent
    }
}

impl Point {
    pub fn new(x: i16, y: i16) -> (r: Point)
        ensures
            r.x == x && r.y == y,
    {
        Point { x, y }
    }

    pub fn get_x(&self) -> (r: i16)
        ensures
            r == self.x,
    {
        self.x
    }

    pub fn get_y(&self) -> (r: i16)
        ensures
            r == self.y,
    {
        self.y
    }

    /// The cell one move away in `direction`, wrapped into a grid of side `table_size`.
    pub fn get_neighbor(&self, direction: &Direction, table_size: u16) -> (r: Point)
        requires
            0 < table_size <= i16::MAX,
        ensures
            r == neighbor(*self, *direction, table_size as int),
            in_bounds(r, table_size as int),
    {
        let (dx, dy): (i32, i32) = match direction {
            Direction::Up => (-1, 0),
            Direction::Down => (1, 0),
            Direction::Left => (0, -1),
            Direction::Right => (0, 1),
            Direction::Absent => (0, 0),
        };
        let size = table_size as i32;
        let nx = (self.x as i32 + dx).checked_rem_euclid(size).unwrap();
        let ny = (self.y as i32 + dy).checked_rem_euclid(size).unwrap();
        Point { x: nx as i16, y: ny as i16 }
    }

    /// The heading in which `other` lies as seen from this point (see `heading_to`).
    pub fn direction_of_neighbor(&self, other: &Point) -> (r: Direction)
        ensures
            r == heading_to(*self, *other),
    {
        let dx: i32 = other.x as i32 - self.x as i32;
        let dy: i32 = other.y as i32 - self.y as i32;
        if dy == 0 && dx != 0 {
            if dx == 1 || dx < -1 {
                Direction::Down
            } else {
                Direction::Up
            }
        } else if dx == 0 && dy != 0 {
            if dy == 1 || dy < -1 {
                Direction::Right
            } else {
                Direction::Left
            }
        } else {
            Direction::Absent
        }
    }
}

} // verus!
