use vstd::prelude::*;

verus! {

/// A heading on the grid. `Absent` marks the open end of the snake when drawing
/// it; it is never the heading of a game.
#[derive(PartialEq, Eq, Structural, Debug, Clone, Copy)]
pub enum Direction {
    Up,
    Down,
    Left,
    Right,
    Absent,
}

/// The four pairs of opposite headings.
pub open spec fn opposite(a: Direction, b: Direction) -> bool {
    ||| (a == Direction::Up && b == Direction::Down)
    ||| (a == Direction::Down && b == Direction::Up)
    ||| (a == Direction::Left && b == Direction::Right)
    ||| (a == Direction::Right && b == Direction::Left)
}

impl Direction {
    pub fn is_opposite(&self, other: &Direction) -> (r: bool)
        ensures
            r == opposite(*self, *other),
    {
        match (self, other) {
            (Direction::Up, Direction::Down) => true,
            (Direction::Down, Direction::Up) => true,
            (Direction::Left, Direction::Right) => true,
            (Direction::Right, Direction::Left) => true,
            _ => false,
        }
    }
}

} // verus!
