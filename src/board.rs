use vstd::prelude::*;
use vstd::string::*;

use crate::point::{in_bounds, Point};

verus! {

/// A wall cell of a board.
pub type Wall = Point;

/// What a board is: its name, the side of its square grid, and its wall cells.
pub struct BoardView {
    pub name: Seq<char>,
    pub size: nat,
    pub walls: Seq<Point>,
}

impl BoardView {
    /// The side fits the coordinates of a point, and every wall lies on the grid.
    pub open spec fn wf(self) -> bool {
        &&& self.size <= i16::MAX
        &&& forall|i: int| 0 <= i < self.walls.len() ==> in_bounds(#[trigger] self.walls[i], self.size as int)
    }

    pub open spec fn is_wall(self, p: Point) -> bool {
        self.walls.contains(p)
    }
}

/// Some board among `boards` is called `name`.
pub open spec fn already_named(boards: Seq<BoardView>, name: Seq<char>) -> bool {
    exists|i: int| 0 <= i < boards.len() && (#[trigger] boards[i]).name == name
}

/// `p` with each coordinate brought into `[0, size)` by Euclidean remainder.
pub open spec fn normalize(p: Point, size: int) -> Point {
    Point { x: (p.x as int % size) as i16, y: (p.y as int % size) as i16 }
}

/// The glyph at row `i`, column `j` of the drawing of a board: a frame of
/// box-drawing glyphs around the grid, a block on each wall, blank elsewhere.
/// Cell `(i, j)` inside the frame shows point `(i - 1, j - 1)`.
pub open spec fn board_cell(b: BoardView, i: int, j: int) -> Seq<char> {
    let last = b.size + 1;
    if i == 0 {
        if j == 0 {
            "┌"@
        } else if j == last {
            "┐"@
        } else {
            "─"@
        }
    } else if i == last {
        if j == 0 {
            "└"@
        } else if j == last {
            "┘"@
        } else {
            "─"@
        }
    } else if j == 0 || j == last {
        "│"@
    } else if b.is_wall(Point { x: (i - 1) as i16, y: (j - 1) as i16 }) {
        "█"@
    } else {
        " "@
    }
}

/// The grid holds `n` rows of `n` glyphs each.
pub open spec fn is_square(g: Vec<Vec<String>>, n: int) -> bool {
    &&& g@.len() == n
    &&& forall|i: int| 0 <= i < n ==> (#[trigger] g@[i])@.len() == n
}

/// The glyph at row `i`, column `j` of a grid.
pub open spec fn glyph_at(g: Vec<Vec<String>>, i: int, j: int) -> Seq<char> {
    g@[i]@[j]@
}

/// The message of the error that `add_wall` gives for a point off the grid.
pub open spec fn out_of_range_message() -> Seq<char> {
    "the point out of range"@
}

/// A named square play-field with its walls.
#[derive(Debug)]
pub struct Board {
    name: String,
    table_size: u16,
    walls: Vec<Wall>,
}

impl View for Board {
    type V = BoardView;

    closed spec fn view(&self) -> BoardView {
        BoardView { name: self.name@, size: self.table_size as nat, walls: self.walls@ }
    }
}

impl Board {
    /// A board whose walls are the given points, each wrapped into the grid.
    pub fn new(name: String, table_size: u16, walls: Vec<Wall>) -> (r: Board)
        requires
            table_size <= i16::MAX,
            table_size == 0 ==> walls@.len() == 0,
        ensures
            r@.wf(),
            r@.name == name@,
            r@.size == table_size,
            r@.walls == walls@.map_values(|p: Point| normalize(p, table_size as int)),
    {
        let size = table_size as i16;
        let mut kept: Vec<Wall> = Vec::new();
        let mut i: usize = 0;
        while i < walls.len()
            invariant
                i <= walls@.len(),
                size == table_size as i16,
                0 < table_size <= i16::MAX || walls@.len() == 0,
                kept@ == walls@.take(i as int).map_values(|p: Point| normalize(p, table_size as int)),
                forall|k: int| 0 <= k < kept@.len() ==> in_bounds(#[trigger] kept@[k], table_size as int),
            decreases walls@.len() - i,
        {
            let p = walls[i];
            let x = p.x.checked_rem_euclid(size).unwrap();
            let y = p.y.checked_rem_euclid(size).unwrap();
            kept.push(Point { x, y });
            proof {
                assert(walls@.take(i + 1) == walls@.take(i as int).push(p));
            }
            i += 1;
        }
        proof {
            assert(walls@.take(walls@.len() as int) == walls@);
        }
        Board { name, table_size, walls: kept }
    }

    /// The same grid and walls under another name.
    pub fn copy_with_new_name(&self, name: String) -> (r: Board)
        ensures
            r@ == (BoardView { name: name@, ..self@ }),
    {
        Board { name, table_size: self.table_size, walls: self.copy_walls() }
    }

    fn copy_walls(&self) -> (r: Vec<Wall>)
        ensures
            r@ == self@.walls,
    {
        let mut r: Vec<Wall> = Vec::new();
        let mut i: usize = 0;
        while i < self.walls.len()
            invariant
                i <= self.walls@.len(),
                r@ == self.walls@.take(i as int),
            decreases self.walls@.len() - i,
        {
            r.push(self.walls[i]);
            proof {
                assert(self.walls@.take(i + 1) == self.walls@.take(i as int).push(self.walls@[i as int]));
            }
            i += 1;
        }
        proof {
            assert(self.walls@.take(self.walls@.len() as int) == self.walls@);
        }
        r
    }

    /// The board offered when none has been made: side 10, one wall at `(5, 5)`.
    pub fn default() -> (r: Board)
        ensures
            r@.wf(),
            r@.name == "test board"@,
            r@.size == 10,
            r@.walls == seq![Point { x: 5, y: 5 }],
    {
        let walls: Vec<Wall> = vec![Point { x: 5, y: 5 }];
        Board { name: String::from_str("test board"), table_size: 10, walls }
    }

    pub fn get_size(&self) -> (r: u16)
        ensures
            r == self@.size,
    {
        self.table_size
    }

    pub fn get_name(&self) -> (r: &str)
        ensures
            r@ == self@.name,
    {
        self.name.as_str()
    }

    pub fn get_walls(&self) -> (r: &Vec<Wall>)
        ensures
            r@ == self@.walls,
    {
        &self.walls
    }

    pub fn is_wall(&self, point: &Wall) -> (r: bool)
        ensures
            r == self@.is_wall(*point),
    {
        let mut i: usize = 0;
        while i < self.walls.len()
            invariant
                i <= self.walls@.len(),
                forall|k: int| 0 <= k < i ==> self.walls@[k] != *point,
            decreases self.walls@.len() - i,
        {
            if self.walls[i] == *point {
                return true;
            }
            i += 1;
        }
        false
    }

    /// Makes `point` a wall. A point off the grid is refused and the board is
    /// left as it was; a point that is a wall already is not added twice.
    pub fn add_wall(&mut self, point: Wall) -> (r: Result<(), String>)
        requires
            old(self)@.wf(),
        ensures
            final(self)@.wf(),
            in_bounds(point, old(self)@.size as int) ==> {
                &&& r is Ok
                &&& final(self)@ == (BoardView {
                    walls: if old(self)@.is_wall(point) {
                        old(self)@.walls
                    } else {
                        old(self)@.walls.push(point)
                    },
                    ..old(self)@
                })
            },
            !in_bounds(point, old(self)@.size as int) ==> {
                &&& r matches Err(e) && e@ == out_of_range_message()
                &&& final(self)@ == old(self)@
            },
    {
        let size = self.table_size as i16;
        if 0 <= point.x && point.x < size && 0 <= point.y && point.y < size {
            if !self.is_wall(&point) {
                self.walls.push(point);
            }
            Ok(())
        } else {
            Err(String::from_str("the point out of range"))
        }
    }

    /// Removes every occurrence of `point` from the walls.
    pub fn remove_wall(&mut self, point: &Wall)
        requires
            old(self)@.wf(),
        ensures
            final(self)@.wf(),
            final(self)@.name == old(self)@.name,
            final(self)@.size == old(self)@.size,
            forall|p: Point| #[trigger] final(self)@.is_wall(p) <==> (old(self)@.is_wall(p) && p != *point),
    {
        let mut kept: Vec<Wall> = Vec::new();
        let mut i: usize = 0;
        while i < self.walls.len()
            invariant
                i <= self.walls@.len(),
                self@.wf(),
                forall|k: int| 0 <= k < kept@.len() ==> in_bounds(#[trigger] kept@[k], self@.size as int),
                forall|p: Point| #[trigger] kept@.contains(p) <==> (self.walls@.take(i as int).contains(p) && p != *point),
            decreases self.walls@.len() - i,
        {
            let w = self.walls[i];
            let ghost before = kept@;
            proof {
                assert(self.walls@.take(i + 1) == self.walls@.take(i as int).push(w));
                assert(in_bounds(self@.walls[i as int], self@.size as int));
            }
            if w != *point {
                kept.push(w);
                proof {
                    assert forall|p: Point| #[trigger] kept@.contains(p) <==> (before.contains(p) || p == w) by {
                        if p == w {
                            assert(kept@[before.len() as int] == w);
                        }
                        if before.contains(p) {
                            let k = choose|k: int| 0 <= k < before.len() && before[k] == p;
                            assert(kept@[k] == p);
                        }
                    }
                }
            }
            proof {
                assert forall|p: Point| #[trigger] self.walls@.take(i + 1).contains(p) <==> (self.walls@.take(i as int).contains(p) || p == w) by {
                    if p == w {
                        assert(self.walls@.take(i + 1)[i as int] == w);
                    }
                    if self.walls@.take(i as int).contains(p) {
                        let k = choose|k: int| 0 <= k < i && self.walls@.take(i as int)[k] == p;
                        assert(self.walls@.take(i + 1)[k] == p);
                    }
                }
            }
            i += 1;
        }
        proof {
            assert(self.walls@.take(self.walls@.len() as int) == self.walls@);
        }
        self.walls = kept;
    }

    /// The glyph at row `i`, column `j` of the drawing of this board.
    fn cell_glyph(&self, i: usize, j: usize) -> (r: String)
        requires
            self@.wf(),
            i < self@.size + 2,
            j < self@.size + 2,
        ensures
            r@ == board_cell(self@, i as int, j as int),
    {
        let last = self.table_size as usize + 1;
        if i == 0 {
            if j == 0 {
                String::from_str("┌")
            } else if j == last {
                String::from_str("┐")
            } else {
                String::from_str("─")
            }
        } else if i == last {
            if j == 0 {
                String::from_str("└")
            } else if j == last {
                String::from_str("┘")
            } else {
                String::from_str("─")
            }
        } else if j == 0 || j == last {
            String::from_str("│")
        } else if self.is_wall(&Point { x: (i - 1) as i16, y: (j - 1) as i16 }) {
            String::from_str("█")
        } else {
            String::from_str(" ")
        }
    }

    /// The drawing of this board: `size + 2` rows of `size + 2` glyphs, the
    /// outer ring being the frame.
    pub fn get_table(&self) -> (r: Vec<Vec<String>>)
        requires
            self@.wf(),
        ensures
            is_square(r, self@.size + 2 as int),
            forall|i: int, j: int|
                0 <= i < self@.size + 2 && 0 <= j < self@.size + 2 ==> #[trigger] glyph_at(r, i, j)
                    == board_cell(self@, i, j),
    {
        let len = self.table_size as usize + 2;
        let mut rows: Vec<Vec<String>> = Vec::new();
        let mut i: usize = 0;
        while i < len
            invariant
                self@.wf(),
                len == self@.size + 2,
                i <= len,
                rows@.len() == i,
                forall|a: int| 0 <= a < i ==> (#[trigger] rows@[a])@.len() == len,
                forall|a: int, b: int|
                    0 <= a < i && 0 <= b < len ==> (#[trigger] rows@[a]@[b])@ == board_cell(self@, a, b),
            decreases len - i,
        {
            let mut row: Vec<String> = Vec::new();
            let mut j: usize = 0;
            while j < len
                invariant
                    self@.wf(),
                    len == self@.size + 2,
                    i < len,
                    j <= len,
                    row@.len() == j,
                    forall|b: int| 0 <= b < j ==> (#[trigger] row@[b])@ == board_cell(self@, i as int, b),
                decreases len - j,
            {
                row.push(self.cell_glyph(i, j));
                j += 1;
            }
            let ghost before = rows@;
            rows.push(row);
            proof {
                assert forall|a: int, b: int| 0 <= a <= i && 0 <= b < len implies (#[trigger] rows@[a]@[b])@
                    == board_cell(self@, a, b) by {
                    if a < i {
                        assert(rows@[a] == before[a]);
                    }
                }
            }
            i += 1;
        }
        rows
    }
}

} // verus!
