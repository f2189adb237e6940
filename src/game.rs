use vstd::prelude::*;
use vstd::string::*;

use rand::Rng;
use std::collections::VecDeque;

use crate::board::{board_cell, glyph_at, is_square, Board, BoardView};
use crate::direction::{opposite, Direction};
use crate::point::{heading_to, in_bounds, linked, neighbor, Point};

verus! {

/// Why a game could not be set up.
#[derive(PartialEq, Eq, Structural, Debug, Clone, Copy)]
pub enum GameError {
    /// The snake is empty, or longer than the side of the board less two.
    InvalidSize,
    /// No cell is left for the food.
    NoFreeCell,
}

/// What a game is: its board, the snake from head to tail, the heading of the
/// next move, the food (none once no cell is left for it), the score, and
/// whether the game has ended.
pub struct GameView {
    pub board: BoardView,
    pub body: Seq<Point>,
    pub heading: Direction,
    pub food: Option<Point>,
    pub score: nat,
    pub over: bool,
}

/// `p` is on the grid, and is neither a wall nor a cell of the body.
pub open spec fn is_free(board: BoardView, body: Seq<Point>, p: Point) -> bool {
    &&& in_bounds(p, board.size as int)
    &&& !board.is_wall(p)
    &&& !body.contains(p)
}

/// Some cell of the board is free.
pub open spec fn has_free_cell(board: BoardView, body: Seq<Point>) -> bool {
    exists|p: Point| is_free(board, body, p)
}

/// A snake's cells lie on the grid, are pairwise distinct, and each is one
/// move away from the one behind it.
pub open spec fn body_ok(body: Seq<Point>, size: int) -> bool {
    &&& body.no_duplicates()
    &&& forall|i: int| 0 <= i < body.len() ==> in_bounds(#[trigger] body[i], size)
    &&& forall|i: int| 0 <= i < body.len() - 1 ==> linked(#[trigger] body[i], body[i + 1], size)
}

/// The snake a game starts with: `length` cells in the middle row, the head in
/// the middle column (right of it when the length is even) and the tail to its
/// left. With `half = (size - 1) / 2`, cell `i` is `(half, half + (length - 1) / 2 - i)`.
pub open spec fn initial_body(size: int, length: int) -> Seq<Point> {
    let half = (size - 1) / 2;
    let top = (length - 1) / 2;
    Seq::new(length as nat, |i: int| Point { x: half as i16, y: (half + top - i) as i16 })
}

/// The board can hold a starting snake of this length: it is not empty, and
/// leaves at least two cells of its row free.
pub open spec fn fits(size: int, length: int) -> bool {
    1 <= length && length + 2 <= size
}

impl GameView {
    pub open spec fn size(self) -> int {
        self.board.size as int
    }

    /// What holds of every game: the heading is one of the four; the snake's
    /// cells are distinct, on the grid, and each one move from the next; a game
    /// in progress has a snake and food; and the food, while there is any, is
    /// on a free cell, neither a wall nor under the snake.
    pub open spec fn wf(self) -> bool {
        &&& self.board.wf()
        &&& self.size() > 0
        &&& self.heading != Direction::Absent
        &&& body_ok(self.body, self.size())
        &&& self.score <= u16::MAX
        &&& !self.over ==> self.body.len() >= 1 && self.food is Some
        &&& self.food matches Some(f) ==> is_free(self.board, self.body, f)
    }

    /// The cell that the head moves into on the next step.
    pub open spec fn next_head(self) -> Point {
        neighbor(self.body[0], self.heading, self.size())
    }

    /// Moving into `p` ends the game: it is a wall, or a cell of the body other
    /// than the tail, which moves away in the same step.
    pub open spec fn collides(self, p: Point) -> bool {
        self.board.is_wall(p) || self.body.drop_last().contains(p)
    }
}

/// The score after one more food, held at the largest `u16`.
pub open spec fn next_score(score: nat) -> nat {
    if score < u16::MAX {
        score + 1
    } else {
        score
    }
}

proof fn lemma_prepend_contains(h: Point, rest: Seq<Point>, p: Point)
    ensures
        (seq![h] + rest).contains(p) <==> (p == h || rest.contains(p)),
{
    let s = seq![h] + rest;
    if p == h {
        assert(s[0] == h);
    }
    if rest.contains(p) {
        let k = choose|k: int| 0 <= k < rest.len() && rest[k] == p;
        assert(s[k + 1] == p);
    }
    if s.contains(p) {
        let k = choose|k: int| 0 <= k < s.len() && s[k] == p;
        if k > 0 {
            assert(rest[k - 1] == p);
        }
    }
}

proof fn lemma_drop_last_contains(s: Seq<Point>, p: Point)
    requires
        s.len() >= 1,
        s.drop_last().contains(p),
    ensures
        s.contains(p),
{
    let k = choose|k: int| 0 <= k < s.drop_last().len() && s.drop_last()[k] == p;
    assert(s[k] == p);
}

/// Putting a new head in front of a snake that is sound keeps it sound.
proof fn lemma_prepend_body_ok(h: Point, d: Direction, rest: Seq<Point>, size: int)
    requires
        size > 0,
        body_ok(rest, size),
        rest.len() >= 1,
        d != Direction::Absent,
        h == neighbor(rest[0], d, size),
        in_bounds(h, size),
        !rest.contains(h),
    ensures
        body_ok(seq![h] + rest, size),
{
    let s = seq![h] + rest;
    assert forall|i: int, j: int| 0 <= i < s.len() && 0 <= j < s.len() && i != j implies s[i] != s[j] by {
        if i == 0 {
            assert(rest[j - 1] == s[j]);
        } else if j == 0 {
            assert(rest[i - 1] == s[i]);
        } else {
            assert(s[i] == rest[i - 1] && s[j] == rest[j - 1]);
        }
    }
    assert forall|i: int| 0 <= i < s.len() implies in_bounds(#[trigger] s[i], size) by {
        if i > 0 {
            assert(s[i] == rest[i - 1]);
        }
    }
    assert forall|i: int| 0 <= i < s.len() - 1 implies linked(#[trigger] s[i], s[i + 1], size) by {
        if i > 0 {
            assert(s[i] == rest[i - 1] && s[i + 1] == rest[i]);
        }
    }
}

/// Dropping the tail of a sound snake keeps it sound.
proof fn lemma_drop_last_body_ok(s: Seq<Point>, size: int)
    requires
        body_ok(s, size),
        s.len() >= 1,
    ensures
        body_ok(s.drop_last(), size),
{
    let t = s.drop_last();
    assert forall|i: int, j: int| 0 <= i < t.len() && 0 <= j < t.len() && i != j implies t[i] != t[j] by {
        assert(t[i] == s[i] && t[j] == s[j]);
    }
    assert forall|i: int| 0 <= i < t.len() implies in_bounds(#[trigger] t[i], size) by {
        assert(t[i] == s[i]);
    }
    assert forall|i: int| 0 <= i < t.len() - 1 implies linked(#[trigger] t[i], t[i + 1], size) by {
        assert(t[i] == s[i] && t[i + 1] == s[i + 1]);
    }
}

/// The starting snake of a length that fits is sound.
proof fn lemma_initial_body_ok(size: int, length: int)
    requires
        fits(size, length),
        size <= i16::MAX,
    ensures
        body_ok(initial_body(size, length), size),
{
    let s = initial_body(size, length);
    let half = (size - 1) / 2;
    let top = (length - 1) / 2;
    assert(0 <= half - (length - 1 - top)) by (nonlinear_arith)
        requires
            half == (size - 1) / 2,
            top == (length - 1) / 2,
            1 <= length,
            length + 2 <= size,
    ;
    assert(half + top < size) by (nonlinear_arith)
        requires
            half == (size - 1) / 2,
            top == (length - 1) / 2,
            1 <= length,
            length + 2 <= size,
    ;
    assert forall|i: int| 0 <= i < s.len() implies in_bounds(#[trigger] s[i], size) by {
    }
    assert forall|i: int, j: int| 0 <= i < s.len() && 0 <= j < s.len() && i != j implies s[i] != s[j] by {
    }
    assert forall|i: int| 0 <= i < s.len() - 1 implies linked(#[trigger] s[i], s[i + 1], size) by {
        let n = neighbor(s[i + 1], Direction::Right, size);
        vstd::arithmetic::div_mod::lemma_small_mod(half as nat, size as nat);
        vstd::arithmetic::div_mod::lemma_small_mod((half + top - i) as nat, size as nat);
        assert(n == s[i]);
    }
}

/// The glyph of a snake cell whose neighbours in the snake lie in headings `a`
/// and `b` (`Absent` at an open end): a corner for a turn, a bar otherwise.
/// A lone cell is drawn as a horizontal bar.
pub open spec fn glyph(a: Direction, b: Direction) -> Seq<char> {
    let turn = |p: Direction, q: Direction| (a == p && b == q) || (a == q && b == p);
    let upright = |d: Direction| d == Direction::Up || d == Direction::Down || d == Direction::Absent;
    if turn(Direction::Down, Direction::Right) {
        " ┌"@
    } else if turn(Direction::Down, Direction::Left) {
        "─┐"@
    } else if turn(Direction::Up, Direction::Right) {
        " └"@
    } else if turn(Direction::Up, Direction::Left) {
        "─┘"@
    } else if upright(a) && upright(b) && !(a == Direction::Absent && b == Direction::Absent) {
        " │"@
    } else {
        "──"@
    }
}

/// The glyph of cell `k` of a snake: its neighbours are the cell before it
/// (towards the head) and the cell after it (towards the tail).
pub open spec fn segment_glyph(body: Seq<Point>, k: int) -> Seq<char> {
    let before = if k == 0 {
        Direction::Absent
    } else {
        heading_to(body[k], body[k - 1])
    };
    let after = if k == body.len() - 1 {
        Direction::Absent
    } else {
        heading_to(body[k], body[k + 1])
    };
    glyph(before, after)
}

/// The glyph of the food.
pub open spec fn food_glyph() -> Seq<char> {
    " ●"@
}

/// Cell `(i, j)` of a drawing shows point `p`.
pub open spec fn shows(p: Point, i: int, j: int) -> bool {
    p.x + 1 == i && p.y + 1 == j
}

/// The glyph at row `i`, column `j` of the drawing of a game, where no cell of
/// the snake is: the food, or else the board.
pub open spec fn backdrop(g: GameView, i: int, j: int) -> Seq<char> {
    if g.food matches Some(f) && shows(f, i, j) {
        food_glyph()
    } else {
        board_cell(g.board, i, j)
    }
}

/// How one tick takes game `g` to game `h`, returning `r` (see `Game::walk`).
pub open spec fn step_result(g: GameView, h: GameView, r: bool) -> bool {
    let head = g.next_head();
    if g.over {
        !r && h == g
    } else if g.collides(head) {
        !r && h == (GameView { body: g.body.drop_last(), over: true, ..g })
    } else if g.food == Some(head) {
        &&& h.body == seq![head] + g.body
        &&& h.score == next_score(g.score)
        &&& h.board == g.board
        &&& h.heading == g.heading
        &&& r
        &&& h.food is None <==> h.over
        &&& h.over ==> !has_free_cell(h.board, h.body)
    } else {
        r && h == (GameView { body: seq![head] + g.body.drop_last(), ..g })
    }
}

/// A tick that eats the food lengthens the snake by one cell and adds one to
/// the score (while the score is below the largest `u16`, where it stays); any
/// other tick that goes on keeps the length.
pub proof fn lemma_growth(g: GameView, h: GameView, r: bool)
    requires
        g.wf(),
        step_result(g, h, r),
        r,
    ensures
        g.food == Some(g.next_head()) ==> h.body.len() == g.body.len() + 1,
        g.food == Some(g.next_head()) && g.score < u16::MAX ==> h.score == g.score + 1,
        g.food != Some(g.next_head()) ==> h.body.len() == g.body.len() && h.score == g.score,
{
}

/// A tick that returns false leaves the game ended, and from then on every
/// tick returns false and changes nothing.
pub proof fn lemma_terminal(g: GameView, h: GameView, h2: GameView, r2: bool)
    requires
        g.wf(),
        step_result(g, h, false),
        step_result(h, h2, r2),
    ensures
        h.over,
        !r2,
        h2 == h,
{
}

/// `r` is the drawing of game `g`: the board's drawing, with the food and then
/// the snake drawn over it.
pub open spec fn is_drawing(g: GameView, r: Vec<Vec<String>>) -> bool {
    &&& is_square(r, g.size() + 2)
    &&& forall|k: int|
        0 <= k < g.body.len() ==> glyph_at(r, g.body[k].x + 1, g.body[k].y + 1) == #[trigger] segment_glyph(
            g.body,
            k,
        )
    &&& forall|i: int, j: int|
        0 <= i < g.size() + 2 && 0 <= j < g.size() + 2 && (forall|k: int|
            0 <= k < g.body.len() ==> !shows(#[trigger] g.body[k], i, j)) ==> #[trigger] glyph_at(r, i, j)
            == backdrop(g, i, j)
}

/// No glyph of the board or of the snake is the food's.
proof fn lemma_food_glyph_is_unique(a: Direction, b: Direction, board: BoardView, i: int, j: int)
    ensures
        glyph(a, b) != food_glyph(),
        board_cell(board, i, j) != food_glyph(),
{
    reveal_strlit(" ●");
    reveal_strlit(" ┌");
    reveal_strlit("─┐");
    reveal_strlit(" └");
    reveal_strlit("─┘");
    reveal_strlit(" │");
    reveal_strlit("──");
    reveal_strlit("┌");
    reveal_strlit("┐");
    reveal_strlit("─");
    reveal_strlit("└");
    reveal_strlit("┘");
    reveal_strlit("│");
    reveal_strlit("█");
    reveal_strlit(" ");
    assert(glyph(a, b)[1] != food_glyph()[1]);
    assert(board_cell(board, i, j).len() != food_glyph().len());
}

/// In the drawing of a game, the food's glyph stands on the food's cell, and
/// on no other cell.
pub proof fn lemma_food_drawn_once(g: GameView, r: Vec<Vec<String>>)
    requires
        g.wf(),
        is_drawing(g, r),
    ensures
        forall|i: int, j: int|
            0 <= i < g.size() + 2 && 0 <= j < g.size() + 2 ==> (#[trigger] glyph_at(r, i, j) == food_glyph() <==> (
            g.food matches Some(f) && shows(f, i, j))),
{
    assert forall|i: int, j: int| 0 <= i < g.size() + 2 && 0 <= j < g.size() + 2 implies (#[trigger] glyph_at(
        r,
        i,
        j,
    ) == food_glyph() <==> (g.food matches Some(f) && shows(f, i, j))) by {
        if exists|k: int| 0 <= k < g.body.len() && shows(#[trigger] g.body[k], i, j) {
            let k = choose|k: int| 0 <= k < g.body.len() && shows(#[trigger] g.body[k], i, j);
            let before = if k == 0 {
                Direction::Absent
            } else {
                heading_to(g.body[k], g.body[k - 1])
            };
            let after = if k == g.body.len() - 1 {
                Direction::Absent
            } else {
                heading_to(g.body[k], g.body[k + 1])
            };
            lemma_food_glyph_is_unique(before, after, g.board, i, j);
            assert(glyph_at(r, g.body[k].x + 1, g.body[k].y + 1) == segment_glyph(g.body, k));
            if let Some(f) = g.food {
                if shows(f, i, j) {
                    assert(f == g.body[k]);
                    assert(g.body.contains(f));
                }
            }
        } else {
            lemma_food_glyph_is_unique(Direction::Absent, Direction::Absent, g.board, i, j);
        }
    }
}

/// Relies on rand::thread_rng and rand::Rng::gen_range: a number drawn from
/// `0..bound`. gen_range panics on an empty range, hence the bound.
#[verifier::external_body]
fn random_below(bound: usize) -> (r: usize)
    requires
        0 < bound,
    ensures
        0 <= r < bound,
{
    rand::thread_rng().gen_range(0..bound)
}

/// The state of one game of snake on a board.
pub struct Game {
    board: Board,
    snake: VecDeque<Point>,
    food: Option<Point>,
    score: u16,
    direction: Direction,
    over: bool,
}

impl View for Game {
    type V = GameView;

    closed spec fn view(&self) -> GameView {
        GameView {
            board: self.board@,
            body: self.snake@,
            heading: self.direction,
            food: self.food,
            score: self.score as nat,
            over: self.over,
        }
    }
}

impl Game {
    /// The snake a game starts with (see `initial_body`), head first.
    pub fn create_snake(table_size: u16, length: u16) -> (r: VecDeque<Point>)
        requires
            1 <= table_size <= i16::MAX,
            length <= i16::MAX,
        ensures
            r@ == initial_body(table_size as int, length as int),
    {
        let half: i32 = ((table_size - 1) / 2) as i32;
        let top: i32 = if length == 0 {
            0
        } else {
            ((length - 1) / 2) as i32
        };
        let mut snake: VecDeque<Point> = VecDeque::new();
        let mut i: u16 = 0;
        while i < length
            invariant
                i <= length <= i16::MAX,
                1 <= table_size <= i16::MAX,
                half == (table_size - 1) / 2,
                length >= 1 ==> top == (length - 1) / 2,
                snake@ == initial_body(table_size as int, length as int).take(i as int),
            decreases length - i,
        {
            let y: i32 = half + top - i as i32;
            snake.push_back(Point { x: half as i16, y: y as i16 });
            proof {
                assert(snake@ == initial_body(table_size as int, length as int).take(i + 1));
            }
            i += 1;
        }
        proof {
            assert(snake@ == initial_body(table_size as int, length as int));
        }
        snake
    }

    fn is_snake(snake: &VecDeque<Point>, point: &Point) -> (r: bool)
        ensures
            r == snake@.contains(*point),
    {
        let mut i: usize = 0;
        while i < snake.len()
            invariant
                i <= snake@.len(),
                forall|k: int| 0 <= k < i ==> snake@[k] != *point,
            decreases snake@.len() - i,
        {
            if snake[i] == *point {
                return true;
            }
            i += 1;
        }
        false
    }

    fn is_free_cell(snake: &VecDeque<Point>, board: &Board, point: &Point) -> (r: bool)
        ensures
            r == is_free(board@, snake@, *point),
    {
        let size = board.get_size() as i32;
        0 <= point.x && (point.x as i32) < size && 0 <= point.y && (point.y as i32) < size
            && !board.is_wall(point) && !Self::is_snake(snake, point)
    }

    /// Every free cell of the board, each once, in row-major order.
    fn free_cells(snake: &VecDeque<Point>, board: &Board) -> (r: Vec<Point>)
        requires
            board@.wf(),
        ensures
            forall|p: Point| #[trigger] r@.contains(p) <==> is_free(board@, snake@, p),
    {
        let size = board.get_size() as i16;
        let mut cells: Vec<Point> = Vec::new();
        let mut x: i16 = 0;
        while x < size
            invariant
                board@.wf(),
                size == board@.size,
                0 <= x <= size,
                forall|k: int| 0 <= k < cells@.len() ==> is_free(board@, snake@, #[trigger] cells@[k]),
                forall|p: Point| p.x < x && is_free(board@, snake@, p) ==> #[trigger] cells@.contains(p),
            decreases size - x,
        {
            let mut y: i16 = 0;
            while y < size
                invariant
                    board@.wf(),
                    size == board@.size,
                    0 <= x < size,
                    0 <= y <= size,
                    forall|k: int| 0 <= k < cells@.len() ==> is_free(board@, snake@, #[trigger] cells@[k]),
                    forall|p: Point|
                        (p.x < x || (p.x == x && p.y < y)) && is_free(board@, snake@, p) ==> #[trigger] cells@.contains(p),
                decreases size - y,
            {
                let p = Point { x, y };
                let ghost before = cells@;
                if Self::is_free_cell(snake, board, &p) {
                    cells.push(p);
                    proof {
                        assert forall|q: Point| #[trigger] before.contains(q) implies cells@.contains(q) by {
                            let k = choose|k: int| 0 <= k < before.len() && before[k] == q;
                            assert(cells@[k] == q);
                        }
                        assert(cells@[before.len() as int] == p);
                    }
                }
                proof {
                    assert forall|q: Point|
                        (q.x < x || (q.x == x && q.y < y + 1)) && is_free(board@, snake@, q) implies #[trigger] cells@.contains(
                        q,
                    ) by {
                        if q != p {
                            assert(before.contains(q));
                            let k = choose|k: int| 0 <= k < before.len() && before[k] == q;
                            assert(cells@[k] == q);
                        } else {
                            assert(cells@[before.len() as int] == p);
                        }
                    }
                }
                y += 1;
            }
            x += 1;
        }
        proof {
            assert forall|p: Point| #[trigger] cells@.contains(p) implies is_free(board@, snake@, p) by {
                let k = choose|k: int| 0 <= k < cells@.len() && cells@[k] == p;
            }
        }
        cells
    }

    /// A cell for the food that is neither a wall nor under the snake, drawn at
    /// random until a free one comes up, with as many draws as the board has
    /// cells; after that, one drawn at random from the list of the free cells.
    /// None when no cell is free.
    fn find_lunch_point(snake: &VecDeque<Point>, board: &Board) -> (r: Option<Point>)
        requires
            board@.wf(),
            board@.size > 0,
        ensures
            r matches Some(p) ==> is_free(board@, snake@, p),
            r is None ==> !has_free_cell(board@, snake@),
    {
        let size = board.get_size();
        assert((size as u32) * (size as u32) <= 32767 * 32767) by (nonlinear_arith)
            requires
                size <= 32767,
        ;
        let cells: u32 = size as u32 * size as u32;
        let mut draws: u32 = 0;
        while draws < cells
            invariant
                board@.wf(),
                size == board@.size,
                0 < size <= i16::MAX,
            decreases cells - draws,
        {
            let candidate = Point {
                x: random_below(size as usize) as i16,
                y: random_below(size as usize) as i16,
            };
            if Self::is_free_cell(snake, board, &candidate) {
                return Some(candidate);
            }
            draws += 1;
        }
        let free = Self::free_cells(snake, board);
        if free.len() == 0 {
            proof {
                assert forall|p: Point| !is_free(board@, snake@, p) by {
                    if is_free(board@, snake@, p) {
                        assert(free@.contains(p));
                    }
                }
            }
            None
        } else {
            let pick = free[random_below(free.len())];
            proof {
                assert(free@.contains(pick));
            }
            Some(pick)
        }
    }

    /// A game on a copy of `board`: the starting snake of `length` cells heading
    /// right, food on a free cell, score 0.
    pub fn new(board: &Board, length: u16) -> (r: Result<Game, GameError>)
        requires
            board@.wf(),
        ensures
            r == Err::<Game, GameError>(GameError::InvalidSize) <==> !fits(board@.size as int, length as int),
            r == Err::<Game, GameError>(GameError::NoFreeCell) <==> fits(board@.size as int, length as int)
                && !has_free_cell(board@, initial_body(board@.size as int, length as int)),
            r matches Ok(g) ==> {
                &&& g@.wf()
                &&& g@.board == board@
                &&& g@.body == initial_body(board@.size as int, length as int)
                &&& g@.heading == Direction::Right
                &&& g@.score == 0
                &&& !g@.over
            },
    {
        let size = board.get_size();
        if length == 0 || length as u32 + 2 > size as u32 {
            return Err(GameError::InvalidSize);
        }
        let snake = Self::create_snake(size, length);
        proof {
            lemma_initial_body_ok(size as int, length as int);
        }
        let food = Self::find_lunch_point(&snake, board);
        match food {
            Some(_) => {
                let copy = board.copy_with_new_name(String::from_str(board.get_name()));
                Ok(Game { board: copy, snake, food, score: 0, direction: Direction::Right, over: false })
            },
            None => Err(GameError::NoFreeCell),
        }
    }
    /// Turns the snake towards `direction`, unless that is the reverse of its
    /// heading (which would run the head into its neck) or `Absent`: those are
    /// ignored.
    pub fn rotation(&mut self, direction: Direction)
        requires
            old(self)@.wf(),
        ensures
            final(self)@.wf(),
            final(self)@ == (GameView {
                heading: if direction != Direction::Absent && !opposite(old(self)@.heading, direction) {
                    direction
                } else {
                    old(self)@.heading
                },
                ..old(self)@
            }),
    {
        if direction != Direction::Absent && !self.direction.is_opposite(&direction) {
            self.direction = direction;
        }
    }

    pub fn get_score(&self) -> (r: u16)
        ensures
            r == self@.score,
    {
        self.score
    }

    /// One tick. The head moves one cell along the heading, wrapping round the
    /// edges of the grid. Moving into a wall or into the body (its tail aside,
    /// which moves on in the same tick) ends the game: the tail is dropped and
    /// false returned. Moving onto the food grows the snake by that cell, adds
    /// one to the score, puts new food on a free cell and returns true; when no
    /// cell is left for the food the game ends there, and the next tick returns
    /// false. Otherwise the snake moves on.
    /// An ended game stays as it is and returns false.
    pub fn walk(&mut self) -> (r: bool)
        requires
            old(self)@.wf(),
        ensures
            final(self)@.wf(),
            step_result(old(self)@, final(self)@, r),
    {
        if self.over {
            return false;
        }
        let ghost g = self@;
        let size = self.board.get_size();
        let new_head = self.snake[0].get_neighbor(&self.direction, size);
        if self.board.is_wall(&new_head) || Self::is_snake_before_tail(&self.snake, &new_head) {
            self.snake.pop_back();
            self.over = true;
            proof {
                lemma_drop_last_body_ok(g.body, g.size());
                if let Some(f) = g.food {
                    if g.body.drop_last().contains(f) {
                        lemma_drop_last_contains(g.body, f);
                    }
                }
            }
            return false;
        }
        let eats = match self.food {
            Some(f) => f == new_head,
            None => false,
        };
        if eats {
            proof {
                lemma_prepend_body_ok(new_head, g.heading, g.body, g.size());
            }
            self.snake.push_front(new_head);
            if self.score < u16::MAX {
                self.score = self.score + 1;
            }
            self.food = Self::find_lunch_point(&self.snake, &self.board);
            if self.food.is_none() {
                self.over = true;
            }
            return true;
        }
        proof {
            lemma_drop_last_body_ok(g.body, g.size());
            if g.body.len() > 1 {
                lemma_prepend_body_ok(new_head, g.heading, g.body.drop_last(), g.size());
            } else {
                assert(body_ok(seq![new_head], g.size())) by {
                    assert(seq![new_head][0] == new_head);
                }
            }
            let f = g.food->Some_0;
            lemma_prepend_contains(new_head, g.body.drop_last(), f);
            if g.body.drop_last().contains(f) {
                lemma_drop_last_contains(g.body, f);
            }
        }
        self.snake.push_front(new_head);
        self.snake.pop_back();
        proof {
            assert(self.snake@ =~= seq![new_head] + g.body.drop_last());
        }
        true
    }

    /// Whether `point` is a cell of the snake other than its tail.
    fn is_snake_before_tail(snake: &VecDeque<Point>, point: &Point) -> (r: bool)
        requires
            snake@.len() >= 1,
        ensures
            r == snake@.drop_last().contains(*point),
    {
        let mut i: usize = 0;
        while i < snake.len() - 1
            invariant
                snake@.len() >= 1,
                i < snake@.len(),
                forall|k: int| 0 <= k < i ==> snake@[k] != *point,
            decreases snake@.len() - i,
        {
            if snake[i] == *point {
                assert(snake@.drop_last()[i as int] == *point);
                return true;
            }
            i += 1;
        }
        proof {
            if snake@.drop_last().contains(*point) {
                let k = choose|k: int| 0 <= k < snake@.drop_last().len() && snake@.drop_last()[k] == *point;
                assert(snake@[k] == *point);
            }
        }
        false
    }

    /// The snake's cells, head first.
    pub fn get_body(&self) -> (r: Vec<Point>)
        ensures
            r@ == self@.body,
    {
        let mut r: Vec<Point> = Vec::new();
        let mut i: usize = 0;
        while i < self.snake.len()
            invariant
                i <= self.snake@.len(),
                r@ == self.snake@.take(i as int),
            decreases self.snake@.len() - i,
        {
            r.push(self.snake[i]);
            proof {
                assert(self.snake@.take(i + 1) == self.snake@.take(i as int).push(self.snake@[i as int]));
            }
            i += 1;
        }
        proof {
            assert(self.snake@.take(self.snake@.len() as int) == self.snake@);
        }
        r
    }

    pub fn get_heading(&self) -> (r: Direction)
        ensures
            r == self@.heading,
    {
        self.direction
    }

    pub fn get_food(&self) -> (r: Option<Point>)
        ensures
            r == self@.food,
    {
        self.food
    }

    pub fn is_over(&self) -> (r: bool)
        ensures
            r == self@.over,
    {
        self.over
    }

    pub fn get_board(&self) -> (r: &Board)
        ensures
            r@ == self@.board,
    {
        &self.board
    }

    /// Puts the food on `food` when that cell is free; otherwise changes nothing.
    pub fn set_food(&mut self, food: Point) -> (r: bool)
        requires
            old(self)@.wf(),
        ensures
            final(self)@.wf(),
            r == is_free(old(self)@.board, old(self)@.body, food),
            r ==> final(self)@ == (GameView { food: Some(food), ..old(self)@ }),
            !r ==> final(self)@ == old(self)@,
    {
        if Self::is_free_cell(&self.snake, &self.board, &food) {
            self.food = Some(food);
            true
        } else {
            false
        }
    }
    /// The glyph for a snake cell whose neighbours lie in headings `before` and `after`.
    fn get_char(before: Direction, after: Direction) -> (r: String)
        ensures
            r@ == glyph(before, after),
    {
        match (before, after) {
            (Direction::Down, Direction::Right) | (Direction::Right, Direction::Down) => String::from_str(" ┌"),
            (Direction::Down, Direction::Left) | (Direction::Left, Direction::Down) => String::from_str("─┐"),
            (Direction::Up, Direction::Right) | (Direction::Right, Direction::Up) => String::from_str(" └"),
            (Direction::Up, Direction::Left) | (Direction::Left, Direction::Up) => String::from_str("─┘"),
            (Direction::Absent, Direction::Down)
            | (Direction::Down, Direction::Absent)
            | (Direction::Absent, Direction::Up)
            | (Direction::Up, Direction::Absent)
            | (Direction::Up, Direction::Up)
            | (Direction::Down, Direction::Down)
            | (Direction::Up, Direction::Down)
            | (Direction::Down, Direction::Up) => String::from_str(" │"),
            _ => String::from_str("──"),
        }
    }

    /// Writes `glyph` into row `i`, column `j`.
    fn set_glyph(grid: &mut Vec<Vec<String>>, n: Ghost<int>, i: usize, j: usize, glyph: String)
        requires
            is_square(*old(grid), n@),
            i < n@,
            j < n@,
        ensures
            is_square(*final(grid), n@),
            glyph_at(*final(grid), i as int, j as int) == glyph@,
            forall|a: int, b: int|
                0 <= a < n@ && 0 <= b < n@ && !(a == i && b == j) ==> #[trigger] glyph_at(*final(grid), a, b)
                    == glyph_at(*old(grid), a, b),
    {
        let ghost before = grid@;
        grid[i][j] = glyph;
        proof {
            assert forall|a: int| 0 <= a < n@ implies (#[trigger] grid@[a])@.len() == n@ by {
                if a != i {
                    assert(grid@[a] == before[a]);
                }
            }
            assert forall|a: int, b: int| 0 <= a < n@ && 0 <= b < n@ && !(a == i && b == j) implies #[trigger] glyph_at(
                *grid,
                a,
                b,
            ) == before[a]@[b]@ by {
                if a != i {
                    assert(grid@[a] == before[a]);
                }
            }
        }
    }

    fn put_food(result: &mut Vec<Vec<String>>, n: Ghost<int>, food: &Option<Point>)
        requires
            is_square(*old(result), n@),
            *food matches Some(f) ==> 0 <= f.x && f.x + 2 < n@ && 0 <= f.y && f.y + 2 < n@,
        ensures
            is_square(*final(result), n@),
            forall|a: int, b: int|
                0 <= a < n@ && 0 <= b < n@ ==> #[trigger] glyph_at(*final(result), a, b) == if *food matches Some(f) && shows(f, a, b) {
                    food_glyph()
                } else {
                    glyph_at(*old(result), a, b)
                },
    {
        if let Some(f) = food {
            Self::set_glyph(result, n, f.x as usize + 1, f.y as usize + 1, String::from_str(" ●"));
        }
    }

    fn put_snake(result: &mut Vec<Vec<String>>, n: Ghost<int>, snake: &VecDeque<Point>)
        requires
            is_square(*old(result), n@),
            snake@.no_duplicates(),
            forall|k: int| 0 <= k < snake@.len() ==> in_bounds(#[trigger] snake@[k], n@ - 2),
            forall|k: int| 0 <= k < snake@.len() - 1 ==> linked(#[trigger] snake@[k], snake@[k + 1], n@ - 2),
        ensures
            is_square(*final(result), n@),
            forall|k: int|
                0 <= k < snake@.len() ==> glyph_at(*final(result), snake@[k].x + 1, snake@[k].y + 1)
                    == #[trigger] segment_glyph(snake@, k),
            forall|a: int, b: int|
                0 <= a < n@ && 0 <= b < n@ && (forall|k: int| 0 <= k < snake@.len() ==> !shows(#[trigger] snake@[k], a, b))
                    ==> #[trigger] glyph_at(*final(result), a, b) == glyph_at(*old(result), a, b),
    {
        let len = snake.len();
        let mut k: usize = 0;
        while k < len
            invariant
                len == snake@.len(),
                k <= len,
                is_square(*result, n@),
                snake@.no_duplicates(),
                forall|m: int| 0 <= m < snake@.len() ==> in_bounds(#[trigger] snake@[m], n@ - 2),
                forall|m: int|
                    0 <= m < k ==> glyph_at(*result, snake@[m].x + 1, snake@[m].y + 1) == #[trigger] segment_glyph(
                        snake@,
                        m,
                    ),
                forall|a: int, b: int|
                    0 <= a < n@ && 0 <= b < n@ && (forall|m: int| 0 <= m < k ==> !shows(#[trigger] snake@[m], a, b))
                        ==> #[trigger] glyph_at(*result, a, b) == glyph_at(*old(result), a, b),
            decreases len - k,
        {
            let current = snake[k];
            let before = if k == 0 {
                Direction::Absent
            } else {
                current.direction_of_neighbor(&snake[k - 1])
            };
            let after = if k + 1 == len {
                Direction::Absent
            } else {
                current.direction_of_neighbor(&snake[k + 1])
            };
            let ghost prev = *result;
            proof {
                assert(in_bounds(snake@[k as int], n@ - 2));
            }
            Self::set_glyph(result, n, current.x as usize + 1, current.y as usize + 1, Self::get_char(before, after));
            proof {
                assert forall|m: int| 0 <= m < k + 1 implies glyph_at(*result, snake@[m].x + 1, snake@[m].y + 1)
                    == #[trigger] segment_glyph(snake@, m) by {
                    if m < k {
                        assert(snake@[m] != snake@[k as int]);
                        assert(in_bounds(snake@[m], n@ - 2));
                        assert(glyph_at(prev, snake@[m].x + 1, snake@[m].y + 1) == segment_glyph(snake@, m));
                    }
                }
                assert forall|a: int, b: int|
                    0 <= a < n@ && 0 <= b < n@ && (forall|m: int| 0 <= m < k + 1 ==> !shows(#[trigger] snake@[m], a, b))
                        implies #[trigger] glyph_at(*result, a, b) == glyph_at(*old(result), a, b) by {
                    assert(!shows(snake@[k as int], a, b));
                    assert(forall|m: int| 0 <= m < k ==> !shows(#[trigger] snake@[m], a, b));
                    assert(glyph_at(prev, a, b) == glyph_at(*old(result), a, b));
                }
            }
            k += 1;
        }
    }

    /// The drawing of the game: the board's drawing with the food and then the
    /// snake drawn over it.
    pub fn get_table(&self) -> (r: Vec<Vec<String>>)
        requires
            self@.wf(),
        ensures
            is_drawing(self@, r),
    {
        let ghost n = self@.size() + 2;
        let mut result = self.board.get_table();
        let ghost drawn = result;
        Self::put_food(&mut result, Ghost(n), &self.food);
        let ghost fed = result;
        Self::put_snake(&mut result, Ghost(n), &self.snake);
        proof {
            assert forall|i: int, j: int|
                0 <= i < n && 0 <= j < n && (forall|k: int| 0 <= k < self@.body.len() ==> !shows(#[trigger] self@.body[k], i, j))
                    implies #[trigger] glyph_at(result, i, j) == backdrop(self@, i, j) by {
                assert(glyph_at(result, i, j) == glyph_at(fed, i, j));
                assert(glyph_at(drawn, i, j) == board_cell(self@.board, i, j));
            }
        }
        result
    }
    /// Whether `body` is a sound snake on a grid of side `size` (see `body_ok`).
    fn check_body(body: &Vec<Point>, size: u16) -> (r: bool)
        requires
            0 < size <= i16::MAX,
        ensures
            r == body_ok(body@, size as int),
    {
        let n = body.len();
        let side = size as i16;
        let mut i: usize = 0;
        while i < n
            invariant
                n == body@.len(),
                side == size,
                i <= n,
                forall|k: int| 0 <= k < i ==> in_bounds(#[trigger] body@[k], size as int),
            decreases n - i,
        {
            let p = body[i];
            if !(0 <= p.x && p.x < side && 0 <= p.y && p.y < side) {
                assert(!in_bounds(body@[i as int], size as int));
                return false;
            }
            i += 1;
        }
        let mut i: usize = 1;
        while i < n
            invariant
                n == body@.len(),
                1 <= i,
                0 < size <= i16::MAX,
                forall|k: int| 0 <= k < i - 1 && k + 1 < n ==> linked(#[trigger] body@[k], body@[k + 1], size as int),
            decreases n - i,
        {
            let behind = body[i];
            let a = body[i - 1];
            if !(a == behind.get_neighbor(&Direction::Up, size) || a == behind.get_neighbor(&Direction::Down, size)
                || a == behind.get_neighbor(&Direction::Left, size) || a == behind.get_neighbor(
                &Direction::Right,
                size,
            )) {
                assert(!linked(body@[i - 1], body@[i as int], size as int));
                return false;
            }
            i += 1;
        }
        let mut i: usize = 0;
        while i < n
            invariant
                n == body@.len(),
                i <= n,
                forall|a: int, b: int| 0 <= a < i && a < b < n ==> body@[a] != body@[b],
            decreases n - i,
        {
            let mut j: usize = i + 1;
            while j < n
                invariant
                    n == body@.len(),
                    i < n,
                    i < j <= n,
                    forall|a: int, b: int| 0 <= a < i && a < b < n ==> body@[a] != body@[b],
                    forall|b: int| i < b < j ==> body@[i as int] != body@[b],
                decreases n - j,
            {
                if body[i] == body[j] {
                    return false;
                }
                j += 1;
            }
            i += 1;
        }
        proof {
            assert forall|a: int, b: int| 0 <= a < n && 0 <= b < n && a != b implies body@[a] != body@[b] by {
                if b < a {
                    assert(body@[b] != body@[a]);
                }
            }
        }
        true
    }

    /// A game in progress on a copy of `board`, with the given snake (head
    /// first), heading and food, and score 0. None unless the board has a
    /// grid, the heading is one of the four, the snake is sound and not empty,
    /// and the food is on a free cell.
    pub fn from_parts(board: &Board, body: Vec<Point>, heading: Direction, food: Point) -> (r: Option<Game>)
        requires
            board@.wf(),
        ensures
            r is Some <==> {
                &&& board@.size > 0
                &&& heading != Direction::Absent
                &&& body@.len() >= 1
                &&& body_ok(body@, board@.size as int)
                &&& is_free(board@, body@, food)
            },
            r matches Some(g) ==> {
                &&& g@.wf()
                &&& g@ == (GameView {
                    board: board@,
                    body: body@,
                    heading,
                    food: Some(food),
                    score: 0,
                    over: false,
                })
            },
    {
        let size = board.get_size();
        if size == 0 || heading == Direction::Absent || body.len() == 0 || !Self::check_body(&body, size) {
            return None;
        }
        let mut snake: VecDeque<Point> = VecDeque::new();
        let mut i: usize = 0;
        while i < body.len()
            invariant
                i <= body@.len(),
                snake@ == body@.take(i as int),
            decreases body@.len() - i,
        {
            snake.push_back(body[i]);
            proof {
                assert(body@.take(i + 1) == body@.take(i as int).push(body@[i as int]));
            }
            i += 1;
        }
        proof {
            assert(body@.take(body@.len() as int) == body@);
        }
        if !Self::is_free_cell(&snake, board, &food) {
            return None;
        }
        let copy = board.copy_with_new_name(String::from_str(board.get_name()));
        Some(Game { board: copy, snake, food: Some(food), score: 0, direction: heading, over: false })
    }
}

} // verus!
