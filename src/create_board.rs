use vstd::prelude::*;
use vstd::string::*;

use crate::board::{already_named, Board, BoardView, Wall};
use crate::boards::{already_exists_message, Boards};
use crate::direction::Direction;
use crate::point::{in_bounds, neighbor, Point};

verus! {

/// A key pressed by the player, as the screens read it.
#[derive(PartialEq, Eq, Structural, Debug, Clone, Copy)]
pub enum Key {
    Char(char),
    Up,
    Down,
    Left,
    Right,
    Enter,
    Backspace,
    Esc,
    Other,
}

/// What the board editor asks for: the side of the grid, then the walls, then
/// the name.
#[derive(PartialEq, Eq, Structural, Debug, Clone, Copy)]
pub enum Stage {
    Size,
    Wall,
    Name,
}

/// What a board editor is: the name typed so far, the board being drawn, the
/// side typed, whether the player left or the board was stored, the cursor,
/// the stage, the boards it stores into, and the last error.
pub struct CreateBoardView {
    pub name: Seq<char>,
    pub board: BoardView,
    pub size: nat,
    pub exit: bool,
    pub finish: bool,
    pub wall: Point,
    pub stage: Stage,
    pub boards: Seq<BoardView>,
    pub error: Seq<char>,
}

pub open spec fn is_digit(c: char) -> bool {
    '0' <= c <= '9'
}

pub open spec fn digit_value(c: char) -> int {
    c as int - '0' as int
}

/// An empty board of the given side, not yet named.
pub open spec fn blank_board(size: nat) -> BoardView {
    BoardView { name: Seq::empty(), size, walls: Seq::empty() }
}

impl CreateBoardView {
    pub open spec fn wf(self) -> bool {
        &&& self.board.wf()
        &&& self.size <= i16::MAX
        &&& self.stage != Stage::Size ==> self.size >= 1 && self.board.size == self.size && in_bounds(
            self.wall,
            self.size as int,
        )
    }

    /// Typing the side: digits extend it while it stays a side that points
    /// can address, backspace drops its last digit, enter moves on to the
    /// walls, the cursor in the top left corner, once it is at least 1, `q`
    /// leaves.
    pub open spec fn size_key(self, w: Self, key: Key) -> bool {
        match key {
            Key::Char(c) => if c == 'q' {
                w == (CreateBoardView { exit: true, ..self })
            } else if is_digit(c) && self.size * 10 + digit_value(c) <= i16::MAX {
                w == (CreateBoardView { size: (self.size * 10 + digit_value(c)) as nat, ..self })
            } else {
                w == self
            },
            Key::Backspace => w == (CreateBoardView { size: self.size / 10, ..self }),
            Key::Enter => if self.size >= 1 {
                w == (CreateBoardView {
                    board: blank_board(self.size),
                    wall: Point { x: 0, y: 0 },
                    stage: Stage::Wall,
                    ..self
                })
            } else {
                w == self
            },
            _ => w == self,
        }
    }

    /// The cursor moved one cell in `d`, wrapping round the grid.
    pub open spec fn moved(self, w: Self, d: Direction) -> bool {
        w == (CreateBoardView { wall: neighbor(self.wall, d, self.size as int), ..self })
    }

    /// The cell under the cursor stopped or started being a wall.
    pub open spec fn toggled(self, w: Self) -> bool {
        &&& w == (CreateBoardView { board: w.board, ..self })
        &&& w.board.name == self.board.name
        &&& w.board.size == self.board.size
        &&& forall|p: Point| #[trigger]
            w.board.is_wall(p) <==> if self.board.is_wall(self.wall) {
                self.board.is_wall(p) && p != self.wall
            } else {
                self.board.is_wall(p) || p == self.wall
            }
    }

    /// Drawing the walls: arrows or `h j k l` move the cursor, space toggles
    /// the wall under it, enter moves on to the name, `q` leaves.
    pub open spec fn wall_key(self, w: Self, key: Key) -> bool {
        match key {
            Key::Char(c) => if c == 'q' {
                w == (CreateBoardView { exit: true, ..self })
            } else if c == 'j' {
                self.moved(w, Direction::Down)
            } else if c == 'k' {
                self.moved(w, Direction::Up)
            } else if c == 'h' {
                self.moved(w, Direction::Left)
            } else if c == 'l' {
                self.moved(w, Direction::Right)
            } else if c == ' ' {
                self.toggled(w)
            } else {
                w == self
            },
            Key::Down => self.moved(w, Direction::Down),
            Key::Up => self.moved(w, Direction::Up),
            Key::Left => self.moved(w, Direction::Left),
            Key::Right => self.moved(w, Direction::Right),
            Key::Enter => w == (CreateBoardView { stage: Stage::Name, ..self }),
            _ => w == self,
        }
    }

    /// Typing the name: characters extend it, backspace drops the last one,
    /// enter stores the board under that name, or, when a board has that name
    /// already, keeps the error.
    pub open spec fn name_key(self, w: Self, key: Key) -> bool {
        match key {
            Key::Char(c) => w == (CreateBoardView { name: self.name.push(c), ..self }),
            Key::Backspace => w == (CreateBoardView {
                name: if self.name.len() > 0 {
                    self.name.drop_last()
                } else {
                    self.name
                },
                ..self
            }),
            Key::Enter => if already_named(self.boards, self.name) {
                w == (CreateBoardView { error: already_exists_message(self.name), ..self })
            } else {
                w == (CreateBoardView {
                    boards: self.boards.push(BoardView { name: self.name, ..self.board }),
                    finish: true,
                    ..self
                })
            },
            _ => w == self,
        }
    }
}

/// Relies on String::push: the character is appended.
#[verifier::external_body]
fn push_char(s: &mut String, c: char)
    ensures
        final(s)@ == old(s)@.push(c),
{
    s.push(c)
}

/// Relies on String::pop: the last character, if there is one, is removed.
#[verifier::external_body]
fn pop_char(s: &mut String)
    ensures
        final(s)@ == if old(s)@.len() > 0 {
            old(s)@.drop_last()
        } else {
            old(s)@
        },
{
    s.pop();
}

/// The board editor: the player types a side, draws walls, and names the board,
/// which is then added to the boards.
pub struct CreateBoardTui {
    name: String,
    board: Board,
    size: u16,
    exit: bool,
    finish: bool,
    wall: Wall,
    state: Stage,
    boards: Boards,
    error: String,
}

impl View for CreateBoardTui {
    type V = CreateBoardView;

    closed spec fn view(&self) -> CreateBoardView {
        CreateBoardView {
            name: self.name@,
            board: self.board@,
            size: self.size as nat,
            exit: self.exit,
            finish: self.finish,
            wall: self.wall,
            stage: self.state,
            boards: self.boards@,
            error: self.error@,
        }
    }
}

impl CreateBoardTui {
    /// An editor that stores into `boards`, asking first for the side.
    pub fn new(boards: Boards) -> (r: CreateBoardTui)
        ensures
            r@.wf(),
            r@ == (CreateBoardView {
                name: Seq::empty(),
                board: blank_board(0),
                size: 0,
                exit: false,
                finish: false,
                wall: Point { x: 0, y: 0 },
                stage: Stage::Size,
                boards: boards@,
                error: Seq::empty(),
            }),
    {
        let board = Board::new(String::new(), 0, Vec::new());
        proof {
            assert(board@.walls =~= Seq::<Point>::empty());
        }
        CreateBoardTui {
            name: String::new(),
            board,
            size: 0,
            exit: false,
            finish: false,
            wall: Point { x: 0, y: 0 },
            state: Stage::Size,
            boards,
            error: String::new(),
        }
    }

    /// Acts on one key, as the current stage reads it.
    pub fn handle_key(&mut self, key: Key)
        requires
            old(self)@.wf(),
        ensures
            final(self)@.wf(),
            old(self)@.stage == Stage::Size ==> old(self)@.size_key(final(self)@, key),
            old(self)@.stage == Stage::Wall ==> old(self)@.wall_key(final(self)@, key),
            old(self)@.stage == Stage::Name ==> old(self)@.name_key(final(self)@, key),
    {
        match self.state {
            Stage::Wall => self.key_event_put_wall(key),
            Stage::Size => self.key_event_put_size(key),
            Stage::Name => self.key_event_put_name(key),
        }
    }

    fn key_event_put_wall(&mut self, key: Key)
        requires
            old(self)@.wf(),
            old(self)@.stage == Stage::Wall,
        ensures
            final(self)@.wf(),
            old(self)@.wall_key(final(self)@, key),
    {
        match key {
            Key::Char('q') => self.exit = true,
            Key::Char('j') | Key::Down => self.select_down(),
            Key::Char('k') | Key::Up => self.select_up(),
            Key::Char('h') | Key::Left => self.select_left(),
            Key::Char('l') | Key::Right => self.select_right(),
            Key::Char(' ') => self.toggle_wall(),
            Key::Enter => self.state = Stage::Name,
            _ => {},
        }
    }

    fn key_event_put_size(&mut self, key: Key)
        requires
            old(self)@.wf(),
            old(self)@.stage == Stage::Size,
        ensures
            final(self)@.wf(),
            old(self)@.size_key(final(self)@, key),
    {
        match key {
            Key::Char('q') => self.exit = true,
            Key::Char(c) => {
                if '0' <= c && c <= '9' {
                    let digit = (c as u32 - '0' as u32) as u16;
                    if self.size <= 3276 && self.size * 10 + digit <= 32767 {
                        self.size = self.size * 10 + digit;
                    }
                }
            },
            Key::Backspace => self.size = self.size / 10,
            Key::Enter => {
                if self.size >= 1 {
                    self.board = Board::new(String::new(), self.size, Vec::new());
                    proof {
                        assert(self.board@.walls =~= Seq::<Point>::empty());
                    }
                    self.wall = Point { x: 0, y: 0 };
                    self.state = Stage::Wall;
                }
            },
            _ => {},
        }
    }

    fn key_event_put_name(&mut self, key: Key)
        requires
            old(self)@.wf(),
            old(self)@.stage == Stage::Name,
        ensures
            final(self)@.wf(),
            old(self)@.name_key(final(self)@, key),
    {
        match key {
            Key::Char(c) => push_char(&mut self.name, c),
            Key::Backspace => pop_char(&mut self.name),
            Key::Enter => self.store(),
            _ => {},
        }
    }

    fn select_down(&mut self)
        requires
            old(self)@.wf(),
            old(self)@.stage != Stage::Size,
        ensures
            final(self)@.wf(),
            old(self)@.moved(final(self)@, Direction::Down),
    {
        self.wall = self.wall.get_neighbor(&Direction::Down, self.size);
    }

    fn select_up(&mut self)
        requires
            old(self)@.wf(),
            old(self)@.stage != Stage::Size,
        ensures
            final(self)@.wf(),
            old(self)@.moved(final(self)@, Direction::Up),
    {
        self.wall = self.wall.get_neighbor(&Direction::Up, self.size);
    }

    fn select_left(&mut self)
        requires
            old(self)@.wf(),
            old(self)@.stage != Stage::Size,
        ensures
            final(self)@.wf(),
            old(self)@.moved(final(self)@, Direction::Left),
    {
        self.wall = self.wall.get_neighbor(&Direction::Left, self.size);
    }

    fn select_right(&mut self)
        requires
            old(self)@.wf(),
            old(self)@.stage != Stage::Size,
        ensures
            final(self)@.wf(),
            old(self)@.moved(final(self)@, Direction::Right),
    {
        self.wall = self.wall.get_neighbor(&Direction::Right, self.size);
    }

    fn toggle_wall(&mut self)
        requires
            old(self)@.wf(),
            old(self)@.stage != Stage::Size,
        ensures
            final(self)@.wf(),
            old(self)@.toggled(final(self)@),
    {
        let wall = self.wall;
        if self.board.is_wall(&wall) {
            self.board.remove_wall(&wall);
        } else {
            let _ = self.board.add_wall(wall);
            proof {
                assert forall|p: Point| #[trigger] self.board@.is_wall(p) <==> (old(self)@.board.is_wall(p) || p == wall) by {
                    if p == wall {
                        assert(self.board@.walls[self.board@.walls.len() - 1] == wall);
                    }
                    if old(self)@.board.is_wall(p) {
                        let k = choose|k: int| 0 <= k < old(self)@.board.walls.len() && old(self)@.board.walls[k] == p;
                        assert(self.board@.walls[k] == p);
                    }
                    if self.board@.is_wall(p) {
                        let k = choose|k: int| 0 <= k < self.board@.walls.len() && self.board@.walls[k] == p;
                        if k < old(self)@.board.walls.len() {
                            assert(old(self)@.board.walls[k] == p);
                        }
                    }
                }
            }
        }
    }

    fn store(&mut self)
        requires
            old(self)@.wf(),
            old(self)@.stage == Stage::Name,
        ensures
            final(self)@.wf(),
            old(self)@.name_key(final(self)@, Key::Enter),
    {
        let named = self.board.copy_with_new_name(self.name.clone());
        match self.boards.add(self.name.clone(), named) {
            Ok(_) => self.finish = true,
            Err(e) => self.error = e,
        }
    }

    /// The player left the editor, or the board was stored.
    pub fn is_done(&self) -> (r: bool)
        ensures
            r == (self@.exit || self@.finish),
    {
        self.exit || self.finish
    }

    pub fn get_stage(&self) -> (r: Stage)
        ensures
            r == self@.stage,
    {
        self.state
    }

    pub fn get_size(&self) -> (r: u16)
        ensures
            r == self@.size,
    {
        self.size
    }

    pub fn get_name(&self) -> (r: &str)
        ensures
            r@ == self@.name,
    {
        self.name.as_str()
    }

    pub fn get_error(&self) -> (r: &str)
        ensures
            r@ == self@.error,
    {
        self.error.as_str()
    }

    pub fn get_board(&self) -> (r: &Board)
        ensures
            r@ == self@.board,
    {
        &self.board
    }

    pub fn get_wall(&self) -> (r: Wall)
        ensures
            r == self@.wall,
    {
        self.wall
    }

    /// The boards, with the new one added if it was stored.
    pub fn into_boards(self) -> (r: Boards)
        ensures
            r@ == self@.boards,
    {
        self.boards
    }
}

} // verus!
