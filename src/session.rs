use vstd::prelude::*;

use crate::board::Board;
use crate::create_board::Key;
use crate::direction::{opposite, Direction};
use crate::game::{step_result, Game, GameView};
use crate::scoreboard::{Scoreboard, ScoresView};

verus! {

/// What a play screen is: the game, whether it is paused, and whether it is
/// to end.
pub struct GameTuiView {
    pub game: GameView,
    pub stop: bool,
    pub exit: bool,
}

impl GameTuiView {
    /// The game turned by a key for `d`.
    pub open spec fn turned(self, w: Self, d: Direction) -> bool {
        w == (GameTuiView {
            game: GameView {
                heading: if !opposite(self.game.heading, d) {
                    d
                } else {
                    self.game.heading
                },
                ..self.game
            },
            ..self
        })
    }

    /// While playing: `q` or `Q` ends, arrows or `h j k l` turn the snake,
    /// escape pauses. While paused: `q` or `Q` ends, escape resumes. Other keys
    /// do nothing.
    pub open spec fn key(self, w: Self, key: Key) -> bool {
        if !self.stop {
            match key {
                Key::Char(c) => if c == 'q' || c == 'Q' {
                    w == (GameTuiView { exit: true, ..self })
                } else if c == 'k' {
                    self.turned(w, Direction::Up)
                } else if c == 'j' {
                    self.turned(w, Direction::Down)
                } else if c == 'h' {
                    self.turned(w, Direction::Left)
                } else if c == 'l' {
                    self.turned(w, Direction::Right)
                } else {
                    w == self
                },
                Key::Up => self.turned(w, Direction::Up),
                Key::Down => self.turned(w, Direction::Down),
                Key::Left => self.turned(w, Direction::Left),
                Key::Right => self.turned(w, Direction::Right),
                Key::Esc => w == (GameTuiView { stop: true, ..self }),
                _ => w == self,
            }
        } else {
            match key {
                Key::Char(c) => if c == 'q' || c == 'Q' {
                    w == (GameTuiView { exit: true, ..self })
                } else {
                    w == self
                },
                Key::Esc => w == (GameTuiView { stop: false, ..self }),
                _ => w == self,
            }
        }
    }
}

/// The play screen: runs a game one tick at a time and acts on keys.
pub struct GameTui {
    game: Game,
    stop: bool,
    exit: bool,
}

impl View for GameTui {
    type V = GameTuiView;

    closed spec fn view(&self) -> GameTuiView {
        GameTuiView { game: self.game@, stop: self.stop, exit: self.exit }
    }
}

impl GameTui {
    pub fn new(game: Game) -> (r: GameTui)
        ensures
            r@ == (GameTuiView { game: game@, stop: false, exit: false }),
    {
        GameTui { game, stop: false, exit: false }
    }

    /// One tick of the game; the screen ends when the game does.
    pub fn tick(&mut self)
        requires
            old(self)@.game.wf(),
        ensures
            final(self)@.game.wf(),
            exists|r: bool|
                step_result(old(self)@.game, final(self)@.game, r) && final(self)@ == (GameTuiView {
                    game: final(self)@.game,
                    exit: !r,
                    ..old(self)@
                }),
    {
        self.exit = !self.game.walk();
    }

    /// Acts on one key (see `GameTuiView::key`).
    pub fn handle_key(&mut self, key: Key)
        requires
            old(self)@.game.wf(),
        ensures
            final(self)@.game.wf(),
            old(self)@.key(final(self)@, key),
    {
        if !self.stop {
            self.key_event_play_mode(key)
        } else {
            self.key_event_stop_mode(key)
        }
    }

    fn key_event_play_mode(&mut self, key: Key)
        requires
            old(self)@.game.wf(),
            !old(self)@.stop,
        ensures
            final(self)@.game.wf(),
            old(self)@.key(final(self)@, key),
    {
        match key {
            Key::Char('q') | Key::Char('Q') => self.exit = true,
            Key::Up | Key::Char('k') => self.game.rotation(Direction::Up),
            Key::Down | Key::Char('j') => self.game.rotation(Direction::Down),
            Key::Left | Key::Char('h') => self.game.rotation(Direction::Left),
            Key::Right | Key::Char('l') => self.game.rotation(Direction::Right),
            Key::Esc => self.stop = true,
            _ => {},
        }
    }

    fn key_event_stop_mode(&mut self, key: Key)
        requires
            old(self)@.game.wf(),
            old(self)@.stop,
        ensures
            final(self)@.game.wf(),
            old(self)@.key(final(self)@, key),
    {
        match key {
            Key::Char('q') | Key::Char('Q') => self.exit = true,
            Key::Esc => self.stop = false,
            _ => {},
        }
    }

    pub fn is_stopped(&self) -> (r: bool)
        ensures
            r == self@.stop,
    {
        self.stop
    }

    pub fn is_exit(&self) -> (r: bool)
        ensures
            r == self@.exit,
    {
        self.exit
    }

    pub fn get_game(&self) -> (r: &Game)
        ensures
            r@ == self@.game,
    {
        &self.game
    }
}

/// The scores recorded for `name`, if any board of that name has some.
pub open spec fn scores_for(entries: Seq<ScoresView>, name: Seq<char>, scores: Seq<u16>) -> bool {
    exists|i: int| 0 <= i < entries.len() && (#[trigger] entries[i]).0 == name && entries[i].1 == scores
}

/// The game-over screen: records the score of the game that ended.
pub struct GameOverTui {
    score: u16,
    scoreboard: Scoreboard,
    board_name: String,
}

impl GameOverTui {
    pub closed spec fn spec_scoreboard(&self) -> Scoreboard {
        self.scoreboard
    }

    pub closed spec fn spec_score(&self) -> u16 {
        self.score
    }

    pub closed spec fn spec_board_name(&self) -> Seq<char> {
        self.board_name@
    }

    /// Records `score` for the board called `board_name`.
    pub fn new(board_name: String, score: u16, scoreboard: Scoreboard) -> (r: GameOverTui)
        requires
            scoreboard.wf(),
        ensures
            r.spec_scoreboard().wf(),
            r.spec_score() == score,
            r.spec_board_name() == board_name@,
            forall|i: int|
                0 <= i < scoreboard@.len() && (#[trigger] scoreboard@[i]).0 == board_name@ ==> r.spec_scoreboard()@
                    == scoreboard@.update(i, (board_name@, scoreboard@[i].1.push(score))),
            (forall|i: int| 0 <= i < scoreboard@.len() ==> (#[trigger] scoreboard@[i]).0 != board_name@)
                ==> r.spec_scoreboard()@ == scoreboard@.push((board_name@, seq![score])),
    {
        let mut scoreboard = scoreboard;
        scoreboard.add(board_name.clone(), score);
        GameOverTui { score, scoreboard, board_name }
    }

    /// The highest score recorded for this board, the one just made included.
    pub fn best_record(&self) -> (r: u16)
        requires
            self.spec_scoreboard().wf(),
            exists|s: Seq<u16>| scores_for(self.spec_scoreboard()@, self.spec_board_name(), s) && s.len() > 0,
        ensures
            forall|s: Seq<u16>|
                #[trigger] scores_for(self.spec_scoreboard()@, self.spec_board_name(), s) ==> s.contains(r) && forall|j: int|
                    0 <= j < s.len() ==> s[j] <= r,
    {
        let scores = self.scoreboard.get(self.board_name.as_str());
        let ghost s = choose|s: Seq<u16>| scores_for(self.spec_scoreboard()@, self.spec_board_name(), s) && s.len() > 0;
        let ghost i = choose|i: int|
            0 <= i < self.scoreboard@.len() && (#[trigger] self.scoreboard@[i]).0 == self.board_name@
                && self.scoreboard@[i].1 == s;
        match scores {
            Some(v) => {
                proof {
                    broadcast use vstd::seq_lib::group_to_multiset_ensures;

                    assert(v@.len() == s.len()) by {
                        assert(v@.to_multiset().len() == s.to_multiset().len());
                    }
                }
                let best = v[0];
                proof {
                    broadcast use vstd::seq_lib::group_to_multiset_ensures;

                    assert forall|t: Seq<u16>| #[trigger]
                        scores_for(self.spec_scoreboard()@, self.spec_board_name(), t) implies t.contains(best)
                        && forall|j: int| 0 <= j < t.len() ==> t[j] <= best by {
                        let k = choose|k: int|
                            0 <= k < self.scoreboard@.len() && (#[trigger] self.scoreboard@[k]).0
                                == self.board_name@ && self.scoreboard@[k].1 == t;
                        assert(k == i) by {
                            if k < i {
                                assert(self.scoreboard@[k].0 != self.scoreboard@[i].0);
                            } else if k > i {
                                assert(self.scoreboard@[i].0 != self.scoreboard@[k].0);
                            }
                        }
                        assert(v@.contains(best)) by {
                            assert(v@[0] == best);
                        }
                        assert(v@.to_multiset().count(best) > 0);
                        assert forall|j: int| 0 <= j < t.len() implies t[j] <= best by {
                            assert(t.contains(t[j]));
                            assert(t.to_multiset().count(t[j]) > 0);
                            assert(v@.contains(t[j]));
                            let m = choose|m: int| 0 <= m < v@.len() && v@[m] == t[j];
                            if m > 0 {
                                assert(v@[0] >= v@[m]);
                            }
                        }
                    }
                }
                best
            },
            None => {
                proof {
                    assert(self.scoreboard@[i].0 == self.board_name@);
                }
                0
            },
        }
    }

    pub fn get_score(&self) -> (r: u16)
        ensures
            r == self.spec_score(),
    {
        self.score
    }

    pub fn get_board_name(&self) -> (r: &str)
        ensures
            r@ == self.spec_board_name(),
    {
        self.board_name.as_str()
    }

    /// The scoreboard, with the score recorded.
    pub fn into_scoreboard(self) -> (r: Scoreboard)
        ensures
            r == self.spec_scoreboard(),
    {
        self.scoreboard
    }
}

/// How the board selection screen ended.
pub enum SelectBoardTuiResult {
    Board(String, Board),
    Exit,
    CreateBoard,
    ScoreBoards,
}

/// The screen the application shows.
pub enum State {
    SelectBoard,
    CreateBoard,
    PlayGame(Board),
    GameOver(u16),
    Scoreboard,
}

/// The order of the screens: select a board, then play on it, then see the
/// score; from the selection one may also create a board or see the
/// scoreboard, each returning to the selection.
pub struct App {
    pub state: State,
    pub exit: bool,
    pub board_name: String,
}

impl App {
    pub fn new() -> (r: App)
        ensures
            r.state is SelectBoard,
            !r.exit,
            r.board_name@ == Seq::<char>::empty(),
    {
        App { state: State::SelectBoard, exit: false, board_name: String::new() }
    }

    /// After the selection: play the chosen board, create one, see the
    /// scoreboard, or leave.
    pub fn after_select(&mut self, result: SelectBoardTuiResult)
        ensures
            match result {
                SelectBoardTuiResult::Board(name, board) => {
                    &&& final(self).state matches State::PlayGame(b) && b@ == board@
                    &&& final(self).board_name@ == name@
                    &&& final(self).exit == old(self).exit
                },
                SelectBoardTuiResult::Exit => final(self).state is SelectBoard && final(self).exit
                    && final(self).board_name == old(self).board_name,
                SelectBoardTuiResult::CreateBoard => final(self).state is CreateBoard && final(self).exit
                    == old(self).exit && final(self).board_name == old(self).board_name,
                SelectBoardTuiResult::ScoreBoards => final(self).state is Scoreboard && final(self).exit
                    == old(self).exit && final(self).board_name == old(self).board_name,
            },
    {
        match result {
            SelectBoardTuiResult::Board(name, board) => {
                self.board_name = name;
                self.state = State::PlayGame(board);
            },
            SelectBoardTuiResult::Exit => {
                self.exit = true;
                self.state = State::SelectBoard;
            },
            SelectBoardTuiResult::CreateBoard => self.state = State::CreateBoard,
            SelectBoardTuiResult::ScoreBoards => self.state = State::Scoreboard,
        }
    }

    /// After a game that ended with `score`: the game-over screen.
    pub fn after_game(&mut self, score: u16)
        ensures
            final(self).state == State::GameOver(score),
            final(self).exit == old(self).exit,
            final(self).board_name == old(self).board_name,
    {
        self.state = State::GameOver(score);
    }

    /// After creating a board, the game-over screen or the scoreboard: back to
    /// the selection.
    pub fn back_to_select(&mut self)
        ensures
            final(self).state is SelectBoard,
            final(self).exit == old(self).exit,
            final(self).board_name == old(self).board_name,
    {
        self.state = State::SelectBoard;
    }
}

} // verus!
