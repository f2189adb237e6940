use vstd::prelude::*;
use vstd::string::*;

use crate::board::{already_named, Board, BoardView};

verus! {

/// The message of the error that `Boards::add` gives for a name in use.
pub open spec fn already_exists_message(name: Seq<char>) -> Seq<char> {
    "Board '"@ + name + "' already exists"@
}

/// The boards one can play on, in the order they were added.
#[derive(Debug)]
pub struct Boards {
    boards: Vec<Board>,
}

impl View for Boards {
    type V = Seq<BoardView>;

    closed spec fn view(&self) -> Seq<BoardView> {
        self.boards@.map_values(|b: Board| b@)
    }
}

impl Boards {
    /// The collection that holds these boards, in this order.
    pub fn from_boards(boards: Vec<Board>) -> (r: Boards)
        ensures
            r@ == boards@.map_values(|b: Board| b@),
    {
        Boards { boards }
    }

    pub fn len(&self) -> (r: usize)
        ensures
            r == self@.len(),
    {
        self.boards.len()
    }

    /// Adds `board`, unless a board called `name` is there already.
    pub fn add(&mut self, name: String, board: Board) -> (r: Result<(), String>)
        ensures
            r is Err <==> already_named(old(self)@, name@),
            r matches Err(e) ==> e@ == already_exists_message(name@) && final(self)@ == old(self)@,
            r is Ok ==> final(self)@ == old(self)@.push(board@),
    {
        let mut i: usize = 0;
        while i < self.boards.len()
            invariant
                i <= self@.len(),
                self@.len() == self.boards@.len(),
                forall|k: int| 0 <= k < i ==> (#[trigger] self@[k]).name != name@,
            decreases self.boards@.len() - i,
        {
            let existing = String::from_str(self.boards[i].get_name());
            if existing == name {
                assert(self@[i as int].name == name@);
                return Err(String::from_str("Board '").concat(name.as_str()).concat("' already exists"));
            }
            i += 1;
        }
        self.boards.push(board);
        proof {
            assert(self@ =~= old(self)@.push(board@));
        }
        Ok(())
    }

    /// The board at `index`, if there is one.
    pub fn get(&self, index: usize) -> (r: Option<&Board>)
        ensures
            r is Some <==> index < self@.len(),
            r matches Some(b) ==> b@ == self@[index as int],
    {
        if index < self.boards.len() {
            Some(&self.boards[index])
        } else {
            None
        }
    }

    /// The names of the boards, in order.
    pub fn get_names(&self) -> (r: Vec<String>)
        ensures
            r@.len() == self@.len(),
            forall|i: int| 0 <= i < self@.len() ==> (#[trigger] r@[i])@ == self@[i].name,
    {
        let mut names: Vec<String> = Vec::new();
        let mut i: usize = 0;
        while i < self.boards.len()
            invariant
                i <= self@.len(),
                self@.len() == self.boards@.len(),
                names@.len() == i,
                forall|k: int| 0 <= k < i ==> (#[trigger] names@[k])@ == self@[k].name,
            decreases self.boards@.len() - i,
        {
            names.push(String::from_str(self.boards[i].get_name()));
            i += 1;
        }
        names
    }
}

} // verus!
