use vstd::prelude::*;
use vstd::string::*;

use std::cmp::Ordering;

verus! {

/// The scores of one board: its name and the scores in the order they came.
pub type ScoresView = (Seq<char>, Seq<u16>);

/// The scores are ordered from highest to lowest.
pub open spec fn highest_first_order(s: Seq<u16>) -> bool {
    forall|i: int, j: int| 0 <= i < j < s.len() ==> s[i] >= s[j]
}

/// Orders scores from highest to lowest.
fn highest_first(a: &u16, b: &u16) -> (r: Ordering)
    ensures
        r == (if *a > *b {
            Ordering::Less
        } else if *a < *b {
            Ordering::Greater
        } else {
            Ordering::Equal
        }),
{
    if *a > *b {
        Ordering::Less
    } else if *a < *b {
        Ordering::Greater
    } else {
        Ordering::Equal
    }
}

/// Relies on slice::sort_unstable_by: with `highest_first`, a total order,
/// the vector comes back holding the same values from highest to lowest.
#[verifier::external_body]
fn sort_highest_first(v: &mut Vec<u16>)
    ensures
        final(v)@.to_multiset() == old(v)@.to_multiset(),
        highest_first_order(final(v)@),
{
    v.sort_unstable_by(highest_first)
}

/// The scores made on each board, by board name.
#[derive(Debug)]
pub struct Scoreboard {
    scoreboard: Vec<(String, Vec<u16>)>,
}

impl View for Scoreboard {
    type V = Seq<ScoresView>;

    closed spec fn view(&self) -> Seq<ScoresView> {
        self.scoreboard@.map_values(|e: (String, Vec<u16>)| (e.0@, e.1@))
    }
}

impl Scoreboard {
    /// No board holds the scores of two entries.
    pub open spec fn wf(&self) -> bool {
        forall|i: int, j: int| 0 <= i < j < self@.len() ==> self@[i].0 != self@[j].0
    }

    /// A scoreboard with no scores.
    pub fn empty() -> (r: Scoreboard)
        ensures
            r.wf(),
            r@ == Seq::<ScoresView>::empty(),
    {
        let r = Scoreboard { scoreboard: Vec::new() };
        assert(r@ =~= Seq::<ScoresView>::empty());
        r
    }

    /// Records `score` for the board called `board_name`.
    pub fn add(&mut self, board_name: String, score: u16)
        requires
            old(self).wf(),
        ensures
            final(self).wf(),
            forall|i: int|
                0 <= i < old(self)@.len() && (#[trigger] old(self)@[i]).0 == board_name@ ==> final(self)@
                    == old(self)@.update(i, (board_name@, old(self)@[i].1.push(score))),
            (forall|i: int| 0 <= i < old(self)@.len() ==> (#[trigger] old(self)@[i]).0 != board_name@)
                ==> final(self)@ == old(self)@.push((board_name@, seq![score])),
    {
        let mut i: usize = 0;
        while i < self.scoreboard.len()
            invariant
                i <= self@.len(),
                self@.len() == self.scoreboard@.len(),
                *self == *old(self),
                self.wf(),
                forall|k: int| 0 <= k < i ==> (#[trigger] self@[k]).0 != board_name@,
            decreases self.scoreboard@.len() - i,
        {
            if self.scoreboard[i].0 == board_name {
                let ghost before = self@;
                self.scoreboard[i].1.push(score);
                proof {
                    assert(self@ =~= before.update(i as int, (board_name@, before[i as int].1.push(score))));
                    assert forall|a: int| 0 <= a < before.len() && (#[trigger] before[a]).0 == board_name@ implies a == i by {
                        if a != i {
                            if a < i {
                                assert(before[a].0 != before[i as int].0);
                            } else {
                                assert(before[i as int].0 != before[a].0);
                            }
                        }
                    }
                }
                return;
            }
            i += 1;
        }
        let ghost before = self@;
        let mut first: Vec<u16> = Vec::new();
        first.push(score);
        assert(first@ =~= seq![score]);
        self.scoreboard.push((board_name, first));
        proof {
            assert(self@ =~= before.push((board_name@, seq![score])));
        }
    }

    /// The scores of the board called `board_name`, from highest to lowest;
    /// None when it has none.
    pub fn get(&self, board_name: &str) -> (r: Option<Vec<u16>>)
        requires
            self.wf(),
        ensures
            r is Some <==> exists|i: int| 0 <= i < self@.len() && (#[trigger] self@[i]).0 == board_name@,
            forall|i: int|
                0 <= i < self@.len() && (#[trigger] self@[i]).0 == board_name@ ==> (r matches Some(v) && v@.to_multiset()
                    == self@[i].1.to_multiset() && highest_first_order(v@)),
    {
        let name = String::from_str(board_name);
        let mut i: usize = 0;
        while i < self.scoreboard.len()
            invariant
                i <= self@.len(),
                self@.len() == self.scoreboard@.len(),
                name@ == board_name@,
                self.wf(),
                forall|k: int| 0 <= k < i ==> (#[trigger] self@[k]).0 != board_name@,
            decreases self.scoreboard@.len() - i,
        {
            if self.scoreboard[i].0 == name {
                let mut scores = Self::copy_scores(&self.scoreboard[i].1);
                sort_highest_first(&mut scores);
                proof {
                    assert(self@[i as int].0 == board_name@);
                    assert forall|a: int| 0 <= a < self@.len() && (#[trigger] self@[a]).0 == board_name@ implies a == i by {
                        if a < i {
                            assert(self@[a].0 != self@[i as int].0);
                        } else if a > i {
                            assert(self@[i as int].0 != self@[a].0);
                        }
                    }
                }
                return Some(scores);
            }
            i += 1;
        }
        None
    }

    fn copy_scores(v: &Vec<u16>) -> (r: Vec<u16>)
        ensures
            r@ == v@,
    {
        let mut r: Vec<u16> = Vec::new();
        let mut i: usize = 0;
        while i < v.len()
            invariant
                i <= v@.len(),
                r@ == v@.take(i as int),
            decreases v@.len() - i,
        {
            r.push(v[i]);
            proof {
                assert(v@.take(i + 1) == v@.take(i as int).push(v@[i as int]));
            }
            i += 1;
        }
        proof {
            assert(v@.take(v@.len() as int) == v@);
        }
        r
    }

    /// The names of the boards that have scores.
    pub fn get_names(&self) -> (r: Vec<String>)
        ensures
            r@.len() == self@.len(),
            forall|i: int| 0 <= i < self@.len() ==> (#[trigger] r@[i])@ == self@[i].0,
    {
        let mut names: Vec<String> = Vec::new();
        let mut i: usize = 0;
        while i < self.scoreboard.len()
            invariant
                i <= self@.len(),
                self@.len() == self.scoreboard@.len(),
                names@.len() == i,
                forall|k: int| 0 <= k < i ==> (#[trigger] names@[k])@ == self@[k].0,
            decreases self.scoreboard@.len() - i,
        {
            names.push(self.scoreboard[i].0.clone());
            i += 1;
        }
        names
    }
}

} // verus!
