//! The session: the levels of a pack, the level being played, and the count of moves.

use vstd::prelude::*;
use crate::level::{all_levels, Level, LevelCollection};

verus! {

/// A session as contracts speak of it.
pub struct SessionModel {
    /// The grids of the levels, in order.
    pub levels: Seq<Seq<Seq<char>>>,
    /// The index of the level being played.
    pub current: int,
    /// The moves that the player has made on it.
    pub moves: int,
}

impl SessionModel {
    /// There is a level to play, the index names one, and the count is no less than 0.
    pub open spec fn valid(self) -> bool {
        &&& self.levels.len() >= 1
        &&& all_levels(self.levels)
        &&& 0 <= self.current < self.levels.len()
        &&& 0 <= self.moves
    }

    /// The index after the current one, or the current one where it is the last.
    pub open spec fn next_index(self) -> int {
        if self.current + 1 < self.levels.len() {
            self.current + 1
        } else {
            self.levels.len() - 1
        }
    }

    /// The index before the current one, or the current one where it is the first.
    pub open spec fn previous_index(self) -> int {
        if self.current > 0 {
            self.current - 1
        } else {
            0
        }
    }

    /// The session at the start of level `index`, with no move made.
    pub open spec fn enter(self, index: int) -> SessionModel {
        SessionModel { levels: self.levels, current: index, moves: 0 }
    }

    /// The session with one more move counted.
    pub open spec fn counted(self) -> SessionModel {
        SessionModel { levels: self.levels, current: self.current, moves: self.moves + 1 }
    }
}

/// The levels of a pack, the index of the one being played, and the moves made on it.
#[derive(Clone, Debug)]
pub struct Session {
    levels: LevelCollection,
    current: usize,
    moves: u32,
}

impl View for Session {
    type V = SessionModel;

    closed spec fn view(&self) -> SessionModel {
        SessionModel {
            levels: self.levels@,
            current: self.current as int,
            moves: self.moves as int,
        }
    }
}

impl Session {
    /// Whether the session is one that play can go on from.
    pub open spec fn wf(&self) -> bool {
        self@.valid()
    }

    /// Starts a session on the first level of a pack; an empty pack gives none.
    pub fn new(levels: LevelCollection) -> (r: Option<Session>)
        requires
            levels.wf(),
        ensures
            r is Some == (levels@.len() >= 1),
            r matches Some(s) ==> s.wf() && s@ == (SessionModel {
                levels: levels@,
                current: 0,
                moves: 0,
            }),
    {
        if levels.len() == 0 {
            None
        } else {
            Some(Session { levels, current: 0, moves: 0 })
        }
    }

    /// The index of the level being played.
    pub fn current(&self) -> (i: usize)
        ensures
            i == self@.current,
    {
        self.current
    }

    /// The moves made on the level being played.
    pub fn move_count(&self) -> (n: u32)
        ensures
            n == self@.moves,
    {
        self.moves
    }

    /// The number of levels.
    pub fn level_count(&self) -> (n: usize)
        ensures
            n == self@.levels.len(),
    {
        self.levels.len()
    }

    /// The level being played.
    pub fn level(&self) -> (level: &Level)
        requires
            self.wf(),
        ensures
            level.wf(),
            level@ == self@.levels[self@.current],
    {
        self.levels.level(self.current)
    }

    /// Counts one move.
    pub fn count_move(&mut self)
        requires
            old(self).wf(),
            old(self)@.moves < u32::MAX,
        ensures
            final(self).wf(),
            final(self)@ == old(self)@.counted(),
    {
        self.moves = self.moves + 1;
    }

    /// Starts the current level again: the count of moves goes back to 0.
    pub fn restart(&mut self)
        requires
            old(self).wf(),
        ensures
            final(self).wf(),
            final(self)@ == old(self)@.enter(old(self)@.current),
    {
        self.moves = 0;
    }

    /// Goes to the next level, or stays on the last; the count of moves goes back to 0.
    pub fn next_level(&mut self)
        requires
            old(self).wf(),
        ensures
            final(self).wf(),
            final(self)@ == old(self)@.enter(old(self)@.next_index()),
    {
        let count = self.levels.len();
        if self.current + 1 < count {
            self.current = self.current + 1;
        }
        self.moves = 0;
    }

    /// Goes to the level before, or stays on the first; the count of moves goes back to 0.
    pub fn previous_level(&mut self)
        requires
            old(self).wf(),
        ensures
            final(self).wf(),
            final(self)@ == old(self)@.enter(old(self)@.previous_index()),
    {
        if self.current > 0 {
            self.current = self.current - 1;
        }
        self.moves = 0;
    }
}

} // verus!
