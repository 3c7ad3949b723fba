//! The rule of one step: the player walks, pushes exactly one box, or does not move.

use vstd::prelude::*;
use crate::board::BoardModel;
use crate::grid::{Cell, Direction};

verus! {

/// Which entities a step moved.
#[derive(Clone, Copy, Debug, PartialEq, Eq, Structural)]
pub struct Outcome {
    /// Whether the player moved to the next cell.
    pub player_moved: bool,
    /// The index of the box that was pushed, if one was.
    pub pushed: Option<usize>,
}

impl Outcome {
    /// Whether any entity moved.
    pub open spec fn moved(self) -> bool {
        self.player_moved || self.pushed is Some
    }

    /// Whether any entity moved.
    #[verifier::when_used_as_spec(moved)]
    pub fn any_moved(self) -> (b: bool)
        ensures
            b == self.moved(),
    {
        self.player_moved || self.pushed.is_some()
    }
}

impl BoardModel {
    /// The cell that the player steps onto.
    pub open spec fn target(self, d: Direction) -> Cell {
        self.player.step(d)
    }

    /// The cell behind the target, where a pushed box comes to stand.
    pub open spec fn beyond(self, d: Direction) -> Cell {
        self.player.step(d).step(d)
    }

    /// Whether a box stands on the target, so that the step is a push.
    pub open spec fn pushes(self, d: Direction) -> bool {
        self.boxes.contains(self.target(d))
    }

    /// Whether the step is rejected: the target holds a wall, or it holds a box that has
    /// a wall or another box behind it.
    pub open spec fn rejected(self, d: Direction) -> bool {
        ||| self.walls.contains(self.target(d))
        ||| self.pushes(d) && (self.walls.contains(self.beyond(d)) || self.boxes.contains(
            self.beyond(d),
        ))
    }

    /// Whether the cells that the step has to look at can be held by the machine.
    pub open spec fn has_room(self, d: Direction) -> bool {
        &&& self.target(d).representable()
        &&& self.pushes(d) ==> self.beyond(d).representable()
    }

    /// The board after the step. A rejected step changes nothing; any other takes the
    /// player to the target and the box on the target, if there is one, to the cell behind.
    pub open spec fn after(self, d: Direction) -> BoardModel {
        if self.rejected(d) {
            self
        } else {
            BoardModel {
                player: self.target(d),
                boxes: Seq::new(
                    self.boxes.len(),
                    |i: int|
                        if self.boxes[i] == self.target(d) {
                            self.beyond(d)
                        } else {
                            self.boxes[i]
                        },
                ),
                goals: self.goals,
                walls: self.walls,
            }
        }
    }

    /// Whether `out` reports what the step moved.
    pub open spec fn reports(self, d: Direction, out: Outcome) -> bool {
        &&& out.player_moved == !self.rejected(d)
        &&& out.pushed is Some == (self.pushes(d) && !self.rejected(d))
        &&& out.pushed matches Some(i) ==> i < self.boxes.len() && self.boxes[i as int]
            == self.target(d)
    }
}

/// A step towards a wall moves nothing: the board after it is the board before it.
pub proof fn lemma_wall_stops_step(b: BoardModel, d: Direction)
    requires
        b.walls.contains(b.target(d)),
    ensures
        b.rejected(d),
        b.after(d) == b,
{
}

/// A box with another box right behind it cannot be pushed: the step moves neither
/// box, nor the player, nor anything else.
pub proof fn lemma_two_boxes_stop_step(b: BoardModel, d: Direction)
    requires
        b.boxes.contains(b.target(d)),
        b.boxes.contains(b.beyond(d)),
    ensures
        b.rejected(d),
        b.after(d) == b,
{
}

/// A step moves the player exactly when it is not rejected, and then to the target.
pub proof fn lemma_player_moves_unless_rejected(b: BoardModel, d: Direction)
    ensures
        b.after(d).player != b.player <==> !b.rejected(d),
        !b.rejected(d) ==> b.after(d).player == b.target(d),
{
}

/// A step moves no box but the one on the target, and that one only to the cell behind.
/// Goals and walls stay where they are.
pub proof fn lemma_step_moves_one_box_at_most(b: BoardModel, d: Direction)
    requires
        b.valid(),
    ensures
        b.after(d).boxes.len() == b.boxes.len(),
        b.after(d).goals == b.goals,
        b.after(d).walls == b.walls,
        forall|i: int|
            0 <= i < b.boxes.len() ==> #[trigger] b.after(d).boxes[i] == if !b.rejected(d)
                && b.boxes[i] == b.target(d) {
                b.beyond(d)
            } else {
                b.boxes[i]
            },
        forall|i: int, j: int|
            0 <= i < b.boxes.len() && 0 <= j < b.boxes.len() && b.after(d).boxes[i]
                != b.boxes[i] && b.after(d).boxes[j] != b.boxes[j] ==> i == j,
{
    assert forall|i: int, j: int|
        0 <= i < b.boxes.len() && 0 <= j < b.boxes.len() && b.after(d).boxes[i] != b.boxes[i]
            && b.after(d).boxes[j] != b.boxes[j] implies i == j by {
        assert(b.boxes[i] == b.target(d));
        assert(b.boxes[j] == b.target(d));
    }
}

/// A step keeps a valid board valid.
pub proof fn lemma_step_keeps_valid(b: BoardModel, d: Direction)
    requires
        b.valid(),
    ensures
        b.after(d).valid(),
{
    let a = b.after(d);
    if !b.rejected(d) {
        let t = b.target(d);
        let y = b.beyond(d);
        assert(t != b.player && y != b.player && y != t);
        assert forall|i: int, j: int| 0 <= i < a.boxes.len() && 0 <= j < a.boxes.len() && i != j
            implies a.boxes[i] != a.boxes[j] by {
            assert(b.boxes[i] != b.boxes[j]);
            if b.boxes[i] == t {
                assert(b.boxes.contains(t));
                assert(b.boxes.contains(b.boxes[j]));
            }
            if b.boxes[j] == t {
                assert(b.boxes.contains(t));
                assert(b.boxes.contains(b.boxes[i]));
            }
        }
        assert forall|c: Cell| a.boxes.contains(c) implies (c == y && b.pushes(d))
            || (c != t && b.boxes.contains(c)) by {
            let i = choose|i: int| 0 <= i < a.boxes.len() && a.boxes[i] == c;
            assert(b.boxes.contains(b.boxes[i]));
        }
        assert(!a.boxes.contains(a.player));
        assert forall|c: Cell| !(a.walls.contains(c) && a.boxes.contains(c)) by {
        }
    }
}

/// A step moves the player and each box by one cell at most.
pub proof fn lemma_step_drifts_by_one(b: BoardModel, d: Direction, lo: int, hi: int)
    requires
        b.within(lo, hi),
    ensures
        b.after(d).within(lo - 1, hi + 1),
{
    let a = b.after(d);
    if !b.rejected(d) {
        assert forall|i: int| 0 <= i < a.boxes.len() implies lo - 1 <= (#[trigger] a.boxes[i]).x
            <= hi + 1 && lo - 1 <= a.boxes[i].y <= hi + 1 by {
            assert(lo <= b.boxes[i].x <= hi);
        }
    } else {
        assert forall|i: int| 0 <= i < a.boxes.len() implies lo - 1 <= (#[trigger] a.boxes[i]).x
            <= hi + 1 && lo - 1 <= a.boxes[i].y <= hi + 1 by {
            assert(lo <= b.boxes[i].x <= hi);
        }
    }
}

} // verus!
