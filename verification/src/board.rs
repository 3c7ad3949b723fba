//! The board: where the player, the boxes, the goals and the walls stand.

use vstd::prelude::*;
use crate::grid::{cells_of, Cell, Coordinate, Direction};
use crate::level::{defect, grid_cells, holds, lemma_grid_cells, EntityKind, Level};
use crate::motion::{lemma_step_keeps_valid, Outcome};

verus! {

/// A board as contracts speak of it. Boxes, goals and walls are listed in a fixed order,
/// so that an entity keeps its index while it moves.
pub struct BoardModel {
    pub player: Cell,
    pub boxes: Seq<Cell>,
    pub goals: Seq<Cell>,
    pub walls: Seq<Cell>,
}

impl BoardModel {
    /// Every live entity with its kind: the player first, then the boxes, the goals and
    /// the walls, each kind in its fixed order.
    pub open spec fn entities(self) -> Seq<(EntityKind, Cell)> {
        seq![(EntityKind::Player, self.player)] + tagged(EntityKind::Box, self.boxes) + tagged(
            EntityKind::Goal,
            self.goals,
        ) + tagged(EntityKind::Wall, self.walls)
    }

    /// No kind lists a cell twice, and no cell holds two of player, box and wall.
    /// A goal may share its cell with anything.
    pub open spec fn valid(self) -> bool {
        &&& self.boxes.no_duplicates()
        &&& self.goals.no_duplicates()
        &&& self.walls.no_duplicates()
        &&& !self.walls.contains(self.player)
        &&& !self.boxes.contains(self.player)
        &&& forall|c: Cell| !(self.walls.contains(c) && self.boxes.contains(c))
    }

    /// The puzzle is solved when the boxes cover exactly the goals.
    pub open spec fn solved(self) -> bool {
        self.boxes.to_set() == self.goals.to_set()
    }

    /// Whether the player and every box lie in the square from `lo` to `hi` on both axes.
    pub open spec fn within(self, lo: int, hi: int) -> bool {
        &&& lo <= self.player.x <= hi
        &&& lo <= self.player.y <= hi
        &&& forall|i: int|
            0 <= i < self.boxes.len() ==> lo <= (#[trigger] self.boxes[i]).x <= hi && lo
                <= self.boxes[i].y <= hi
    }
}

/// A live entity: its kind and where it stands.
#[derive(Clone, Copy, Debug, PartialEq, Eq, Structural)]
pub struct Entity {
    pub kind: EntityKind,
    pub at: Coordinate,
}

/// The cells of a list, each with the kind of the entity on it.
pub open spec fn tagged(kind: EntityKind, cells: Seq<Cell>) -> Seq<(EntityKind, Cell)> {
    Seq::new(cells.len(), |i: int| (kind, cells[i]))
}

/// The kinds and cells that a list of entities names, in order.
pub open spec fn entities_of(v: Seq<Entity>) -> Seq<(EntityKind, Cell)> {
    Seq::new(v.len(), |i: int| (v[i].kind, v[i].at@))
}

/// The board that a grid of characters lays out.
pub open spec fn board_of(grid: Seq<Seq<char>>) -> BoardModel {
    BoardModel {
        player: grid_cells(grid, EntityKind::Player)[0],
        boxes: grid_cells(grid, EntityKind::Box),
        goals: grid_cells(grid, EntityKind::Goal),
        walls: grid_cells(grid, EntityKind::Wall),
    }
}

/// A grid with exactly one player lays out a valid board, inside the grid's rectangle.
pub proof fn lemma_board_of_valid(grid: Seq<Seq<char>>)
    requires
        defect(grid) is None,
    ensures
        board_of(grid).valid(),
        holds(grid, EntityKind::Player, board_of(grid).player),
        forall|i: int|
            0 <= i < board_of(grid).boxes.len() ==> holds(
                grid,
                EntityKind::Box,
                #[trigger] board_of(grid).boxes[i],
            ),
{
    let b = board_of(grid);
    lemma_grid_cells(grid, EntityKind::Player);
    lemma_grid_cells(grid, EntityKind::Box);
    lemma_grid_cells(grid, EntityKind::Goal);
    lemma_grid_cells(grid, EntityKind::Wall);
    let players = grid_cells(grid, EntityKind::Player);
    assert(players.contains(players[0]));
    assert forall|i: int| 0 <= i < b.boxes.len() implies holds(
        grid,
        EntityKind::Box,
        #[trigger] b.boxes[i],
    ) by {
        assert(b.boxes.contains(b.boxes[i]));
    }
}

/// A grid whose boxes all stand on goals, and whose goals all hold a box, lays out a
/// board that is solved before any move.
pub proof fn lemma_boxes_on_goals_solved(grid: Seq<Seq<char>>)
    requires
        forall|c: Cell| holds(grid, EntityKind::Box, c) <==> holds(grid, EntityKind::Goal, c),
    ensures
        board_of(grid).solved(),
{
    let b = board_of(grid);
    lemma_grid_cells(grid, EntityKind::Box);
    lemma_grid_cells(grid, EntityKind::Goal);
    assert(b.boxes.to_set() =~= b.goals.to_set());
}

/// The live entities of one puzzle, each on a cell of the grid.
#[derive(Clone, Debug, PartialEq, Eq)]
pub struct Board {
    player: Coordinate,
    boxes: Vec<Coordinate>,
    goals: Vec<Coordinate>,
    walls: Vec<Coordinate>,
}

impl View for Board {
    type V = BoardModel;

    closed spec fn view(&self) -> BoardModel {
        BoardModel {
            player: self.player@,
            boxes: cells_of(self.boxes@),
            goals: cells_of(self.goals@),
            walls: cells_of(self.walls@),
        }
    }
}

/// What the player and the box before it mean to do within one step. Nothing on the
/// board carries a direction from one step to the next.
#[derive(Clone, Copy, Debug, PartialEq, Eq, Structural)]
pub struct Intent {
    /// The direction that the player means to step in, if any.
    pub player: Option<Direction>,
    /// The index of the box that means to move with the player, if any.
    pub pushed: Option<usize>,
}

/// The first index at which `v` lists `c`, if it lists it.
pub fn position(v: &Vec<Coordinate>, c: Coordinate) -> (r: Option<usize>)
    ensures
        match r {
            Some(i) => i < v.len() && cells_of(v@)[i as int] == c@ && forall|k: int|
                0 <= k < i ==> cells_of(v@)[k] != c@,
            None => !cells_of(v@).contains(c@),
        },
{
    let ghost cells = cells_of(v@);
    let mut i: usize = 0;
    while i < v.len()
        invariant
            i <= v.len(),
            cells == cells_of(v@),
            forall|k: int| 0 <= k < i ==> cells[k] != c@,
        decreases v.len() - i,
    {
        if v[i].x == c.x && v[i].y == c.y {
            assert(cells[i as int] == c@);
            return Some(i);
        }
        i += 1;
    }
    None
}

/// Whether `c` is listed in `v`.
pub fn lists(v: &Vec<Coordinate>, c: Coordinate) -> (b: bool)
    ensures
        b == cells_of(v@).contains(c@),
{
    position(v, c).is_some()
}

/// Appends to `out` an entity of kind `kind` for each coordinate of `from`, in order.
fn append_entities(out: &mut Vec<Entity>, kind: EntityKind, from: &Vec<Coordinate>)
    ensures
        entities_of(final(out)@) == entities_of(old(out)@) + tagged(kind, cells_of(from@)),
{
    let ghost start = entities_of(out@);
    let ghost all = tagged(kind, cells_of(from@));
    let mut i: usize = 0;
    while i < from.len()
        invariant
            i <= from.len(),
            all == tagged(kind, cells_of(from@)),
            entities_of(out@) == start + all.take(i as int),
        decreases from.len() - i,
    {
        let ghost before = entities_of(out@);
        out.push(Entity { kind, at: from[i] });
        proof {
            assert(entities_of(out@) == before.push((kind, from[i as int]@)));
            assert(all.take(i + 1) == all.take(i as int).push(all[i as int]));
        }
        i += 1;
    }
    proof {
        assert(all.take(all.len() as int) == all);
    }
}

/// Whether every cell listed in `a` is listed in `b`.
fn covered(a: &Vec<Coordinate>, b: &Vec<Coordinate>) -> (r: bool)
    ensures
        r == cells_of(a@).to_set().subset_of(cells_of(b@).to_set()),
{
    let ghost ca = cells_of(a@);
    let ghost cb = cells_of(b@);
    let mut i: usize = 0;
    while i < a.len()
        invariant
            i <= a.len(),
            ca == cells_of(a@),
            cb == cells_of(b@),
            forall|k: int| 0 <= k < i ==> cb.contains(#[trigger] ca[k]),
        decreases a.len() - i,
    {
        if !lists(b, a[i]) {
            assert(ca.contains(ca[i as int]));
            assert(ca.to_set().contains(ca[i as int]));
            return false;
        }
        i += 1;
    }
    true
}

impl Board {
    /// Whether the board's entities stand as a board's may.
    pub open spec fn wf(&self) -> bool {
        self@.valid()
    }

    /// Lays out the board of a level.
    pub fn from_level(level: &Level) -> (board: Board)
        requires
            level.wf(),
        ensures
            board.wf(),
            board@ == board_of(level@),
            board@.within(0, usize::MAX as int),
    {
        let players = level.cells(EntityKind::Player);
        let boxes = level.cells(EntityKind::Box);
        let goals = level.cells(EntityKind::Goal);
        let walls = level.cells(EntityKind::Wall);
        proof {
            lemma_board_of_valid(level@);
            assert(cells_of(players@)[0] == players[0]@);
        }
        Board { player: players[0], boxes, goals, walls }
    }

    /// Whether the boxes cover exactly the goals.
    pub fn is_solved(&self) -> (b: bool)
        ensures
            b == self@.solved(),
            b <==> self@.boxes.to_set() == self@.goals.to_set(),
    {
        let b = covered(&self.boxes, &self.goals) && covered(&self.goals, &self.boxes);
        proof {
            let cs = self@.boxes.to_set();
            let gs = self@.goals.to_set();
            if b {
                assert(cs =~= gs);
            }
        }
        b
    }

    /// The player takes up direction `d`, and so does the box on the cell before the
    /// player, if one stands there.
    fn propose(&self, d: Direction) -> (intent: Intent)
        requires
            self@.target(d).representable(),
        ensures
            intent.player == Some(d),
            intent.pushed is Some == self@.pushes(d),
            intent.pushed matches Some(i) ==> i < self@.boxes.len() && self@.boxes[i as int]
                == self@.target(d),
    {
        let target = self.player.step(d);
        Intent { player: Some(d), pushed: position(&self.boxes, target) }
    }

    /// Gives up what cannot be done: the player's step onto a wall, and the step of both
    /// where the box has a wall or another box behind it.
    fn validate(&self, d: Direction, intent: Intent) -> (kept: Intent)
        requires
            self@.has_room(d),
            intent.player == Some(d),
            intent.pushed is Some == self@.pushes(d),
        ensures
            kept == if self@.rejected(d) {
                Intent { player: None, pushed: None }
            } else {
                intent
            },
    {
        let target = self.player.step(d);
        if lists(&self.walls, target) {
            return Intent { player: None, pushed: None };
        }
        if intent.pushed.is_some() {
            let behind = target.step(d);
            if lists(&self.walls, behind) || lists(&self.boxes, behind) {
                return Intent { player: None, pushed: None };
            }
        }
        intent
    }

    /// Moves what still means to move, each by one cell, and reports it.
    fn commit(&mut self, d: Direction, intent: Intent) -> (out: Outcome)
        requires
            old(self).wf(),
            old(self)@.has_room(d),
            intent.player is Some == !old(self)@.rejected(d),
            intent.pushed is Some == (old(self)@.pushes(d) && !old(self)@.rejected(d)),
            intent.pushed matches Some(i) ==> i < old(self)@.boxes.len() && old(
                self,
            )@.boxes[i as int] == old(self)@.target(d),
        ensures
            final(self)@ == old(self)@.after(d),
            old(self)@.reports(d, out),
    {
        let ghost before = self@;
        if let Some(i) = intent.pushed {
            let moved = self.boxes[i].step(d);
            self.boxes[i] = moved;
        }
        if intent.player.is_some() {
            self.player = self.player.step(d);
        }
        proof {
            let a = before.after(d);
            if !before.rejected(d) {
                assert forall|k: int| 0 <= k < a.boxes.len() implies self@.boxes[k]
                    == a.boxes[k] by {
                    if intent.pushed is Some {
                        let i = intent.pushed->0;
                        if k != i {
                            assert(before.boxes[k] != before.boxes[i as int]);
                        }
                    } else {
                        assert(before.boxes.contains(before.boxes[k]));
                    }
                }
            }
            assert(self@.boxes =~= a.boxes);
        }
        Outcome { player_moved: intent.player.is_some(), pushed: intent.pushed }
    }

    /// Resolves one step in direction `d`: the player walks onto a free cell, pushes the
    /// one box before it onto a free cell, or, where neither can be done, nothing moves.
    pub fn resolve(&mut self, d: Direction) -> (out: Outcome)
        requires
            old(self).wf(),
            old(self)@.has_room(d),
        ensures
            final(self).wf(),
            final(self)@ == old(self)@.after(d),
            old(self)@.reports(d, out),
            old(self)@.walls.contains(old(self)@.target(d)) ==> final(self)@ == old(self)@,
            old(self)@.boxes.contains(old(self)@.target(d)) && old(self)@.boxes.contains(
                old(self)@.beyond(d),
            ) ==> final(self)@ == old(self)@,
    {
        let proposed = self.propose(d);
        let kept = self.validate(d, proposed);
        proof {
            lemma_step_keeps_valid(self@, d);
        }
        self.commit(d, kept)
    }

    /// Whether the machine can hold the cells that a step in direction `d` looks at.
    pub fn has_room(&self, d: Direction) -> (b: bool)
        ensures
            b == self@.has_room(d),
    {
        if !self.player.can_step(d) {
            return false;
        }
        let target = self.player.step(d);
        !lists(&self.boxes, target) || target.can_step(d)
    }

    /// Every live entity with its kind and coordinate: the player first, then the boxes,
    /// the goals and the walls.
    pub fn entities(&self) -> (out: Vec<Entity>)
        ensures
            entities_of(out@) == self@.entities(),
    {
        let mut out: Vec<Entity> = Vec::new();
        out.push(Entity { kind: EntityKind::Player, at: self.player });
        assert(entities_of(out@) == seq![(EntityKind::Player, self@.player)]);
        append_entities(&mut out, EntityKind::Box, &self.boxes);
        append_entities(&mut out, EntityKind::Goal, &self.goals);
        append_entities(&mut out, EntityKind::Wall, &self.walls);
        out
    }

    /// Where the player stands.
    pub fn player(&self) -> (c: Coordinate)
        ensures
            c@ == self@.player,
    {
        self.player
    }

    /// Where the boxes stand, in their fixed order.
    pub fn boxes(&self) -> (v: &Vec<Coordinate>)
        ensures
            cells_of(v@) == self@.boxes,
    {
        &self.boxes
    }

    /// Where the goals lie, in their fixed order.
    pub fn goals(&self) -> (v: &Vec<Coordinate>)
        ensures
            cells_of(v@) == self@.goals,
    {
        &self.goals
    }

    /// Where the walls stand, in their fixed order.
    pub fn walls(&self) -> (v: &Vec<Coordinate>)
        ensures
            cells_of(v@) == self@.walls,
    {
        &self.walls
    }
}

} // verus!
