//! Level descriptors: rectangular grids of characters, one per cell.

use vstd::prelude::*;
use crate::grid::{cells_of, Cell, Coordinate};

verus! {

/// The kinds of entity that a character of a descriptor can place on the board.
#[derive(Clone, Copy, Debug, PartialEq, Eq, Structural)]
pub enum EntityKind {
    Player,
    Box,
    Goal,
    Wall,
}

/// Why a sequence of rows is no level.
#[derive(Clone, Copy, Debug, PartialEq, Eq, Structural)]
pub enum MalformedLevel {
    /// Some row is not as long as the first.
    NotRectangular,
    /// No cell holds a player.
    NoPlayer,
    /// More than one cell holds a player.
    ManyPlayers,
}

/// Whether character `c` places an entity of kind `kind` on its cell.
pub open spec fn marks(kind: EntityKind, c: char) -> bool {
    match kind {
        EntityKind::Wall => c == '#',
        EntityKind::Player => c == '@' || c == '+',
        EntityKind::Box => c == '$' || c == '*',
        EntityKind::Goal => c == '.' || c == '*' || c == '+',
    }
}

/// The cells of row `y` that hold an entity of kind `kind`, from left to right.
pub open spec fn row_cells(row: Seq<char>, y: int, kind: EntityKind) -> Seq<Cell>
    decreases row.len(),
{
    if row.len() == 0 {
        Seq::empty()
    } else {
        let before = row_cells(row.drop_last(), y, kind);
        if marks(kind, row.last()) {
            before.push(Cell { x: row.len() - 1, y })
        } else {
            before
        }
    }
}

/// The cells of a grid that hold an entity of kind `kind`, row by row from the first row
/// and from left to right in each. The character in column `x` of row `y` stands on cell
/// `(x, y)`.
pub open spec fn grid_cells(rows: Seq<Seq<char>>, kind: EntityKind) -> Seq<Cell>
    decreases rows.len(),
{
    if rows.len() == 0 {
        Seq::empty()
    } else {
        grid_cells(rows.drop_last(), kind) + row_cells(rows.last(), rows.len() - 1, kind)
    }
}

/// Whether every row is as long as the first.
pub open spec fn rectangular(rows: Seq<Seq<char>>) -> bool {
    forall|i: int| 0 <= i < rows.len() ==> (#[trigger] rows[i]).len() == rows[0].len()
}

/// What is wrong with a grid, if anything: its shape is judged before its players.
pub open spec fn defect(rows: Seq<Seq<char>>) -> Option<MalformedLevel> {
    let players = grid_cells(rows, EntityKind::Player).len();
    if !rectangular(rows) {
        Some(MalformedLevel::NotRectangular)
    } else if players == 0 {
        Some(MalformedLevel::NoPlayer)
    } else if players > 1 {
        Some(MalformedLevel::ManyPlayers)
    } else {
        None
    }
}

/// The grid that a list of text rows spells out.
pub open spec fn text_grid(lines: Seq<String>) -> Seq<Seq<char>> {
    Seq::new(lines.len(), |i: int| lines[i]@)
}

/// The grids that a list of descriptors spells out.
pub open spec fn text_grids(descriptors: Seq<Vec<String>>) -> Seq<Seq<Seq<char>>> {
    Seq::new(descriptors.len(), |i: int| text_grid(descriptors[i]@))
}

/// The grid that a list of character rows holds.
pub open spec fn char_grid(rows: Seq<Vec<char>>) -> Seq<Seq<char>> {
    Seq::new(rows.len(), |i: int| rows[i]@)
}

/// One puzzle's initial layout: a rectangular grid of characters with exactly one player.
#[derive(Clone, Debug, PartialEq, Eq)]
pub struct Level {
    rows: Vec<Vec<char>>,
}

impl View for Level {
    type V = Seq<Seq<char>>;

    closed spec fn view(&self) -> Seq<Seq<char>> {
        char_grid(self.rows@)
    }
}

/// The ordered levels of one pack.
#[derive(Clone, Debug, PartialEq, Eq)]
pub struct LevelCollection {
    levels: Vec<Level>,
}

impl View for LevelCollection {
    type V = Seq<Seq<Seq<char>>>;

    closed spec fn view(&self) -> Seq<Seq<Seq<char>>> {
        Seq::new(self.levels@.len(), |i: int| self.levels@[i]@)
    }
}

/// The first descriptor of a pack that is no level, and what is wrong with it.
#[derive(Clone, Copy, Debug, PartialEq, Eq, Structural)]
pub struct LoadError {
    /// The index of the descriptor in the pack.
    pub index: usize,
    /// What is wrong with it.
    pub defect: MalformedLevel,
}

/// Whether every grid of the list is a level.
pub open spec fn all_levels(grids: Seq<Seq<Seq<char>>>) -> bool {
    forall|i: int| 0 <= i < grids.len() ==> defect(#[trigger] grids[i]) is None
}

/// Whether `c` places an entity of kind `kind`.
pub fn places(kind: EntityKind, c: char) -> (b: bool)
    ensures
        b == marks(kind, c),
{
    match kind {
        EntityKind::Wall => c == '#',
        EntityKind::Player => c == '@' || c == '+',
        EntityKind::Box => c == '$' || c == '*',
        EntityKind::Goal => c == '.' || c == '*' || c == '+',
    }
}

/// Whether every row is as long as the first.
fn is_rectangular(rows: &Vec<Vec<char>>) -> (b: bool)
    ensures
        b == rectangular(char_grid(rows@)),
{
    let ghost grid = char_grid(rows@);
    let mut i: usize = 0;
    while i < rows.len()
        invariant
            i <= rows.len(),
            grid == char_grid(rows@),
            forall|k: int| 0 <= k < i ==> (#[trigger] grid[k]).len() == grid[0].len(),
        decreases rows.len() - i,
    {
        if rows[i].len() != rows[0].len() {
            assert(grid[i as int].len() != grid[0].len());
            return false;
        }
        i += 1;
    }
    true
}

/// The number of players on the grid, counted no further than two.
fn players_up_to_two(rows: &Vec<Vec<char>>) -> (n: u8)
    ensures
        n <= 2,
        n < 2 ==> n == grid_cells(char_grid(rows@), EntityKind::Player).len(),
        n == 2 ==> grid_cells(char_grid(rows@), EntityKind::Player).len() >= 2,
{
    let ghost grid = char_grid(rows@);
    let mut n: u8 = 0;
    let mut y: usize = 0;
    while y < rows.len()
        invariant
            y <= rows.len(),
            grid == char_grid(rows@),
            n <= 1,
            n == grid_cells(grid.take(y as int), EntityKind::Player).len(),
        decreases rows.len() - y,
    {
        let row = &rows[y];
        let ghost above = grid_cells(grid.take(y as int), EntityKind::Player);
        let mut x: usize = 0;
        while x < row.len()
            invariant
                x <= row.len(),
                y < rows.len(),
                grid == char_grid(rows@),
                row@ == grid[y as int],
                above == grid_cells(grid.take(y as int), EntityKind::Player),
                n <= 1,
                n == above.len() + row_cells(row@.take(x as int), y as int, EntityKind::Player).len(),
            decreases row.len() - x,
        {
            let here = places(EntityKind::Player, row[x]);
            proof {
                assert(row@.take(x + 1).drop_last() == row@.take(x as int));
            }
            if here {
                if n == 1 {
                    proof {
                        lemma_row_cells_prefix(row@, x + 1, y as int, EntityKind::Player);
                        lemma_grid_cells_prefix(grid, y + 1, EntityKind::Player);
                        assert(grid.take(y + 1).drop_last() == grid.take(y as int));
                    }
                    return 2;
                }
                n = 1;
            }
            x += 1;
        }
        proof {
            assert(row@.take(row@.len() as int) == row@);
            assert(grid.take(y + 1).drop_last() == grid.take(y as int));
        }
        y += 1;
    }
    proof {
        assert(grid.take(grid.len() as int) == grid);
    }
    n
}

/// A row holds at least as many marked cells as any of its prefixes.
pub proof fn lemma_row_cells_prefix(row: Seq<char>, n: int, y: int, kind: EntityKind)
    requires
        0 <= n <= row.len(),
    ensures
        row_cells(row.take(n), y, kind).len() <= row_cells(row, y, kind).len(),
    decreases row.len() - n,
{
    if n == row.len() {
        assert(row.take(n) == row);
    } else {
        lemma_row_cells_prefix(row, n + 1, y, kind);
        assert(row.take(n + 1).drop_last() == row.take(n));
    }
}

/// A grid holds at least as many marked cells as any of its leading rows.
pub proof fn lemma_grid_cells_prefix(rows: Seq<Seq<char>>, n: int, kind: EntityKind)
    requires
        0 <= n <= rows.len(),
    ensures
        grid_cells(rows.take(n), kind).len() <= grid_cells(rows, kind).len(),
    decreases rows.len() - n,
{
    if n == rows.len() {
        assert(rows.take(n) == rows);
    } else {
        lemma_grid_cells_prefix(rows, n + 1, kind);
        assert(rows.take(n + 1).drop_last() == rows.take(n));
    }
}

/// Whether the grid has a character on cell `c` that places an entity of kind `kind`.
pub open spec fn holds(rows: Seq<Seq<char>>, kind: EntityKind, c: Cell) -> bool {
    &&& 0 <= c.y < rows.len()
    &&& 0 <= c.x < rows[c.y].len()
    &&& marks(kind, rows[c.y][c.x])
}

/// The marked cells of a row are those of its marked characters, each listed once.
pub proof fn lemma_row_cells(row: Seq<char>, y: int, kind: EntityKind)
    ensures
        row_cells(row, y, kind).no_duplicates(),
        forall|c: Cell| #[trigger]
            row_cells(row, y, kind).contains(c) <==> c.y == y && 0 <= c.x < row.len() && marks(
                kind,
                row[c.x],
            ),
    decreases row.len(),
{
    let cells = row_cells(row, y, kind);
    if row.len() > 0 {
        let before = row_cells(row.drop_last(), y, kind);
        let last = Cell { x: row.len() - 1, y };
        lemma_row_cells(row.drop_last(), y, kind);
        assert(!before.contains(last));
        assert forall|c: Cell| #[trigger]
            cells.contains(c) <==> c.y == y && 0 <= c.x < row.len() && marks(kind, row[c.x]) by {
            if marks(kind, row.last()) {
                assert(cells == before.push(last));
                if cells.contains(c) {
                    let i = choose|i: int| 0 <= i < cells.len() && cells[i] == c;
                    if i < before.len() {
                        assert(before[i] == c);
                        assert(before.contains(c));
                    }
                }
                if c == last {
                    assert(cells[before.len() as int] == c);
                } else if before.contains(c) {
                    let i = choose|i: int| 0 <= i < before.len() && before[i] == c;
                    assert(cells[i] == c);
                }
            } else {
                assert(before.contains(c) ==> c.x < row.len() - 1);
            }
        }
        if marks(kind, row.last()) {
            assert forall|i: int, j: int| 0 <= i < cells.len() && 0 <= j < cells.len() && i != j
                implies cells[i] != cells[j] by {
                if i < before.len() {
                    assert(before.contains(before[i]));
                }
                if j < before.len() {
                    assert(before.contains(before[j]));
                }
            }
        }
    }
}

/// The marked cells of a grid are those of its marked characters, each listed once.
pub proof fn lemma_grid_cells(rows: Seq<Seq<char>>, kind: EntityKind)
    ensures
        grid_cells(rows, kind).no_duplicates(),
        forall|c: Cell| #[trigger] grid_cells(rows, kind).contains(c) <==> holds(rows, kind, c),
    decreases rows.len(),
{
    let cells = grid_cells(rows, kind);
    if rows.len() > 0 {
        let above = grid_cells(rows.drop_last(), kind);
        let y = rows.len() - 1;
        let here = row_cells(rows.last(), y, kind);
        lemma_grid_cells(rows.drop_last(), kind);
        lemma_row_cells(rows.last(), y, kind);
        assert(cells == above + here);
        assert forall|c: Cell| #[trigger] cells.contains(c) <==> holds(rows, kind, c) by {
            if cells.contains(c) {
                let i = choose|i: int| 0 <= i < cells.len() && cells[i] == c;
                if i < above.len() {
                    assert(above[i] == c);
                    assert(above.contains(c));
                    assert(holds(rows.drop_last(), kind, c));
                } else {
                    assert(here[i - above.len()] == c);
                    assert(here.contains(c));
                }
            }
            if holds(rows, kind, c) {
                if c.y < y {
                    assert(rows.drop_last()[c.y] == rows[c.y]);
                    assert(holds(rows.drop_last(), kind, c));
                    assert(above.contains(c));
                    let i = choose|i: int| 0 <= i < above.len() && above[i] == c;
                    assert(cells[i] == c);
                } else {
                    assert(here.contains(c));
                    let i = choose|i: int| 0 <= i < here.len() && here[i] == c;
                    assert(cells[above.len() + i] == c);
                }
            }
        }
        assert forall|i: int, j: int| 0 <= i < cells.len() && 0 <= j < cells.len() && i != j
            implies cells[i] != cells[j] by {
            if i < above.len() {
                assert(above.contains(above[i]));
                assert(holds(rows.drop_last(), kind, above[i]));
            } else {
                assert(here.contains(here[i - above.len()]));
            }
            if j < above.len() {
                assert(above.contains(above[j]));
                assert(holds(rows.drop_last(), kind, above[j]));
            } else {
                assert(here.contains(here[j - above.len()]));
            }
        }
    }
}

/// What is wrong with a grid, if anything.
fn find_defect(rows: &Vec<Vec<char>>) -> (d: Option<MalformedLevel>)
    ensures
        d == defect(char_grid(rows@)),
{
    if !is_rectangular(rows) {
        return Some(MalformedLevel::NotRectangular);
    }
    let n = players_up_to_two(rows);
    if n == 0 {
        Some(MalformedLevel::NoPlayer)
    } else if n == 2 {
        Some(MalformedLevel::ManyPlayers)
    } else {
        None
    }
}

/// The characters of a text row, in order.
fn chars_of(line: &str) -> (row: Vec<char>)
    ensures
        row@ == line@,
{
    let mut row: Vec<char> = Vec::new();
    for c in it: line.chars()
        invariant
            it.seq() == line@,
            row@ == it.seq().take(it.index()),
    {
        row.push(c);
    }
    row
}

impl Level {
    /// Whether the grid is a level: rectangular, with exactly one player.
    pub open spec fn wf(&self) -> bool {
        defect(self@) is None
    }

    /// Makes a level of rows of characters, or says what is wrong with them.
    pub fn from_rows(rows: Vec<Vec<char>>) -> (r: Result<Level, MalformedLevel>)
        ensures
            match r {
                Ok(level) => level.wf() && level@ == char_grid(rows@),
                Err(e) => defect(char_grid(rows@)) == Some(e),
            },
    {
        match find_defect(&rows) {
            Some(e) => Err(e),
            None => Ok(Level { rows }),
        }
    }

    /// Makes a level of rows of text, or says what is wrong with them.
    pub fn new(lines: &[String]) -> (r: Result<Level, MalformedLevel>)
        ensures
            match r {
                Ok(level) => level.wf() && level@ == text_grid(lines@),
                Err(e) => defect(text_grid(lines@)) == Some(e),
            },
    {
        let ghost grid = text_grid(lines@);
        let mut rows: Vec<Vec<char>> = Vec::new();
        let mut i: usize = 0;
        while i < lines.len()
            invariant
                i <= lines.len(),
                rows.len() == i,
                forall|k: int| 0 <= k < i ==> (#[trigger] rows[k])@ == lines[k]@,
            decreases lines.len() - i,
        {
            rows.push(chars_of(lines[i].as_str()));
            i += 1;
        }
        assert(char_grid(rows@) == text_grid(lines@));
        Level::from_rows(rows)
    }

    /// The cells that hold an entity of kind `kind`, row by row and from left to right.
    pub fn cells(&self, kind: EntityKind) -> (out: Vec<Coordinate>)
        ensures
            cells_of(out@) == grid_cells(self@, kind),
            forall|i: int|
                0 <= i < out@.len() ==> 0 <= (#[trigger] out@[i]).x <= usize::MAX && 0 <= out@[i].y
                    <= usize::MAX,
    {
        let ghost grid = self@;
        let mut out: Vec<Coordinate> = Vec::new();
        let mut y: usize = 0;
        while y < self.rows.len()
            invariant
                y <= self.rows.len(),
                grid == self@,
                cells_of(out@) == grid_cells(grid.take(y as int), kind),
                forall|i: int|
                    0 <= i < out@.len() ==> 0 <= (#[trigger] out@[i]).x <= usize::MAX && 0
                        <= out@[i].y <= usize::MAX,
            decreases self.rows.len() - y,
        {
            let row = &self.rows[y];
            let ghost above = grid_cells(grid.take(y as int), kind);
            let mut x: usize = 0;
            while x < row.len()
                invariant
                    x <= row.len(),
                    y < self.rows.len(),
                    grid == self@,
                    row@ == grid[y as int],
                    forall|i: int|
                        0 <= i < out@.len() ==> 0 <= (#[trigger] out@[i]).x <= usize::MAX && 0
                            <= out@[i].y <= usize::MAX,
                    cells_of(out@) == above + row_cells(row@.take(x as int), y as int, kind),
                decreases row.len() - x,
            {
                proof {
                    assert(row@.take(x + 1).drop_last() == row@.take(x as int));
                }
                if places(kind, row[x]) {
                    let ghost before = out@;
                    out.push(Coordinate { x: x as i128, y: y as i128 });
                    proof {
                        assert(cells_of(out@) == cells_of(before).push(Cell { x: x as int, y: y as int }));
                    }
                }
                x += 1;
            }
            proof {
                assert(row@.take(row@.len() as int) == row@);
                assert(grid.take(y + 1).drop_last() == grid.take(y as int));
            }
            y += 1;
        }
        proof {
            assert(grid.take(grid.len() as int) == grid);
        }
        out
    }

    /// The number of rows.
    pub fn height(&self) -> (h: usize)
        ensures
            h == self@.len(),
    {
        self.rows.len()
    }

    /// The number of columns, which is 0 for a grid without rows.
    pub fn width(&self) -> (w: usize)
        ensures
            w == if self@.len() == 0 { 0 } else { self@[0].len() },
    {
        if self.rows.len() == 0 {
            0
        } else {
            self.rows[0].len()
        }
    }

    /// The character in column `x` of row `y`, if the grid has such a cell.
    pub fn tile(&self, x: usize, y: usize) -> (c: Option<char>)
        ensures
            c == if y < self@.len() && x < self@[y as int].len() {
                Some(self@[y as int][x as int])
            } else {
                None
            },
    {
        if y < self.rows.len() && x < self.rows[y].len() {
            Some(self.rows[y][x])
        } else {
            None
        }
    }
}

impl LevelCollection {
    /// Whether every member is a level.
    pub open spec fn wf(&self) -> bool {
        all_levels(self@)
    }

    /// Makes a pack of levels, in the order given.
    pub fn new(levels: Vec<Level>) -> (pack: LevelCollection)
        requires
            forall|i: int| 0 <= i < levels.len() ==> (#[trigger] levels[i]).wf(),
        ensures
            pack.wf(),
            pack@ == Seq::new(levels@.len(), |i: int| levels@[i]@),
    {
        let pack = LevelCollection { levels };
        assert forall|i: int| 0 <= i < pack@.len() implies defect(#[trigger] pack@[i]) is None by {
            assert(pack.levels[i].wf());
        }
        pack
    }

    /// The number of levels.
    pub fn len(&self) -> (n: usize)
        ensures
            n == self@.len(),
    {
        self.levels.len()
    }

    /// The level at `index`.
    pub fn level(&self, index: usize) -> (level: &Level)
        requires
            self.wf(),
            index < self@.len(),
        ensures
            level.wf(),
            level@ == self@[index as int],
    {
        assert(defect(self@[index as int]) is None);
        &self.levels[index]
    }
}

/// Makes the levels of a pack of descriptors, each a list of text rows. The first
/// descriptor that is no level stops the loading and is reported with its index.
pub fn load_levels(descriptors: &[Vec<String>]) -> (r: Result<LevelCollection, LoadError>)
    ensures
        match r {
            Ok(pack) => pack.wf() && pack@ == text_grids(descriptors@),
            Err(e) => {
                &&& e.index < descriptors@.len()
                &&& defect(text_grids(descriptors@)[e.index as int]) == Some(e.defect)
                &&& forall|k: int|
                    0 <= k < e.index ==> defect(#[trigger] text_grids(descriptors@)[k]) is None
            },
        },
{
    let ghost grids = text_grids(descriptors@);
    let mut levels: Vec<Level> = Vec::new();
    let mut i: usize = 0;
    while i < descriptors.len()
        invariant
            i <= descriptors.len(),
            grids == text_grids(descriptors@),
            levels.len() == i,
            forall|k: int| 0 <= k < i ==> (#[trigger] levels[k]).wf() && levels[k]@ == grids[k],
        decreases descriptors.len() - i,
    {
        match Level::new(descriptors[i].as_slice()) {
            Ok(level) => {
                levels.push(level);
            },
            Err(defect) => {
                assert forall|k: int| 0 <= k < i implies crate::level::defect(
                    #[trigger] grids[k],
                ) is None by {
                    assert(levels[k].wf());
                }
                return Err(LoadError { index: i, defect });
            },
        }
        i += 1;
    }
    let pack = LevelCollection::new(levels);
    assert(pack@ =~= grids);
    Ok(pack)
}

} // verus!
