//! The game: a session and the board of its current level, driven by one command at a time.

use vstd::prelude::*;
use crate::board::{board_of, lemma_board_of_valid, Board, BoardModel};
use crate::grid::Direction;
use crate::level::LevelCollection;
use crate::motion::{lemma_step_drifts_by_one, lemma_step_keeps_valid, Outcome};
use crate::session::{Session, SessionModel};

verus! {

/// What a player can ask of the game.
#[derive(Clone, Copy, Debug, PartialEq, Eq, Structural)]
pub enum Command {
    Up,
    Down,
    Left,
    Right,
    Restart,
    NextLevel,
    PreviousLevel,
}

/// A command code that names no command.
#[derive(Clone, Copy, Debug, PartialEq, Eq, Structural)]
pub struct IllegalCommand {
    /// The code that was handed in.
    pub code: u8,
}

/// The command that a code names: 0 to 3 are up, down, left and right, 4 restarts the
/// level, 5 goes to the next level and 6 to the one before. No other code names one.
pub open spec fn decode(code: u8) -> Option<Command> {
    if code == 0 {
        Some(Command::Up)
    } else if code == 1 {
        Some(Command::Down)
    } else if code == 2 {
        Some(Command::Left)
    } else if code == 3 {
        Some(Command::Right)
    } else if code == 4 {
        Some(Command::Restart)
    } else if code == 5 {
        Some(Command::NextLevel)
    } else if code == 6 {
        Some(Command::PreviousLevel)
    } else {
        None
    }
}

impl Command {
    /// The direction of a command to move, and none for the others.
    pub open spec fn heading(self) -> Option<Direction> {
        match self {
            Command::Up => Some(Direction::North),
            Command::Down => Some(Direction::South),
            Command::Left => Some(Direction::West),
            Command::Right => Some(Direction::East),
            _ => None,
        }
    }

    /// The direction of a command to move, and none for the others.
    #[verifier::when_used_as_spec(heading)]
    pub fn direction(self) -> (d: Option<Direction>)
        ensures
            d == self.heading(),
    {
        match self {
            Command::Up => Some(Direction::North),
            Command::Down => Some(Direction::South),
            Command::Left => Some(Direction::West),
            Command::Right => Some(Direction::East),
            _ => None,
        }
    }

    /// The command that a code names, or the code back where it names none.
    pub fn from_code(code: u8) -> (r: Result<Command, IllegalCommand>)
        ensures
            match r {
                Ok(command) => decode(code) == Some(command),
                Err(e) => decode(code) is None && e.code == code,
            },
    {
        match code {
            0 => Ok(Command::Up),
            1 => Ok(Command::Down),
            2 => Ok(Command::Left),
            3 => Ok(Command::Right),
            4 => Ok(Command::Restart),
            5 => Ok(Command::NextLevel),
            6 => Ok(Command::PreviousLevel),
            _ => Err(IllegalCommand { code }),
        }
    }
}

/// The command of the arrow keys that are pressed: up goes before down, down before
/// right, and right before left. No arrow gives no command.
pub fn arrow_command(up: bool, down: bool, right: bool, left: bool) -> (r: Option<Command>)
    ensures
        r == if up {
            Some(Command::Up)
        } else if down {
            Some(Command::Down)
        } else if right {
            Some(Command::Right)
        } else if left {
            Some(Command::Left)
        } else {
            None
        },
{
    if up {
        Some(Command::Up)
    } else if down {
        Some(Command::Down)
    } else if right {
        Some(Command::Right)
    } else if left {
        Some(Command::Left)
    } else {
        None
    }
}

/// The commands of the level keys that are pressed, in the order in which they are
/// carried out.
pub open spec fn level_keys(restart: bool, next: bool, previous: bool) -> Seq<Command> {
    if next && previous {
        seq![Command::NextLevel, Command::PreviousLevel]
    } else if next {
        seq![Command::NextLevel]
    } else if previous {
        seq![Command::PreviousLevel]
    } else if restart {
        seq![Command::Restart]
    } else {
        Seq::empty()
    }
}

/// The commands of the level keys that are pressed: the key for the next level goes
/// before the key for the previous one, and the key to restart counts only alone, since
/// a change of level starts the level afresh as well.
pub fn level_commands(restart: bool, next: bool, previous: bool) -> (r: Vec<Command>)
    ensures
        r@ == level_keys(restart, next, previous),
{
    let mut r: Vec<Command> = Vec::new();
    if next {
        r.push(Command::NextLevel);
    }
    if previous {
        r.push(Command::PreviousLevel);
    }
    if restart && !next && !previous {
        r.push(Command::Restart);
    }
    r
}

/// A game as contracts speak of it.
pub struct GameModel {
    pub session: SessionModel,
    pub board: BoardModel,
}

impl GameModel {
    /// The session and the board are valid.
    pub open spec fn valid(self) -> bool {
        self.session.valid() && self.board.valid()
    }

    /// The game at the start of level `index`: no move made, and the board as the level's
    /// descriptor lays it out.
    pub open spec fn enter(self, index: int) -> GameModel {
        GameModel {
            session: self.session.enter(index),
            board: board_of(self.session.levels[index]),
        }
    }

    /// The game after a step in direction `d`: the board after the step, and one more move
    /// counted unless the step was rejected.
    pub open spec fn step(self, d: Direction) -> GameModel {
        GameModel {
            session: if self.board.rejected(d) {
                self.session
            } else {
                self.session.counted()
            },
            board: self.board.after(d),
        }
    }

    /// The game after a restart of the current level.
    pub open spec fn restart(self) -> GameModel {
        self.enter(self.session.current)
    }

    /// The game after going to the next level, which is the current one where it is the last.
    pub open spec fn next_level(self) -> GameModel {
        self.enter(self.session.next_index())
    }

    /// The game after going to the level before, which is the current one where it is the
    /// first.
    pub open spec fn previous_level(self) -> GameModel {
        self.enter(self.session.previous_index())
    }

    /// The game after the win transition: a solved board gives way to the next level, and
    /// an unsolved one stays.
    pub open spec fn win(self) -> GameModel {
        if self.board.solved() {
            self.next_level()
        } else {
            self
        }
    }

    /// The game after one command. A command to move is a step, followed by the win
    /// transition where the step moved anything.
    pub open spec fn apply(self, command: Command) -> GameModel {
        match command.heading() {
            Some(d) => if self.board.rejected(d) {
                self
            } else {
                self.step(d).win()
            },
            None => match command {
                Command::Restart => self.restart(),
                Command::NextLevel => self.next_level(),
                _ => self.previous_level(),
            },
        }
    }
}

/// The count of moves goes up by one with every step that moves the player, and stays
/// with every step that does not. Nothing else changes in the session.
pub proof fn lemma_moves_count_player_steps(g: GameModel, d: Direction)
    ensures
        g.step(d).session.moves == g.session.moves + if g.step(d).board.player != g.board.player {
            1int
        } else {
            0int
        },
        g.step(d).session.levels == g.session.levels,
        g.step(d).session.current == g.session.current,
{
}

/// A step towards a wall leaves the whole game as it was, the count of moves too.
pub proof fn lemma_wall_stops_game(g: GameModel, d: Direction)
    requires
        g.board.walls.contains(g.board.target(d)),
    ensures
        g.step(d) == g,
{
}

/// A push against a second box leaves the whole game as it was.
pub proof fn lemma_two_boxes_stop_game(g: GameModel, d: Direction)
    requires
        g.board.boxes.contains(g.board.target(d)),
        g.board.boxes.contains(g.board.beyond(d)),
    ensures
        g.step(d) == g,
{
}

/// Going on from the last level stays on it, and going back from the first stays on it.
/// Anywhere else the index moves by one.
pub proof fn lemma_navigation_stops_at_the_ends(g: GameModel)
    requires
        g.valid(),
    ensures
        g.session.current == g.session.levels.len() - 1 ==> g.next_level().session.current
            == g.session.current,
        g.session.current == 0 ==> g.previous_level().session.current == g.session.current,
        g.session.current < g.session.levels.len() - 1 ==> g.next_level().session.current
            == g.session.current + 1,
        g.session.current > 0 ==> g.previous_level().session.current == g.session.current - 1,
        0 <= g.next_level().session.current < g.session.levels.len(),
        0 <= g.previous_level().session.current < g.session.levels.len(),
{
}

/// Whether the game stands at the start of its current level: no move made, and the
/// board as the level's descriptor lays it out.
pub open spec fn at_level_start(g: GameModel) -> bool {
    &&& g.session.moves == 0
    &&& g.board == board_of(g.session.levels[g.session.current])
}

/// Every change of level, be it a restart, a step to the next or the previous level, or
/// the win transition on a solved board, leaves a valid game at the start of its level,
/// with the same levels as before.
pub proof fn lemma_level_change_starts_afresh(g: GameModel)
    requires
        g.valid(),
    ensures
        at_level_start(g.restart()) && g.restart().valid(),
        at_level_start(g.next_level()) && g.next_level().valid(),
        at_level_start(g.previous_level()) && g.previous_level().valid(),
        g.board.solved() ==> at_level_start(g.win()) && g.win().valid(),
        !g.board.solved() ==> g.win() == g,
        g.restart().session.levels == g.session.levels,
        g.next_level().session.levels == g.session.levels,
        g.previous_level().session.levels == g.session.levels,
        g.restart().session.current == g.session.current,
{
    lemma_board_of_valid(g.session.levels[g.session.current]);
    lemma_board_of_valid(g.session.levels[g.session.next_index()]);
    lemma_board_of_valid(g.session.levels[g.session.previous_index()]);
}

/// Every command leaves a valid game valid.
pub proof fn lemma_command_keeps_valid(g: GameModel, command: Command)
    requires
        g.valid(),
    ensures
        g.apply(command).valid(),
{
    lemma_level_change_starts_afresh(g);
    if command.heading() is Some {
        let d = command.heading()->0;
        lemma_step_keeps_valid(g.board, d);
        lemma_level_change_starts_afresh(g.step(d));
    }
}

/// What one command did.
#[derive(Clone, Copy, Debug, PartialEq, Eq, Structural)]
pub struct Report {
    /// Which entities the command moved.
    pub outcome: Outcome,
    /// Whether the move solved the puzzle, so that the win transition followed.
    pub won: bool,
}

impl GameModel {
    /// Whether `report` says what the command did to the game: a command to move reports
    /// its step, and has won where the step was not rejected and left the board solved;
    /// any other command moves nothing and wins nothing.
    pub open spec fn reported(self, command: Command, report: Report) -> bool {
        match command.heading() {
            Some(d) => {
                &&& self.board.reports(d, report.outcome)
                &&& report.won == (!self.board.rejected(d) && self.board.after(d).solved())
            },
            None => !report.outcome.moved() && !report.won,
        }
    }
}

/// A session together with the board of its current level.
#[derive(Clone, Debug)]
pub struct Game {
    session: Session,
    board: Board,
}

impl View for Game {
    type V = GameModel;

    closed spec fn view(&self) -> GameModel {
        GameModel { session: self.session@, board: self.board@ }
    }
}

impl Game {
    /// Whether the game is one that play can go on from: its parts are valid, and no
    /// entity has gone further from the level's rectangle than the moves made allow.
    pub open spec fn wf(&self) -> bool {
        &&& self@.valid()
        &&& self@.session.moves <= u32::MAX
        &&& self@.board.within(-self@.session.moves, usize::MAX + self@.session.moves)
    }

    /// Lays out the board of the session's current level anew.
    fn rebuild(&mut self)
        requires
            old(self).session.wf(),
            old(self).session@.moves == 0,
        ensures
            final(self).wf(),
            final(self)@ == old(self)@.enter(old(self)@.session.current),
    {
        let level = self.session.level();
        proof {
            lemma_board_of_valid(level@);
        }
        self.board = Board::from_level(level);
    }

    /// Starts a game on the first level of a pack; an empty pack gives none.
    pub fn new(levels: LevelCollection) -> (r: Option<Game>)
        requires
            levels.wf(),
        ensures
            r is Some == (levels@.len() >= 1),
            r matches Some(g) ==> g.wf() && g@.session == (SessionModel {
                levels: levels@,
                current: 0,
                moves: 0,
            }) && g@.board == board_of(levels@[0]),
    {
        match Session::new(levels) {
            None => None,
            Some(session) => {
                let level = session.level();
                proof {
                    lemma_board_of_valid(level@);
                }
                let board = Board::from_level(level);
                Some(Game { session, board })
            },
        }
    }

    /// Resolves one step in direction `d` and counts the move if the player made one.
    pub fn resolve(&mut self, d: Direction) -> (out: Outcome)
        requires
            old(self).wf(),
            old(self)@.session.moves < u32::MAX,
        ensures
            final(self).wf(),
            final(self)@ == old(self)@.step(d),
            old(self)@.board.reports(d, out),
            final(self)@.session.moves == old(self)@.session.moves + if final(self)@.board.player
                != old(self)@.board.player {
                1int
            } else {
                0int
            },
            old(self)@.board.walls.contains(old(self)@.board.target(d)) ==> final(self)@ == old(
                self,
            )@,
            old(self)@.board.boxes.contains(old(self)@.board.target(d)) && old(
                self,
            )@.board.boxes.contains(old(self)@.board.beyond(d)) ==> final(self)@ == old(self)@,
    {
        let ghost before = self@;
        proof {
            lemma_step_drifts_by_one(
                before.board,
                d,
                -before.session.moves,
                usize::MAX + before.session.moves,
            );
        }
        let out = self.board.resolve(d);
        if out.player_moved {
            self.session.count_move();
        }
        out
    }

    /// Starts the current level again: no move made, and the board laid out anew.
    pub fn restart(&mut self)
        requires
            old(self).wf(),
        ensures
            final(self).wf(),
            final(self)@ == old(self)@.restart(),
    {
        self.session.restart();
        self.rebuild();
    }

    /// Goes to the next level, or starts the last one again where it is the current one.
    pub fn next_level(&mut self)
        requires
            old(self).wf(),
        ensures
            final(self).wf(),
            final(self)@ == old(self)@.next_level(),
    {
        self.session.next_level();
        self.rebuild();
    }

    /// Goes to the level before, or starts the first one again where it is the current one.
    pub fn previous_level(&mut self)
        requires
            old(self).wf(),
        ensures
            final(self).wf(),
            final(self)@ == old(self)@.previous_level(),
    {
        self.session.previous_level();
        self.rebuild();
    }

    /// The win transition: where the board is solved, goes to the next level and says so.
    pub fn advance_if_solved(&mut self) -> (won: bool)
        requires
            old(self).wf(),
        ensures
            final(self).wf(),
            won == old(self)@.board.solved(),
            final(self)@ == old(self)@.win(),
    {
        if self.board.is_solved() {
            self.next_level();
            true
        } else {
            false
        }
    }

    /// Carries out one command as a whole. A command to move is a step; where the step
    /// moved anything and left the board solved, the win transition follows at once.
    pub fn apply(&mut self, command: Command) -> (report: Report)
        requires
            old(self).wf(),
            command.heading() is Some ==> old(self)@.session.moves < u32::MAX,
        ensures
            final(self).wf(),
            final(self)@ == old(self)@.apply(command),
            old(self)@.reported(command, report),
    {
        match command.direction() {
            Some(d) => {
                let outcome = self.resolve(d);
                let won = if outcome.any_moved() {
                    self.advance_if_solved()
                } else {
                    false
                };
                Report { outcome, won }
            },
            None => {
                match command {
                    Command::Restart => self.restart(),
                    Command::NextLevel => self.next_level(),
                    _ => self.previous_level(),
                }
                Report { outcome: Outcome { player_moved: false, pushed: None }, won: false }
            },
        }
    }

    /// Carries out the command that a code names. A code that names none is rejected, and
    /// the game stays as it was.
    pub fn submit(&mut self, code: u8) -> (r: Result<Report, IllegalCommand>)
        requires
            old(self).wf(),
            decode(code) matches Some(command) && command.heading() is Some ==> old(
                self,
            )@.session.moves < u32::MAX,
        ensures
            final(self).wf(),
            match r {
                Ok(report) => decode(code) is Some && final(self)@ == old(self)@.apply(
                    decode(code)->0,
                ) && old(self)@.reported(decode(code)->0, report),
                Err(e) => decode(code) is None && e.code == code && final(self)@ == old(self)@,
            },
    {
        match Command::from_code(code) {
            Ok(command) => Ok(self.apply(command)),
            Err(e) => Err(e),
        }
    }

    /// The session: the levels, the index of the current one, and the moves made on it.
    pub fn session(&self) -> (s: &Session)
        ensures
            s@ == self@.session,
    {
        &self.session
    }

    /// The board of the current level as it stands.
    pub fn board(&self) -> (b: &Board)
        ensures
            b@ == self@.board,
    {
        &self.board
    }

    /// The index of the level being played.
    pub fn current(&self) -> (i: usize)
        ensures
            i == self@.session.current,
    {
        self.session.current()
    }

    /// The moves made on the level being played.
    pub fn move_count(&self) -> (n: u32)
        ensures
            n == self@.session.moves,
    {
        self.session.move_count()
    }

    /// Whether the boxes cover exactly the goals.
    pub fn is_solved(&self) -> (b: bool)
        ensures
            b == self@.board.solved(),
    {
        self.board.is_solved()
    }
}

} // verus!
