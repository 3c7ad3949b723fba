use sokoban::board::Board;
use sokoban::game::{Command, Game, IllegalCommand, Report};
use sokoban::grid::{Coordinate, Direction};
use sokoban::level::{load_levels, Level, LevelCollection, LoadError, MalformedLevel};
use sokoban::motion::Outcome;
use sokoban::session::Session;

fn rows(text: &[&str]) -> Vec<String> {
    text.iter().map(|r| r.to_string()).collect()
}

fn pack(levels: &[&[&str]]) -> LevelCollection {
    let descriptors: Vec<Vec<String>> = levels.iter().map(|l| rows(l)).collect();
    load_levels(&descriptors).expect("a pack of levels")
}

fn game(levels: &[&[&str]]) -> Game {
    Game::new(pack(levels)).expect("a game")
}

fn at(x: i128, y: i128) -> Coordinate {
    Coordinate { x, y }
}

fn same_board(a: &Board, b: &Board) -> bool {
    a == b
        && a.player() == b.player()
        && a.boxes() == b.boxes()
        && a.goals() == b.goals()
        && a.walls() == b.walls()
        && a.entities() == b.entities()
}

const FIRST: &[&str] = &["#####", "#@$.#", "#####"];
const SECOND: &[&str] = &["######", "#@ $.#", "######"];
const THIRD: &[&str] = &["####", "#@$$", "####"];

#[test]
fn load_levels_keeps_the_order() {
    let p = pack(&[FIRST, SECOND, THIRD]);
    assert_eq!(p.len(), 3);
    assert_eq!(p.level(0).width(), 5);
    assert_eq!(p.level(1).width(), 6);
    assert_eq!(p.level(2).width(), 4);
}

#[test]
fn load_levels_reports_the_first_malformed_descriptor() {
    let descriptors = vec![rows(FIRST), rows(&["#$.#"]), rows(&["@@"]), rows(&["@", "##"])];
    assert_eq!(
        load_levels(&descriptors).err(),
        Some(LoadError { index: 1, defect: MalformedLevel::NoPlayer })
    );
    let descriptors = vec![rows(FIRST), rows(SECOND), rows(&["@", "##"])];
    assert_eq!(
        load_levels(&descriptors).err(),
        Some(LoadError { index: 2, defect: MalformedLevel::NotRectangular })
    );
    let descriptors = vec![rows(&["@+"])];
    assert_eq!(
        load_levels(&descriptors).err(),
        Some(LoadError { index: 0, defect: MalformedLevel::ManyPlayers })
    );
}

#[test]
fn empty_pack_gives_no_game() {
    let none: Vec<Vec<String>> = Vec::new();
    let p = load_levels(&none).expect("an empty pack");
    assert_eq!(p.len(), 0);
    assert!(Game::new(p).is_none());
    assert!(Session::new(LevelCollection::new(Vec::new())).is_none());
}

#[test]
fn collection_of_levels_made_by_hand() {
    let a = Level::new(&rows(FIRST)).expect("a level");
    let b = Level::new(&rows(THIRD)).expect("a level");
    let p = LevelCollection::new(vec![a, b]);
    assert_eq!(p.len(), 2);
    assert_eq!(p.level(1).tile(3, 1), Some('$'));
}

#[test]
fn new_game_starts_on_the_first_level() {
    let g = game(&[FIRST, SECOND]);
    assert_eq!(g.current(), 0);
    assert_eq!(g.move_count(), 0);
    assert_eq!(g.session().level_count(), 2);
    assert_eq!(g.session().current(), 0);
    assert_eq!(g.session().move_count(), 0);
    assert_eq!(g.session().level().width(), 5);
    assert!(!g.is_solved());
    assert!(same_board(g.board(), &Board::from_level(&Level::new(&rows(FIRST)).unwrap())));
}

#[test]
fn push_onto_the_goal_solves_and_advances() {
    let mut g = game(&[FIRST, SECOND]);
    let out = g.resolve(Direction::East);
    assert_eq!(out, Outcome { player_moved: true, pushed: Some(0) });
    assert_eq!(g.board().player(), at(2, 1));
    assert_eq!(g.board().boxes(), &vec![at(3, 1)]);
    assert_eq!(g.move_count(), 1);
    assert!(g.is_solved());
    assert!(g.advance_if_solved());
    assert_eq!(g.current(), 1);
    assert_eq!(g.move_count(), 0);
    assert!(same_board(g.board(), &Board::from_level(&Level::new(&rows(SECOND)).unwrap())));
}

#[test]
fn push_onto_the_goal_on_the_last_level_starts_it_again() {
    let mut g = game(&[FIRST]);
    let report = g.apply(Command::Right);
    assert_eq!(
        report,
        Report { outcome: Outcome { player_moved: true, pushed: Some(0) }, won: true }
    );
    assert_eq!(g.current(), 0);
    assert_eq!(g.move_count(), 0);
    assert_eq!(g.board().player(), at(1, 1));
    assert_eq!(g.board().boxes(), &vec![at(2, 1)]);
    assert!(!g.is_solved());
}

#[test]
fn command_to_move_advances_on_a_win() {
    let mut g = game(&[FIRST, SECOND, THIRD]);
    assert!(g.apply(Command::Right).won);
    assert_eq!(g.current(), 1);
    assert_eq!(g.move_count(), 0);
    let report = g.apply(Command::Right);
    assert_eq!(report, Report { outcome: Outcome { player_moved: true, pushed: None }, won: false });
    assert_eq!(g.move_count(), 1);
    assert_eq!(g.current(), 1);
    assert!(g.apply(Command::Right).won);
    assert_eq!(g.current(), 2);
    assert_eq!(g.move_count(), 0);
}

#[test]
fn unsolved_board_does_not_advance() {
    let mut g = game(&[SECOND, FIRST]);
    assert!(!g.advance_if_solved());
    assert_eq!(g.current(), 0);
    g.resolve(Direction::East);
    assert!(!g.advance_if_solved());
    assert_eq!(g.current(), 0);
    assert_eq!(g.move_count(), 1);
    assert_eq!(g.board().player(), at(2, 1));
}

#[test]
fn rejected_push_changes_nothing() {
    let mut g = game(&[THIRD]);
    let out = g.resolve(Direction::East);
    assert_eq!(out, Outcome { player_moved: false, pushed: None });
    assert_eq!(g.board().player(), at(1, 1));
    assert_eq!(g.board().boxes(), &vec![at(2, 1), at(3, 1)]);
    assert_eq!(g.move_count(), 0);
    let report = g.apply(Command::Right);
    assert_eq!(report, Report { outcome: out, won: false });
    assert_eq!(g.move_count(), 0);
}

#[test]
fn wall_leaves_the_count_of_moves() {
    let mut g = game(&[SECOND]);
    g.resolve(Direction::East);
    assert_eq!(g.move_count(), 1);
    for d in [Direction::North, Direction::South] {
        assert!(!g.resolve(d).any_moved());
        assert_eq!(g.move_count(), 1);
        assert_eq!(g.board().player(), at(2, 1));
        assert_eq!(g.board().boxes(), &vec![at(3, 1)]);
    }
}

#[test]
fn moves_are_counted_one_by_one() {
    let mut g = game(&[&["    ", " @  ", "   #"]]);
    let steps = [
        (Direction::North, 1, at(1, 2)),
        (Direction::East, 2, at(2, 2)),
        (Direction::East, 2, at(2, 2)),
        (Direction::South, 3, at(2, 1)),
        (Direction::West, 4, at(1, 1)),
        (Direction::South, 5, at(1, 0)),
        (Direction::South, 6, at(1, -1)),
        (Direction::East, 7, at(2, -1)),
    ];
    for (d, count, player) in steps {
        g.resolve(d);
        assert_eq!(g.move_count(), count);
        assert_eq!(g.board().player(), player);
    }
}

#[test]
fn rejected_move_on_a_solved_board_does_not_advance() {
    let mut g = game(&[&["#@*"], FIRST]);
    assert!(g.is_solved());
    let report = g.apply(Command::Left);
    assert!(!report.won);
    assert!(!report.outcome.any_moved());
    assert_eq!(g.current(), 0);
}

#[test]
fn next_level_stops_at_the_last() {
    let mut g = game(&[FIRST, SECOND, THIRD]);
    g.next_level();
    assert_eq!(g.current(), 1);
    g.next_level();
    assert_eq!(g.current(), 2);
    g.next_level();
    assert_eq!(g.current(), 2);
    g.apply(Command::NextLevel);
    assert_eq!(g.current(), 2);
    assert!(same_board(g.board(), &Board::from_level(&Level::new(&rows(THIRD)).unwrap())));
}

#[test]
fn previous_level_stops_at_the_first() {
    let mut g = game(&[FIRST, SECOND, THIRD]);
    g.previous_level();
    assert_eq!(g.current(), 0);
    g.next_level();
    g.next_level();
    g.previous_level();
    assert_eq!(g.current(), 1);
    g.apply(Command::PreviousLevel);
    assert_eq!(g.current(), 0);
    g.apply(Command::PreviousLevel);
    assert_eq!(g.current(), 0);
    assert!(same_board(g.board(), &Board::from_level(&Level::new(&rows(FIRST)).unwrap())));
}

#[test]
fn every_change_of_level_resets_moves_and_board() {
    let fresh = |l: &[&str]| Board::from_level(&Level::new(&rows(l)).unwrap());
    let mut g = game(&[SECOND, FIRST]);
    g.resolve(Direction::East);
    assert_eq!(g.move_count(), 1);
    g.restart();
    assert_eq!((g.current(), g.move_count()), (0, 0));
    assert!(same_board(g.board(), &fresh(SECOND)));

    g.resolve(Direction::East);
    g.next_level();
    assert_eq!((g.current(), g.move_count()), (1, 0));
    assert!(same_board(g.board(), &fresh(FIRST)));

    g.resolve(Direction::East);
    assert_eq!(g.move_count(), 1);
    g.previous_level();
    assert_eq!((g.current(), g.move_count()), (0, 0));
    assert!(same_board(g.board(), &fresh(SECOND)));

    g.resolve(Direction::East);
    g.resolve(Direction::East);
    assert_eq!(g.move_count(), 2);
    assert!(g.advance_if_solved());
    assert_eq!((g.current(), g.move_count()), (1, 0));
    assert!(same_board(g.board(), &fresh(FIRST)));

    g.resolve(Direction::West);
    g.apply(Command::Restart);
    assert_eq!((g.current(), g.move_count()), (1, 0));
    assert!(same_board(g.board(), &fresh(FIRST)));
}

#[test]
fn session_counts_and_navigates() {
    let mut s = Session::new(pack(&[FIRST, SECOND])).expect("a session");
    s.count_move();
    s.count_move();
    assert_eq!(s.move_count(), 2);
    s.restart();
    assert_eq!((s.current(), s.move_count()), (0, 0));
    s.count_move();
    s.next_level();
    assert_eq!((s.current(), s.move_count()), (1, 0));
    assert_eq!(s.level().width(), 6);
    s.count_move();
    s.next_level();
    assert_eq!((s.current(), s.move_count()), (1, 0));
    s.count_move();
    s.previous_level();
    assert_eq!((s.current(), s.move_count()), (0, 0));
    s.previous_level();
    assert_eq!((s.current(), s.move_count()), (0, 0));
}

#[test]
fn commands_have_their_directions() {
    assert_eq!(Command::Up.direction(), Some(Direction::North));
    assert_eq!(Command::Down.direction(), Some(Direction::South));
    assert_eq!(Command::Left.direction(), Some(Direction::West));
    assert_eq!(Command::Right.direction(), Some(Direction::East));
    assert_eq!(Command::Restart.direction(), None);
    assert_eq!(Command::NextLevel.direction(), None);
    assert_eq!(Command::PreviousLevel.direction(), None);
}

#[test]
fn codes_name_commands() {
    let all = [
        Command::Up,
        Command::Down,
        Command::Left,
        Command::Right,
        Command::Restart,
        Command::NextLevel,
        Command::PreviousLevel,
    ];
    for (code, command) in all.iter().enumerate() {
        assert_eq!(Command::from_code(code as u8), Ok(*command));
    }
    for code in 7..=255u8 {
        assert_eq!(Command::from_code(code), Err(IllegalCommand { code }));
    }
}

#[test]
fn illegal_command_leaves_the_game() {
    let mut g = game(&[SECOND, FIRST]);
    g.resolve(Direction::East);
    assert_eq!(g.submit(7), Err(IllegalCommand { code: 7 }));
    assert_eq!(g.submit(200), Err(IllegalCommand { code: 200 }));
    assert_eq!((g.current(), g.move_count()), (0, 1));
    assert_eq!(g.board().player(), at(2, 1));
    assert_eq!(g.board().boxes(), &vec![at(3, 1)]);
}

#[test]
fn submitted_codes_are_carried_out() {
    let mut g = game(&[SECOND, FIRST]);
    let report = g.submit(3).expect("a command");
    assert_eq!(report, Report { outcome: Outcome { player_moved: true, pushed: None }, won: false });
    assert_eq!(g.board().player(), at(2, 1));
    assert!(!g.submit(0).expect("a command").outcome.any_moved());
    assert!(!g.submit(1).expect("a command").outcome.any_moved());
    g.submit(2).expect("a command");
    assert_eq!(g.board().player(), at(1, 1));
    assert_eq!(g.move_count(), 2);
    g.submit(4).expect("a command");
    assert_eq!((g.current(), g.move_count()), (0, 0));
    g.submit(5).expect("a command");
    assert_eq!(g.current(), 1);
    g.submit(6).expect("a command");
    assert_eq!(g.current(), 0);
}
