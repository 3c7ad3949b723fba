use sokoban::game::{arrow_command, level_commands, Command};
use sokoban::menu::{
    handle_research, research_text, step_down, step_up, Choice, Menu, MenuItem, Screen,
};

#[test]
fn step_up_wraps_to_the_last() {
    assert_eq!(step_up(0, 5), 4);
    assert_eq!(step_up(4, 5), 3);
    assert_eq!(step_up(1, 5), 0);
    assert_eq!(step_up(0, 1), 0);
    assert_eq!(step_up(0, usize::MAX), usize::MAX - 1);
    for count in 1..20usize {
        for index in 0..count {
            assert_eq!(step_up(index, count), (index + count - 1) % count);
        }
    }
}

#[test]
fn step_down_wraps_to_the_first() {
    assert_eq!(step_down(4, 5), 0);
    assert_eq!(step_down(0, 5), 1);
    assert_eq!(step_down(0, 1), 0);
    assert_eq!(step_down(usize::MAX - 1, usize::MAX), 0);
    for count in 1..20usize {
        for index in 0..count {
            assert_eq!(step_down(index, count), (index + 1) % count);
        }
    }
}

#[test]
fn menu_starts_on_its_first_entry() {
    let menu = Menu::new();
    assert_eq!(menu.chosen_index(), 0);
    assert_eq!(menu.chosen(), MenuItem::Random);
    assert_eq!(menu.text(), "> Random\n  Rush\n  Research\n  Settings\n  Exit\n");
}

#[test]
fn menu_moves_with_the_keys() {
    let mut menu = Menu::new();
    assert_eq!(menu.handle(true, false, false), None);
    assert_eq!(menu.chosen(), MenuItem::Exit);
    assert_eq!(menu.text(), "  Random\n  Rush\n  Research\n  Settings\n> Exit\n");
    assert_eq!(menu.handle(false, true, false), None);
    assert_eq!(menu.chosen(), MenuItem::Random);
    assert_eq!(menu.handle(false, true, false), None);
    assert_eq!(menu.chosen(), MenuItem::Rush);
    assert_eq!(menu.handle(true, true, false), None);
    assert_eq!(menu.chosen(), MenuItem::Rush);
    assert_eq!(menu.handle(false, false, false), None);
    assert_eq!(menu.chosen_index(), 1);
    assert_eq!(menu.text(), "  Random\n> Rush\n  Research\n  Settings\n  Exit\n");
}

#[test]
fn only_research_opens_a_screen() {
    let mut menu = Menu::new();
    assert_eq!(menu.handle(false, false, true), None);
    assert_eq!(menu.handle(false, true, true), None);
    assert_eq!(menu.handle(false, true, true), Some(Screen::ResearchMenu));
    assert_eq!(menu.chosen(), MenuItem::Research);
    assert_eq!(menu.handle(false, false, false), None);
    assert_eq!(menu.handle(false, true, true), None);
    assert_eq!(menu.handle(true, false, true), Some(Screen::ResearchMenu));
    assert_eq!(MenuItem::Research.opens(), Some(Screen::ResearchMenu));
    for item in [MenuItem::Random, MenuItem::Rush, MenuItem::Settings, MenuItem::Exit] {
        assert_eq!(item.opens(), None);
    }
}

#[test]
fn entries_have_their_labels() {
    assert_eq!(MenuItem::Random.label(), "Random");
    assert_eq!(MenuItem::Rush.label(), "Rush");
    assert_eq!(MenuItem::Research.label(), "Research");
    assert_eq!(MenuItem::Settings.label(), "Settings");
    assert_eq!(MenuItem::Exit.label(), "Exit");
}

#[test]
fn research_moves_and_chooses() {
    assert_eq!(handle_research(0, 3, false, false, false, false), (0, Choice::Stay));
    assert_eq!(handle_research(0, 3, true, false, false, false), (2, Choice::Stay));
    assert_eq!(handle_research(2, 3, false, true, false, false), (0, Choice::Stay));
    assert_eq!(handle_research(1, 3, true, true, false, false), (1, Choice::Stay));
    assert_eq!(handle_research(1, 3, false, false, true, false), (1, Choice::Back));
    assert_eq!(handle_research(1, 3, false, false, false, true), (1, Choice::Play(1)));
    assert_eq!(handle_research(1, 3, false, true, true, true), (2, Choice::Play(2)));
    assert_eq!(handle_research(0, 1, true, false, true, false), (0, Choice::Back));
}

#[test]
fn research_text_marks_the_chosen_pack() {
    let names = vec!["Microban".to_string(), "Sasquatch".to_string()];
    assert_eq!(research_text(&names, 0), "> Microban\n  Sasquatch\n");
    assert_eq!(research_text(&names, 1), "  Microban\n> Sasquatch\n");
    assert_eq!(research_text(&names, 2), "  Microban\n  Sasquatch\n");
    assert_eq!(research_text(&[], 0), "");
}

#[test]
fn arrows_give_one_command() {
    assert_eq!(arrow_command(false, false, false, false), None);
    assert_eq!(arrow_command(true, false, false, false), Some(Command::Up));
    assert_eq!(arrow_command(false, true, false, false), Some(Command::Down));
    assert_eq!(arrow_command(false, false, true, false), Some(Command::Right));
    assert_eq!(arrow_command(false, false, false, true), Some(Command::Left));
    assert_eq!(arrow_command(true, true, true, true), Some(Command::Up));
    assert_eq!(arrow_command(false, true, true, true), Some(Command::Down));
    assert_eq!(arrow_command(false, false, true, true), Some(Command::Right));
}

#[test]
fn level_keys_give_their_commands_in_order() {
    assert_eq!(level_commands(false, false, false), vec![]);
    assert_eq!(level_commands(true, false, false), vec![Command::Restart]);
    assert_eq!(level_commands(false, true, false), vec![Command::NextLevel]);
    assert_eq!(level_commands(false, false, true), vec![Command::PreviousLevel]);
    assert_eq!(level_commands(true, true, false), vec![Command::NextLevel]);
    assert_eq!(level_commands(true, false, true), vec![Command::PreviousLevel]);
    assert_eq!(
        level_commands(false, true, true),
        vec![Command::NextLevel, Command::PreviousLevel]
    );
    assert_eq!(
        level_commands(true, true, true),
        vec![Command::NextLevel, Command::PreviousLevel]
    );
}
