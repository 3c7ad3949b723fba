//! The screens around the game: the main menu and the list of level packs.

use vstd::prelude::*;
use vstd::string::StringExecFns;

verus! {

/// The screens of the program.
#[derive(Clone, Copy, Debug, PartialEq, Eq, Hash, Structural)]
pub enum Screen {
    Menu,
    ResearchMenu,
    Game,
}

/// The entries of the main menu.
#[derive(Clone, Copy, Debug, PartialEq, Eq, Structural)]
pub enum MenuItem {
    Random,
    Rush,
    Research,
    Settings,
    Exit,
}

/// The index before `index` in a list of `count` entries, the last one before the first.
pub open spec fn index_above(index: int, count: int) -> int {
    (index + count - 1) % count
}

/// The index after `index` in a list of `count` entries, the first one after the last.
pub open spec fn index_below(index: int, count: int) -> int {
    (index + 1) % count
}

/// The index before `index` in a list of `count` entries, the last one before the first.
pub fn step_up(index: usize, count: usize) -> (r: usize)
    requires
        index < count,
    ensures
        r == index_above(index as int, count as int),
        r < count,
        r == if index == 0 { count - 1 } else { index - 1 },
{
    if index == 0 {
        assert((count - 1) % (count as int) == count - 1) by {
            vstd::arithmetic::div_mod::lemma_small_mod((count - 1) as nat, count as nat);
        }
        count - 1
    } else {
        assert(index_above(index as int, count as int) == index - 1) by {
            vstd::arithmetic::div_mod::lemma_mod_add_multiples_vanish(
                index - 1,
                count as int,
            );
            vstd::arithmetic::div_mod::lemma_small_mod((index - 1) as nat, count as nat);
        }
        index - 1
    }
}

/// The index after `index` in a list of `count` entries, the first one after the last.
pub fn step_down(index: usize, count: usize) -> (r: usize)
    requires
        index < count,
    ensures
        r == index_below(index as int, count as int),
        r < count,
        r == if index + 1 == count { 0 } else { index + 1 },
{
    if index + 1 == count {
        assert((count as int) % (count as int) == 0) by {
            vstd::arithmetic::div_mod::lemma_mod_self_0(count as int);
        }
        0
    } else {
        assert((index + 1) % (count as int) == index + 1) by {
            vstd::arithmetic::div_mod::lemma_small_mod((index + 1) as nat, count as nat);
        }
        index + 1
    }
}

impl MenuItem {
    /// The name of the entry as the menu shows it.
    pub open spec fn name(self) -> Seq<char> {
        match self {
            MenuItem::Random => "Random"@,
            MenuItem::Rush => "Rush"@,
            MenuItem::Research => "Research"@,
            MenuItem::Settings => "Settings"@,
            MenuItem::Exit => "Exit"@,
        }
    }

    /// The name of the entry as the menu shows it.
    pub fn label(self) -> (s: &'static str)
        ensures
            s@ == self.name(),
    {
        match self {
            MenuItem::Random => "Random",
            MenuItem::Rush => "Rush",
            MenuItem::Research => "Research",
            MenuItem::Settings => "Settings",
            MenuItem::Exit => "Exit",
        }
    }

    /// The screen that the entry leads to, where it leads to one.
    pub fn opens(self) -> (r: Option<Screen>)
        ensures
            r == if self == MenuItem::Research {
                Some(Screen::ResearchMenu)
            } else {
                None::<Screen>
            },
    {
        match self {
            MenuItem::Research => Some(Screen::ResearchMenu),
            _ => None,
        }
    }
}

/// One line of a list: a mark for the chosen entry or two blanks, the label, a line end.
pub open spec fn line_text(label: Seq<char>, chosen: bool) -> Seq<char> {
    (if chosen {
        "> "@
    } else {
        "  "@
    }) + label + "\n"@
}

/// The text of a list: one line for each label, with the mark on line `selected`.
pub open spec fn list_text(labels: Seq<Seq<char>>, selected: int) -> Seq<char>
    decreases labels.len(),
{
    if labels.len() == 0 {
        Seq::empty()
    } else {
        list_text(labels.drop_last(), selected) + line_text(
            labels.last(),
            selected == labels.len() - 1,
        )
    }
}

/// Appends to `text` the line of one label.
fn append_line(text: &mut String, label: &str, chosen: bool)
    ensures
        final(text)@ == old(text)@ + line_text(label@, chosen),
{
    if chosen {
        text.append("> ");
    } else {
        text.append("  ");
    }
    text.append(label);
    text.append("\n");
    assert(text@ =~= old(text)@ + line_text(label@, chosen));
}

/// The main menu: its entries and the index of the chosen one.
#[derive(Clone, Debug)]
pub struct Menu {
    items: Vec<MenuItem>,
    selected: usize,
}

/// What a key press on the list of level packs asks for.
#[derive(Clone, Copy, Debug, PartialEq, Eq, Structural)]
pub enum Choice {
    /// Stay on the list.
    Stay,
    /// Go back to the main menu.
    Back,
    /// Play the pack at this index.
    Play(usize),
}

/// The names of the entries of a menu, in order.
pub open spec fn names(items: Seq<MenuItem>) -> Seq<Seq<char>> {
    Seq::new(items.len(), |i: int| items[i].name())
}

/// The views of a list of labels, in order.
pub open spec fn label_views(labels: Seq<String>) -> Seq<Seq<char>> {
    Seq::new(labels.len(), |i: int| labels[i]@)
}

impl Menu {
    /// The entries, in order.
    pub closed spec fn items(&self) -> Seq<MenuItem> {
        self.items@
    }

    /// The index of the chosen entry.
    pub closed spec fn selected(&self) -> int {
        self.selected as int
    }

    /// The menu has an entry, and the chosen index names one.
    pub open spec fn wf(&self) -> bool {
        0 <= self.selected() < self.items().len()
    }

    /// The main menu with its five entries, the first one chosen.
    pub fn new() -> (menu: Menu)
        ensures
            menu.wf(),
            menu.selected() == 0,
            menu.items() == seq![
                MenuItem::Random,
                MenuItem::Rush,
                MenuItem::Research,
                MenuItem::Settings,
                MenuItem::Exit,
            ],
    {
        let mut items: Vec<MenuItem> = Vec::new();
        items.push(MenuItem::Random);
        items.push(MenuItem::Rush);
        items.push(MenuItem::Research);
        items.push(MenuItem::Settings);
        items.push(MenuItem::Exit);
        let menu = Menu { items, selected: 0 };
        assert(menu.items() =~= seq![
            MenuItem::Random,
            MenuItem::Rush,
            MenuItem::Research,
            MenuItem::Settings,
            MenuItem::Exit,
        ]);
        menu
    }

    /// The index of the chosen entry.
    pub fn chosen_index(&self) -> (i: usize)
        ensures
            i == self.selected(),
    {
        self.selected
    }

    /// The chosen entry.
    pub fn chosen(&self) -> (item: MenuItem)
        requires
            self.wf(),
        ensures
            item == self.items()[self.selected()],
    {
        self.items[self.selected]
    }

    /// Takes the keys that are pressed: up, then down, then enter, each on what the one
    /// before has left. Enter gives the screen that the chosen entry leads to.
    pub fn handle(&mut self, up: bool, down: bool, enter: bool) -> (r: Option<Screen>)
        requires
            old(self).wf(),
        ensures
            final(self).wf(),
            final(self).items() == old(self).items(),
            final(self).selected() == moved(
                old(self).selected(),
                old(self).items().len() as int,
                up,
                down,
            ),
            r == if enter && final(self).items()[final(self).selected()] == MenuItem::Research {
                Some(Screen::ResearchMenu)
            } else {
                None::<Screen>
            },
    {
        let count = self.items.len();
        if up {
            self.selected = step_up(self.selected, count);
        }
        if down {
            self.selected = step_down(self.selected, count);
        }
        if enter {
            self.items[self.selected].opens()
        } else {
            None
        }
    }

    /// The text of the menu: one line for each entry, the chosen one marked.
    pub fn text(&self) -> (text: String)
        ensures
            text@ == list_text(names(self.items()), self.selected()),
    {
        let ghost labels = names(self.items@);
        let mut text = String::new();
        let mut i: usize = 0;
        while i < self.items.len()
            invariant
                i <= self.items.len(),
                labels == names(self.items@),
                text@ == list_text(labels.take(i as int), self.selected as int),
            decreases self.items.len() - i,
        {
            proof {
                assert(labels.take(i + 1).drop_last() == labels.take(i as int));
            }
            append_line(&mut text, self.items[i].label(), i == self.selected);
            i += 1;
        }
        proof {
            assert(labels.take(labels.len() as int) == labels);
        }
        text
    }
}

/// The index that the keys up and down lead to from `index`, up being taken first.
pub open spec fn moved(index: int, count: int, up: bool, down: bool) -> int {
    let after_up = if up {
        index_above(index, count)
    } else {
        index
    };
    if down {
        index_below(after_up, count)
    } else {
        after_up
    }
}

/// Takes the keys that are pressed on the list of `count` level packs, of which the one
/// at `index` is chosen: up, then down, then what backspace and enter ask for, where
/// enter goes before backspace. Gives the chosen index and what was asked for.
pub fn handle_research(index: usize, count: usize, up: bool, down: bool, back: bool, enter: bool)
    -> (r: (usize, Choice))
    requires
        index < count,
    ensures
        r.0 == moved(index as int, count as int, up, down),
        r.0 < count,
        r.1 == if enter {
            Choice::Play(r.0)
        } else if back {
            Choice::Back
        } else {
            Choice::Stay
        },
{
    let mut chosen = index;
    if up {
        chosen = step_up(chosen, count);
    }
    if down {
        chosen = step_down(chosen, count);
    }
    let choice = if enter {
        Choice::Play(chosen)
    } else if back {
        Choice::Back
    } else {
        Choice::Stay
    };
    (chosen, choice)
}

/// The text of a list of labels: one line for each, the one at `selected` marked.
pub fn research_text(labels: &[String], selected: usize) -> (text: String)
    ensures
        text@ == list_text(label_views(labels@), selected as int),
{
    let ghost views = label_views(labels@);
    let mut text = String::new();
    let mut i: usize = 0;
    while i < labels.len()
        invariant
            i <= labels.len(),
            views == label_views(labels@),
            text@ == list_text(views.take(i as int), selected as int),
        decreases labels.len() - i,
    {
        proof {
            assert(views.take(i + 1).drop_last() == views.take(i as int));
        }
        append_line(&mut text, labels[i].as_str(), i == selected);
        i += 1;
    }
    proof {
        assert(views.take(views.len() as int) == views);
    }
    text
}

} // verus!
