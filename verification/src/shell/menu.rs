//! The app menu: the launchable names, a filter over them, and the pick.
use vstd::prelude::*;
use vstd::string::*;

use crate::bridge::bus::{lossy, lossy_text};
use crate::chooser::page::{first_row, scrolled};
use crate::chooser::Press;
use crate::lock::printable;
use crate::text::{
    chars_of, find_part, has_part, is_control, join, joined, lower, lowercase, string_of, trim,
    trimmed,
};
use crate::utf8::{byte_len, utf8_len};
use crate::views::{group_views, kept, lemma_kept_step, views};

verus! {

pub const MENU_WIDTH: u32 = 520;

pub const MENU_HEIGHT: u32 = 420;

/// How long the filter can be, in bytes.
pub const MAX_FILTER: usize = 64;

/// The menu. `T` is text, `L` a list of texts.
#[derive(Debug)]
pub struct Menu<T, L> {
    pub up: bool,
    pub apps: L,
    pub filter: T,
    /// Into the names that match.
    pub selected: usize,
}

pub type MenuView = Menu<Seq<char>, Seq<Seq<char>>>;

impl View for Menu<String, Vec<String>> {
    type V = MenuView;

    open spec fn view(&self) -> MenuView {
        Menu {
            up: self.up,
            apps: views(self.apps@),
            filter: self.filter@,
            selected: self.selected,
        }
    }
}

/// What a key comes to. `T` is text.
#[derive(Debug)]
pub enum Chosen<T> {
    Nothing,
    Redraw,
    /// The menu came down with nothing picked.
    Hide,
    /// The menu came down with this picked.
    Launch(T),
}

impl View for Chosen<String> {
    type V = Chosen<Seq<char>>;

    open spec fn view(&self) -> Chosen<Seq<char>> {
        match *self {
            Chosen::Nothing => Chosen::Nothing,
            Chosen::Redraw => Chosen::Redraw,
            Chosen::Hide => Chosen::Hide,
            Chosen::Launch(name) => Chosen::Launch(name@),
        }
    }
}

/// The names that match, whatever their case.
pub open spec fn matching(m: MenuView) -> Seq<Seq<char>> {
    kept(m.apps, |a: Seq<char>| has_part(lower(a), lower(m.filter)))
}

/// What is typed can be added to the filter.
pub open spec fn can_filter(filter: Seq<char>, s: Seq<char>) -> bool {
    (forall|i: int| 0 <= i < s.len() ==> !is_control(#[trigger] s[i])) && byte_len(filter)
        + byte_len(s) <= MAX_FILTER
}

impl Menu<Seq<char>, Seq<Seq<char>>> {
    /// The menu with these names, nothing typed.
    pub open spec fn fresh(apps: Seq<Seq<char>>) -> MenuView {
        Menu { up: true, apps, filter: Seq::empty(), selected: 0 }
    }

    /// What a key does.
    pub open spec fn pressed(self, press: Press<Seq<char>>) -> (MenuView, Chosen<Seq<char>>) {
        let down = Menu { up: false, ..self };
        match press {
            Press::Escape => (down, Chosen::Hide),
            Press::Enter => if self.selected < matching(self).len() {
                (down, Chosen::Launch(matching(self)[self.selected as int]))
            } else {
                (down, Chosen::Hide)
            },
            Press::Up => (
                Menu {
                    selected: if self.selected == 0 {
                        0
                    } else {
                        (self.selected - 1) as usize
                    },
                    ..self
                },
                Chosen::Redraw,
            ),
            Press::Down => (
                Menu {
                    selected: if self.selected + 1 < matching(self).len() {
                        (self.selected + 1) as usize
                    } else {
                        self.selected
                    },
                    ..self
                },
                Chosen::Redraw,
            ),
            Press::BackSpace => (
                Menu {
                    filter: if self.filter.len() > 0 {
                        self.filter.drop_last()
                    } else {
                        self.filter
                    },
                    selected: 0,
                    ..self
                },
                Chosen::Redraw,
            ),
            Press::Typed(s) => if can_filter(self.filter, s) {
                (Menu { filter: self.filter + s, selected: 0, ..self }, Chosen::Redraw)
            } else {
                (self, Chosen::Nothing)
            },
            Press::Left => (self, Chosen::Nothing),
        }
    }
}

/// The rows of the menu: the names, and which is selected.
pub open spec fn rows_of(m: MenuView, room: int) -> Seq<(Seq<char>, bool)> {
    let first = first_row(Some(m.selected), room);
    let list = matching(m);
    let n = if first >= list.len() {
        0
    } else if list.len() - first < room {
        list.len() - first
    } else {
        room
    };
    Seq::new(n as nat, |k: int| (list[first + k], first + k == m.selected))
}

impl Menu<String, Vec<String>> {
    /// Down, with no names yet.
    pub fn new() -> (r: Menu<String, Vec<String>>)
        ensures
            r@ == (Menu { up: false, ..MenuView::fresh(Seq::empty()) }),
    {
        broadcast use group_views;

        Menu { up: false, apps: Vec::new(), filter: String::new(), selected: 0 }
    }

    /// Goes up with these names.
    pub fn show(&mut self, apps: Vec<String>)
        ensures
            final(self)@ == MenuView::fresh(views(apps@)),
    {
        self.up = true;
        self.apps = apps;
        self.filter = String::new();
        self.selected = 0;
    }

    /// The names that match.
    pub fn matches(&self) -> (r: Vec<String>)
        ensures
            views(r@) == matching(self@),
    {
        broadcast use group_views;

        let filter = chars_of(lowercase(self.filter.as_str()).as_str());
        let ghost all = views(self.apps@);
        let ghost keep = |a: Seq<char>| has_part(lower(a), lower(self@.filter));
        let mut list: Vec<String> = Vec::new();
        let mut i: usize = 0;
        assert(all.take(0) =~= Seq::empty());
        while i < self.apps.len()
            invariant
                i <= self.apps@.len(),
                all == views(self.apps@),
                filter@ == lower(self@.filter),
                keep == (|a: Seq<char>| has_part(lower(a), lower(self@.filter))),
                views(list@) == kept(all.take(i as int), keep),
            decreases self.apps@.len() - i,
        {
            broadcast use group_views;

            proof {
                lemma_kept_step(all, keep, i as int);
                assert(all[i as int] == self.apps@[i as int]@);
            }
            let name = chars_of(lowercase(self.apps[i].as_str()).as_str());
            if find_part(&name, &filter) {
                list.push(self.apps[i].clone());
            }
            i = i + 1;
        }
        assert(all.take(i as int) =~= all);
        list
    }

    /// What a key does.
    pub fn press(&mut self, press: Press<String>) -> (r: Chosen<String>)
        ensures
            (final(self)@, r@) == old(self)@.pressed(press@),
    {
        broadcast use group_views;

        match press {
            Press::Escape => {
                self.up = false;
                Chosen::Hide
            },
            Press::Enter => {
                let list = self.matches();
                self.up = false;
                if self.selected < list.len() {
                    assert(views(list@)[self.selected as int] == list@[self.selected as int]@);
                    Chosen::Launch(list[self.selected].clone())
                } else {
                    Chosen::Hide
                }
            },
            Press::Up => {
                if self.selected > 0 {
                    self.selected = self.selected - 1;
                }
                Chosen::Redraw
            },
            Press::Down => {
                let n = self.matches().len();
                if n > 0 && self.selected < n - 1 {
                    self.selected = self.selected + 1;
                }
                Chosen::Redraw
            },
            Press::BackSpace => {
                let chars = chars_of(self.filter.as_str());
                if chars.len() > 0 {
                    self.filter = string_of(&chars, 0, chars.len() - 1);
                    assert(self.filter@ =~= chars@.drop_last());
                }
                self.selected = 0;
                Chosen::Redraw
            },
            Press::Typed(s) => {
                let a = utf8_len(self.filter.as_str());
                let b = utf8_len(s.as_str());
                if printable(s.as_str()) && a <= MAX_FILTER && b <= MAX_FILTER - a {
                    self.filter.append(s.as_str());
                    self.selected = 0;
                    Chosen::Redraw
                } else {
                    Chosen::Nothing
                }
            },
            Press::Left => Chosen::Nothing,
        }
    }

    /// The rows of the menu, where there is room for so many: the names, and which is selected.
    pub fn rows(&self, room: usize) -> (r: Vec<(String, bool)>)
        ensures
            views(r@) == rows_of(self@, room as int),
    {
        broadcast use group_views;

        let list = self.matches();
        let first = scrolled(Some(self.selected), room);
        let ghost all = rows_of(self@, room as int);
        let mut rows: Vec<(String, bool)> = Vec::new();
        let mut k: usize = 0;
        while k < room && first < list.len() && k < list.len() - first
            invariant
                first == first_row(Some(self.selected), room as int),
                all == rows_of(self@, room as int),
                k <= all.len(),
                views(list@) == matching(self@),
                views(rows@) == all.take(k as int),
            decreases room - k,
        {
            broadcast use group_views;

            assert(views(list@)[first + k] == list@[first + k]@);
            rows.push((list[first + k].clone(), first + k == self.selected));
            assert(rows@.last()@ == all[k as int]);
            assert(all.take(k + 1) =~= all.take(k as int).push(all[k as int]));
            k = k + 1;
        }
        assert(all.take(k as int) =~= all);
        rows
    }
}

/// The names as a menu program reads them: one to a line.
pub fn lines_for(apps: &Vec<String>) -> (r: String)
    ensures
        r@ == joined(views(apps@), "\n"@),
{
    join(apps, "\n")
}

/// What a menu program printed, as a name: without white space round it, if anything is left.
pub fn choice(stdout: &Vec<u8>) -> (r: Option<String>)
    ensures
        match r {
            Some(name) => name@ == trimmed(lossy_text(stdout@)) && name@.len() > 0,
            None => trimmed(lossy_text(stdout@)).len() == 0,
        },
{
    let text = lossy(stdout);
    let name = trim(&chars_of(text.as_str()));
    if name.len() == 0 {
        return None;
    }
    assert(name@.subrange(0, name@.len() as int) =~= name@);
    Some(string_of(&name, 0, name.len()))
}

/// Only a name that the daemon listed is launched.
pub proof fn only_listed_names_launch(m: MenuView, press: Press<Seq<char>>)
    requires
        m.pressed(press).1 is Launch,
    ensures
        m.apps.contains(m.pressed(press).1->0),
{
    let keep = |a: Seq<char>| has_part(lower(a), lower(m.filter));
    let name = matching(m)[m.selected as int];
    assert(matching(m).contains(name));
    crate::views::lemma_kept_contains(m.apps, keep, name);
}

} // verus!
