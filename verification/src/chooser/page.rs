//! What a dialog says, row by row.
use vstd::prelude::*;
use vstd::string::*;

use super::{dir_text, shown, Dialog, Entry, ShownView, What};
use crate::text::join;
use crate::views::{group_views, views};

verus! {

/// A row of the list. `T` is text.
#[derive(Debug)]
pub struct Row<T> {
    pub label: T,
    pub detail: T,
    pub dir: bool,
    pub selected: bool,
}

impl View for Row<String> {
    type V = Row<Seq<char>>;

    open spec fn view(&self) -> Row<Seq<char>> {
        Row { label: self.label@, detail: self.detail@, dir: self.dir, selected: self.selected }
    }
}

/// What a dialog says. `T` is text, `R` a list of rows.
#[derive(Debug)]
pub struct Page<T, R> {
    /// Who wants what.
    pub head: T,
    pub title: T,
    /// Where we are, or what it comes to.
    pub line: T,
    /// Said where there is nothing to pick.
    pub nothing: T,
    pub rows: R,
    /// The line that is typed on; empty where there is none.
    pub typed: T,
    pub hint: T,
    /// The hint says what went wrong.
    pub fault: bool,
}

pub type PageView = Page<Seq<char>, Seq<Row<Seq<char>>>>;

impl View for Page<String, Vec<Row<String>>> {
    type V = PageView;

    open spec fn view(&self) -> PageView {
        Page {
            head: self.head@,
            title: self.title@,
            line: self.line@,
            nothing: self.nothing@,
            rows: views(self.rows@),
            typed: self.typed@,
            hint: self.hint@,
            fault: self.fault,
        }
    }
}

/// The first row shown, so that the selection stays on screen.
pub open spec fn first_row(selected: Option<usize>, rows: int) -> int {
    match selected {
        Some(s) => {
            let back = if rows > 0 {
                rows - 1
            } else {
                0
            };
            if s > back {
                s - back
            } else {
                0
            }
        },
        None => 0,
    }
}

/// The first row shown, so that the selection stays on screen.
pub fn scrolled(selected: Option<usize>, rows: usize) -> (r: usize)
    ensures
        r == first_row(selected, rows as int),
{
    match selected {
        Some(s) => {
            let back = if rows > 0 {
                rows - 1
            } else {
                0
            };
            if s > back {
                s - back
            } else {
                0
            }
        },
        None => 0,
    }
}

/// The selection is on screen wherever there is room for a row.
pub proof fn the_selection_is_on_screen(selected: usize, rows: int)
    requires
        rows > 0,
    ensures
        first_row(Some(selected), rows) <= selected < first_row(Some(selected), rows) + rows,
{
}

/// How an entry reads.
pub open spec fn row_of(e: Entry<Seq<char>>, selected: bool) -> Row<Seq<char>> {
    Row {
        label: if e.dir {
            e.name + "/"@
        } else {
            e.name
        },
        detail: e.detail,
        dir: e.dir,
        selected,
    }
}

/// The rows shown, where there is room for so many.
pub open spec fn rows_of(d: ShownView, room: int) -> Seq<Row<Seq<char>>> {
    let first = first_row(d.selected, room);
    let list = shown(d);
    let n = if first >= list.len() {
        0
    } else if list.len() - first < room {
        list.len() - first
    } else {
        room
    };
    Seq::new(
        n as nat,
        |k: int| row_of(d.entries[list[first + k] as int], d.selected == Some((first + k) as usize)),
    )
}

/// What a dialog says.
pub open spec fn page_of(d: ShownView, room: int) -> PageView {
    Page {
        head: d.req.app + match d.req.what {
            What::Open => " wants to open a file"@,
            What::Save { .. } => " wants to save a file"@,
            What::Screen(_) => " wants to see your screen"@,
        },
        title: d.req.title,
        line: if d.is_casting() {
            "which screen it may see, until you stop it (Mod+Shift+Esc stops them all)"@
        } else {
            "/"@ + dir_text(d.dir)
        },
        nothing: if shown(d).len() > 0 {
            Seq::empty()
        } else if d.is_casting() {
            "no screen is on"@
        } else {
            "nothing here"@
        },
        rows: rows_of(d, room),
        typed: match d.req.what {
            What::Open => "filter: "@ + d.typed,
            What::Save { .. } => if d.selected is None {
                "name: "@ + d.typed + "_"@
            } else {
                "name: "@ + d.typed
            },
            What::Screen(_) => Seq::empty(),
        },
        hint: match d.note {
            Some(note) => note,
            None => if d.is_casting() {
                "Enter share   Esc refuse"@
            } else {
                "Enter choose   Backspace up   Esc cancel"@
            },
        },
        fault: d.note is Some,
    }
}

impl Dialog<String, Vec<String>, Vec<Entry<String>>> {
    /// What the dialog says, where there is room for so many rows.
    pub fn page(&self, room: usize) -> (r: Page<String, Vec<Row<String>>>)
        ensures
            r@ == page_of(self@, room as int),
    {
        broadcast use group_views;

        let shown = self.shown();
        let mut head = self.req.app.clone();
        let mut typed = String::new();
        let mut casting = false;
        match &self.req.what {
            What::Open => {
                head.append(" wants to open a file");
                typed.append("filter: ");
                typed.append(self.typed.as_str());
                assert(Seq::<char>::empty() + "filter: "@ =~= "filter: "@);
            },
            What::Save { .. } => {
                head.append(" wants to save a file");
                typed.append("name: ");
                typed.append(self.typed.as_str());
                assert(Seq::<char>::empty() + "name: "@ =~= "name: "@);
                if self.selected.is_none() {
                    typed.append("_");
                }
            },
            What::Screen(_) => {
                head.append(" wants to see your screen");
                casting = true;
            },
        }
        let line = if casting {
            "which screen it may see, until you stop it (Mod+Shift+Esc stops them all)".to_owned()
        } else {
            let mut line = "/".to_owned();
            line.append(join(&self.dir, "/").as_str());
            line
        };
        let nothing = if shown.len() > 0 {
            String::new()
        } else if casting {
            "no screen is on".to_owned()
        } else {
            "nothing here".to_owned()
        };
        let (hint, fault) = match &self.note {
            Some(note) => (note.clone(), true),
            None => if casting {
                ("Enter share   Esc refuse".to_owned(), false)
            } else {
                ("Enter choose   Backspace up   Esc cancel".to_owned(), false)
            },
        };
        let rows = self.rows(&shown, room);
        Page { head, title: self.req.title.clone(), line, nothing, rows, typed, hint, fault }
    }

    /// The rows shown, where there is room for so many.
    fn rows(&self, list: &Vec<usize>, room: usize) -> (r: Vec<Row<String>>)
        requires
            list@ == shown(self@),
            forall|i: int| 0 <= i < list@.len() ==> (#[trigger] list@[i]) < self.entries@.len(),
        ensures
            views(r@) == rows_of(self@, room as int),
    {
        broadcast use group_views;

        let first = scrolled(self.selected, room);
        let ghost all = rows_of(self@, room as int);
        let mut rows: Vec<Row<String>> = Vec::new();
        let mut k: usize = 0;
        while k < room && first < list.len() && k < list.len() - first
            invariant
                first == first_row(self.selected, room as int),
                all == rows_of(self@, room as int),
                k <= all.len(),
                list@ == shown(self@),
                forall|i: int| 0 <= i < list@.len() ==> (#[trigger] list@[i]) < self.entries@.len(),
                views(rows@) == all.take(k as int),
            decreases room - k,
        {
            broadcast use group_views;

            let e = &self.entries[list[first + k]];
            assert(self@.entries[list@[first + k] as int] == e@);
            let mut label = e.name.clone();
            if e.dir {
                label.append("/");
            }
            let selected = match self.selected {
                Some(s) => s == first + k,
                None => false,
            };
            rows.push(Row { label, detail: e.detail.clone(), dir: e.dir, selected });
            assert(all.take(k + 1) =~= all.take(k as int).push(all[k as int]));
            k = k + 1;
        }
        assert(all.take(k as int) =~= all);
        rows
    }
}

/// What a dialog says: who wants what, where in the tree it is, what is typed, what there is to
/// press; and, instead of that, what went wrong.
pub proof fn the_page_says_who_wants_what(d: ShownView, room: int)
    ensures
        ({
            let p = page_of(d, room);
            let casting = d.req.what is Screen;
            &&& d.req.what is Open ==> p.head == d.req.app + " wants to open a file"@
            &&& d.req.what is Save ==> p.head == d.req.app + " wants to save a file"@
            &&& casting ==> p.head == d.req.app + " wants to see your screen"@
            &&& p.title == d.req.title
            &&& casting ==> p.line
                == "which screen it may see, until you stop it (Mod+Shift+Esc stops them all)"@
            &&& !casting ==> p.line == "/"@ + crate::text::joined(d.dir, "/"@)
            &&& shown(d).len() > 0 ==> p.nothing.len() == 0
            &&& shown(d).len() == 0 && casting ==> p.nothing == "no screen is on"@
            &&& shown(d).len() == 0 && !casting ==> p.nothing == "nothing here"@
            &&& d.req.what is Open ==> p.typed == "filter: "@ + d.typed
            &&& d.req.what is Save && d.selected is None ==> p.typed == "name: "@ + d.typed + "_"@
            &&& d.req.what is Save && d.selected is Some ==> p.typed == "name: "@ + d.typed
            &&& casting ==> p.typed.len() == 0
            &&& d.note is Some ==> p.hint == d.note->0 && p.fault
            &&& d.note is None && casting ==> p.hint == "Enter share   Esc refuse"@ && !p.fault
            &&& d.note is None && !casting ==> p.hint
                == "Enter choose   Backspace up   Esc cancel"@ && !p.fault
        }),
{
}

/// The rows of a dialog show entries that pass the filter, in order and without a gap, as many
/// as there is room for, a directory with a slash behind its name, and among them what is
/// selected, marked.
pub proof fn the_rows_show_the_selected(d: ShownView, room: int, i: usize)
    requires
        room > 0,
        d.selected == Some(i),
        i < shown(d).len() <= usize::MAX,
    ensures
        ({
            let rows = page_of(d, room).rows;
            exists|first: int|
                {
                    &&& 0 <= first <= i < first + rows.len()
                    &&& rows.len() <= room
                    &&& #[trigger] (first + rows.len()) <= shown(d).len()
                    &&& rows.len() == room || first + rows.len() == shown(d).len()
                    &&& forall|k: int|
                        0 <= k < rows.len() ==> {
                            let e = d.entries[shown(d)[first + k] as int];
                            #[trigger] rows[k] == (Row {
                                label: if e.dir {
                                    e.name + "/"@
                                } else {
                                    e.name
                                },
                                detail: e.detail,
                                dir: e.dir,
                                selected: first + k == i,
                            })
                        }
                }
        }),
{
    let rows = page_of(d, room).rows;
    let first = first_row(d.selected, room);
    assert(first + rows.len() <= shown(d).len());
}

/// The view moves no further than it must: it starts at the top, and where it does not the
/// selection is its last row.
pub proof fn the_view_moves_no_further_than_it_must(selected: Option<usize>, rows: int)
    requires
        rows > 0,
    ensures
        selected is None ==> first_row(selected, rows) == 0,
        selected is Some && selected->0 < rows ==> first_row(selected, rows) == 0,
        selected is Some && selected->0 >= rows ==> first_row(selected, rows) + rows - 1
            == selected->0,
{
}

} // verus!
