//! What a prompt says, row by row.
use vstd::prelude::*;
use vstd::string::*;

use super::prompts::{choices_of, shown, Dialog, ShownView, Waiting, What};
use crate::chooser::page::{first_row, scrolled};
use crate::lock::{dots, dotted};
use crate::text::chars_of;
use crate::views::{group_views, views};

verus! {

/// What a prompt says. `T` is text, `R` a list of rows: a choice's name and detail, and whether
/// it is selected.
#[derive(Debug)]
pub struct Page<T, R> {
    pub head: T,
    /// What it comes to, or what is asked for.
    pub note: T,
    /// What stands on the line under it; empty where there is none.
    pub line: T,
    /// Said where there is nothing to pick.
    pub nothing: T,
    pub rows: R,
    pub hint: T,
}

pub type PageView = Page<Seq<char>, Seq<(Seq<char>, Seq<char>, bool)>>;

impl View for Page<String, Vec<(String, String, bool)>> {
    type V = PageView;

    open spec fn view(&self) -> PageView {
        Page {
            head: self.head@,
            note: self.note@,
            line: self.line@,
            nothing: self.nothing@,
            rows: views(self.rows@),
            hint: self.hint@,
        }
    }
}

/// The rows shown, where there is room for so many.
pub open spec fn rows_of(d: ShownView, room: int) -> Seq<(Seq<char>, Seq<char>, bool)> {
    let first = first_row(d.selected, room);
    let list = shown(d);
    let n = if first >= list.len() {
        0
    } else if list.len() - first < room {
        list.len() - first
    } else {
        room
    };
    Seq::new(
        n as nat,
        |k: int|
            {
                let c = choices_of(d.req.kind)[list[first + k] as int];
                (c.name, c.detail, d.selected == Some((first + k) as usize))
            },
    )
}

/// What a prompt says.
pub open spec fn page_of(d: ShownView, room: int) -> PageView {
    Page {
        head: d.req.app + " wants to "@ + d.req.what,
        note: match d.req.kind {
            What::Confirm { note } => note,
            What::Secret { prompt } => prompt,
            What::Touch { prompt } => prompt,
            What::Pick { note, .. } => note,
        },
        line: match d.req.kind {
            What::Confirm { .. } => Seq::empty(),
            What::Secret { .. } => "PIN: "@ + dots(d.typed.len()) + "_"@,
            What::Touch { .. } => "touch it now"@,
            What::Pick { .. } => "filter: "@ + d.typed,
        },
        nothing: if d.req.kind is Pick && shown(d).len() == 0 {
            "nothing to pick"@
        } else {
            Seq::empty()
        },
        rows: rows_of(d, room),
        hint: match d.req.kind {
            What::Confirm { .. } => "Enter allow   Esc refuse"@,
            What::Secret { .. } => "Enter send   Esc refuse"@,
            What::Touch { .. } => "Esc refuse"@,
            What::Pick { .. } => "Enter share   Esc refuse"@,
        },
    }
}

impl Dialog<Waiting, String> {
    /// What the prompt says, where there is room for so many rows.
    pub fn page(&self, room: usize) -> (r: Page<String, Vec<(String, String, bool)>>)
        ensures
            r@ == page_of(self@, room as int),
    {
        broadcast use group_views;

        let mut head = self.req.app.clone();
        head.append(" wants to ");
        head.append(self.req.what.as_str());
        let list = self.shown();
        let mut line = String::new();
        let mut nothing = String::new();
        let (note, hint) = match &self.req.kind {
            What::Confirm { note } => (note.clone(), "Enter allow   Esc refuse"),
            What::Secret { prompt } => {
                line = "PIN: ".to_owned();
                line.append(dotted(chars_of(self.typed.as_str()).len()).as_str());
                line.append("_");
                (prompt.clone(), "Enter send   Esc refuse")
            },
            What::Touch { prompt } => {
                line = "touch it now".to_owned();
                (prompt.clone(), "Esc refuse")
            },
            What::Pick { note, .. } => {
                line = "filter: ".to_owned();
                line.append(self.typed.as_str());
                if list.len() == 0 {
                    nothing = "nothing to pick".to_owned();
                }
                (note.clone(), "Enter share   Esc refuse")
            },
        };
        let rows = self.rows(&list, room);
        Page { head, note, line, nothing, rows, hint: hint.to_owned() }
    }

    /// The rows shown, where there is room for so many.
    fn rows(&self, list: &Vec<usize>, room: usize) -> (r: Vec<(String, String, bool)>)
        requires
            list@ == shown(self@),
            forall|i: int|
                0 <= i < list@.len() ==> (#[trigger] list@[i]) < choices_of(self@.req.kind).len(),
        ensures
            views(r@) == rows_of(self@, room as int),
    {
        broadcast use group_views;

        let first = scrolled(self.selected, room);
        let ghost all = rows_of(self@, room as int);
        let mut rows: Vec<(String, String, bool)> = Vec::new();
        let choices = match &self.req.kind {
            What::Pick { choices, .. } => choices,
            _ => {
                assert(list@.len() == 0) by {
                    if list@.len() > 0 {
                        assert(list@[0] < choices_of(self@.req.kind).len());
                    }
                }
                assert(all =~= Seq::empty());
                return rows;
            },
        };
        let mut k: usize = 0;
        while k < room && first < list.len() && k < list.len() - first
            invariant
                first == first_row(self.selected, room as int),
                all == rows_of(self@, room as int),
                k <= all.len(),
                list@ == shown(self@),
                choices_of(self@.req.kind) == views(choices@),
                forall|i: int| 0 <= i < list@.len() ==> (#[trigger] list@[i]) < choices@.len(),
                views(rows@) == all.take(k as int),
            decreases room - k,
        {
            broadcast use group_views;

            let c = &choices[list[first + k]];
            assert(views(choices@)[list@[first + k] as int] == c@);
            let selected = match self.selected {
                Some(s) => s == first + k,
                None => false,
            };
            rows.push((c.name.clone(), c.detail.clone(), selected));
            assert(rows@.last()@ == all[k as int]);
            assert(all.take(k + 1) =~= all.take(k as int).push(all[k as int]));
            k = k + 1;
        }
        assert(all.take(k as int) =~= all);
        rows
    }
}

/// A secret is shown by how long it is, and by nothing else.
pub proof fn the_page_hides_the_secret(a: ShownView, b: ShownView, room: int)
    requires
        a.req == b.req,
        a.req.kind is Secret,
        a.selected is None,
        b.selected is None,
        a.typed.len() == b.typed.len(),
    ensures
        page_of(a, room) == page_of(b, room),
{
    assert(crate::chooser::indices(0) =~= Seq::empty());
    assert(rows_of(a, room) =~= rows_of(b, room));
}

} // verus!
