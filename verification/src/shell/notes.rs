//! Notifications: apps connect, what they say is shown under the manifest name for a while.
use vstd::prelude::*;

use super::notify::{ToShell, MAX_TEXT};
use crate::assoc::{del, get, put, set_row, take_row, value};
use crate::auth::MAX_TIME;
use crate::files::app::Conn;
use crate::text::{chars_of, lines, lines_of, string_of};
use crate::utf8::{clip_to, clipped};
use crate::views::{group_views, kept, lemma_kept_contains, lemma_kept_step, views};

verus! {

pub const NOTE_WIDTH: u32 = 400;

pub const NOTE_HEIGHT: u32 = 84;

/// How many notes are shown at once.
pub const NOTES_SHOWN: usize = 5;

/// How long a note stays, in nanoseconds.
pub const NOTE_TTL: u128 = 8_000_000_000;

/// A note. `T` is text.
#[derive(Debug)]
pub struct Note<T> {
    pub id: u32,
    pub uid: u32,
    pub app: T,
    pub summary: T,
    pub body: T,
    pub until: u128,
}

impl View for Note<String> {
    type V = Note<Seq<char>>;

    open spec fn view(&self) -> Note<Seq<char>> {
        Note {
            id: self.id,
            uid: self.uid,
            app: self.app@,
            summary: self.summary@,
            body: self.body@,
            until: self.until,
        }
    }
}

/// The apps that are connected and their notes. `C` is a list of connections, `L` of notes.
#[derive(Debug)]
pub struct Notes<C, L> {
    pub conns: C,
    pub list: L,
    pub next_id: u32,
    /// The surface is up.
    pub up: bool,
    /// The size the compositor gave it.
    pub size: (u32, u32),
}

pub type Cards = Notes<Vec<(u64, Conn<String>)>, Vec<Note<String>>>;

pub type CardsView = Notes<Seq<(u64, Conn<Seq<char>>)>, Seq<Note<Seq<char>>>>;

impl View for Notes<Vec<(u64, Conn<String>)>, Vec<Note<String>>> {
    type V = CardsView;

    open spec fn view(&self) -> CardsView {
        Notes {
            conns: views(self.conns@),
            list: views(self.list@),
            next_id: self.next_id,
            up: self.up,
            size: self.size,
        }
    }
}

/// What is done, in order.
#[derive(Debug, Clone, Copy, PartialEq, Eq, Structural)]
pub enum Act {
    /// The app hears the note's id.
    Notified { conn: u64, req: u64, id: u32 },
    Hide,
    /// The surface goes up, so high.
    Show { height: u32 },
    /// The surface is to be so high.
    Resize { height: u32 },
    Redraw,
}

/// What something comes to: the notes after it, and what is done.
pub struct Turn {
    pub notes: CardsView,
    pub acts: Seq<Act>,
}

/// How high the surface is for so many notes.
pub open spec fn height_of(n: int) -> int {
    let shown = if n < NOTES_SHOWN {
        n
    } else {
        NOTES_SHOWN as int
    };
    shown * NOTE_HEIGHT + (shown - 1) * 6
}

/// Where the note to be replaced is: the first of that id and uid; past the end where there is
/// none.
pub open spec fn note_at(list: Seq<Note<Seq<char>>>, id: u32, uid: u32) -> int
    decreases list.len(),
{
    if list.len() == 0 || (list[0].id == id && list[0].uid == uid) {
        0
    } else {
        1 + note_at(list.skip(1), id, uid)
    }
}

/// The id after this one: never zero.
pub open spec fn id_after(id: u32) -> u32 {
    if id == u32::MAX {
        1
    } else {
        (id + 1) as u32
    }
}

impl Turn {
    /// Nothing done yet.
    pub open spec fn start(notes: CardsView) -> Turn {
        Turn { notes, acts: Seq::empty() }
    }

    /// One thing more is done.
    pub open spec fn act(self, act: Act) -> Turn {
        Turn { acts: self.acts.push(act), ..self }
    }

    /// The surface follows the list: sized to it, gone when it is empty, hidden while locked.
    pub open spec fn show(self, locked: bool) -> Turn {
        let n = self.notes.list.len() as int;
        if n == 0 || locked {
            self.take_down()
        } else if !self.notes.up {
            (Turn { notes: Notes { up: true, size: (0, 0), ..self.notes }, ..self }).act(
                Act::Show { height: height_of(n) as u32 },
            )
        } else if self.notes.size.1 == height_of(n) {
            self.act(Act::Redraw)
        } else {
            self.act(Act::Resize { height: height_of(n) as u32 })
        }
    }

    /// The surface comes down; the notes stay listed.
    pub open spec fn take_down(self) -> Turn {
        if self.notes.up {
            (Turn { notes: Notes { up: false, ..self.notes }, ..self }).act(Act::Hide)
        } else {
            self
        }
    }

    /// An app notifies.
    pub open spec fn notify(
        self,
        conn: u64,
        req: u64,
        replaces: u32,
        summary: Seq<char>,
        body: Seq<char>,
        now: u128,
        locked: bool,
    ) -> Turn {
        match get(self.notes.conns, conn) {
            None => self,
            Some(c) => {
                let summary = clipped(summary, MAX_TEXT as nat);
                let body = clipped(body, MAX_TEXT as nat);
                let until = (now + NOTE_TTL) as u128;
                let list = self.notes.list;
                let i = note_at(list, replaces, c.uid);
                if replaces != 0 && i < list.len() {
                    (Turn {
                        notes: Notes {
                            list: list.update(i, Note { summary, body, until, ..list[i] }),
                            ..self.notes
                        },
                        ..self
                    }).act(Act::Notified { conn, req, id: replaces }).show(locked)
                } else {
                    let id = self.notes.next_id;
                    (Turn {
                        notes: Notes {
                            list: list.push(
                                Note { id, uid: c.uid, app: c.app, summary, body, until },
                            ),
                            next_id: id_after(id),
                            ..self.notes
                        },
                        ..self
                    }).act(Act::Notified { conn, req, id }).show(locked)
                }
            },
        }
    }

    /// An app takes one of its notes down.
    pub open spec fn close(self, conn: u64, id: u32, locked: bool) -> Turn {
        match get(self.notes.conns, conn) {
            None => self,
            Some(c) => (Turn {
                notes: Notes {
                    list: kept(
                        self.notes.list,
                        |n: Note<Seq<char>>| !(n.id == id && n.uid == c.uid),
                    ),
                    ..self.notes
                },
                ..self
            }).show(locked),
        }
    }

    /// What an app says. A second hello says nothing.
    pub open spec fn heard(self, conn: u64, msg: ToShell, now: u128, locked: bool) -> Turn {
        match msg {
            ToShell::Hello { .. } => self,
            ToShell::Notify { req, replaces, summary, body } => self.notify(
                conn,
                req,
                replaces,
                summary@,
                body@,
                now,
                locked,
            ),
            ToShell::Close { id } => self.close(conn, id, locked),
        }
    }

    /// Notes past their time go.
    pub open spec fn tick(self, now: u128, locked: bool) -> Turn {
        let left = kept(self.notes.list, |n: Note<Seq<char>>| n.until > now);
        let after = Turn { notes: Notes { list: left, ..self.notes }, ..self };
        if left.len() != self.notes.list.len() {
            after.show(locked)
        } else {
            after
        }
    }
}

/// The first line of a text: a card has one line for it.
pub open spec fn first_line(s: Seq<char>) -> Seq<char> {
    if lines(s).len() > 0 {
        lines(s)[0]
    } else {
        Seq::empty()
    }
}

/// The first line of a text.
pub fn one_line(s: &str) -> (r: String)
    ensures
        r@ == first_line(s@),
{
    let all = lines_of(&chars_of(s));
    if all.len() > 0 {
        assert(all@[0]@.subrange(0, all@[0]@.len() as int) =~= all@[0]@);
        string_of(&all[0], 0, all[0].len())
    } else {
        String::new()
    }
}

/// What a card says: the app, and a line of each text.
pub open spec fn card(n: Note<Seq<char>>) -> (Seq<char>, Seq<char>, Seq<char>) {
    (n.app, first_line(n.summary), first_line(n.body))
}

/// The cards shown: the last first.
pub open spec fn cards_of(list: Seq<Note<Seq<char>>>) -> Seq<(Seq<char>, Seq<char>, Seq<char>)> {
    let n = if list.len() < NOTES_SHOWN {
        list.len()
    } else {
        NOTES_SHOWN as nat
    };
    Seq::new(n, |i: int| card(list[list.len() - 1 - i]))
}

/// The notes with what was done so far.
pub open spec fn turn(notes: Cards, out: Vec<Act>) -> Turn {
    Turn { notes: notes@, acts: out@ }
}

impl Notes<Vec<(u64, Conn<String>)>, Vec<Note<String>>> {
    /// Nobody connected, nothing said.
    pub fn new() -> (r: Cards)
        ensures
            r@ == (Notes {
                conns: Seq::<(u64, Conn<Seq<char>>)>::empty(),
                list: Seq::<Note<Seq<char>>>::empty(),
                next_id: 1,
                up: false,
                size: (0, 0),
            }),
    {
        broadcast use group_views;

        Notes { conns: Vec::new(), list: Vec::new(), next_id: 1, up: false, size: (0, 0) }
    }

    /// An app connected.
    pub fn connected(&mut self, conn: u64, app: String, uid: u32)
        ensures
            final(self)@ == (Notes {
                conns: put(old(self)@.conns, conn, Conn { app: app@, uid }),
                ..old(self)@
            }),
    {
        set_row(&mut self.conns, conn, Conn { app, uid });
    }

    /// An app's connection went away; its notes stay.
    pub fn gone(&mut self, conn: u64)
        ensures
            final(self)@ == (Notes { conns: del(old(self)@.conns, conn), ..old(self)@ }),
    {
        let _ = take_row(&mut self.conns, &conn);
    }

    /// The surface follows the list.
    pub fn show(&mut self, locked: bool, out: &mut Vec<Act>)
        ensures
            turn(*final(self), *final(out)) == turn(*old(self), *old(out)).show(locked),
    {
        broadcast use group_views;

        let n = self.list.len();
        if n == 0 || locked {
            self.take_down(out);
            return;
        }
        let shown: u32 = if n < NOTES_SHOWN {
            n as u32
        } else {
            5
        };
        let height = shown * NOTE_HEIGHT + (shown - 1) * 6;
        if !self.up {
            self.up = true;
            self.size = (0, 0);
            out.push(Act::Show { height });
        } else if self.size.1 == height {
            out.push(Act::Redraw);
        } else {
            out.push(Act::Resize { height });
        }
    }

    /// The surface comes down; the notes stay listed.
    pub fn take_down(&mut self, out: &mut Vec<Act>)
        ensures
            turn(*final(self), *final(out)) == turn(*old(self), *old(out)).take_down(),
    {
        if self.up {
            self.up = false;
            out.push(Act::Hide);
        }
    }

    /// Where the note to be replaced is.
    fn find(&self, id: u32, uid: u32) -> (r: usize)
        ensures
            r == note_at(self@.list, id, uid),
            r <= self.list@.len(),
            r < self.list@.len() ==> self.list@[r as int].id == id,
    {
        broadcast use group_views;

        let ghost all = self@.list;
        let mut i: usize = 0;
        assert(all.skip(0) =~= all);
        while i < self.list.len()
            invariant
                i <= self.list@.len(),
                all == views(self.list@),
                note_at(all, id, uid) == i + note_at(all.skip(i as int), id, uid),
            decreases self.list@.len() - i,
        {
            assert(all.skip(i as int)[0] == self.list@[i as int]@);
            assert(all.skip(i as int).skip(1) =~= all.skip(i + 1));
            let n = &self.list[i];
            if n.id == id && n.uid == uid {
                return i;
            }
            i = i + 1;
        }
        i
    }

    /// What an app says comes to, at a time.
    pub fn said(&mut self, conn: u64, msg: ToShell, now: u128, locked: bool) -> (out: Vec<Act>)
        requires
            now <= MAX_TIME,
        ensures
            turn(*final(self), out) == Turn::start(old(self)@).heard(conn, msg, now, locked),
    {
        let mut out: Vec<Act> = Vec::new();
        match msg {
            ToShell::Hello { .. } => {},
            ToShell::Notify { req, replaces, summary, body } => {
                self.notify(
                    conn,
                    req,
                    replaces,
                    summary.as_str(),
                    body.as_str(),
                    now,
                    locked,
                    &mut out,
                );
            },
            ToShell::Close { id } => {
                self.close(conn, id, locked, &mut out);
            },
        }
        out
    }

    fn notify(
        &mut self,
        conn: u64,
        req: u64,
        replaces: u32,
        summary: &str,
        body: &str,
        now: u128,
        locked: bool,
        out: &mut Vec<Act>,
    )
        requires
            now <= MAX_TIME,
        ensures
            turn(*final(self), *final(out)) == turn(*old(self), *old(out)).notify(
                conn,
                req,
                replaces,
                summary@,
                body@,
                now,
                locked,
            ),
    {
        broadcast use group_views;

        let (app, uid) = match value(&self.conns, &conn) {
            Some(c) => (c.app.clone(), c.uid),
            None => return,
        };
        let summary = clip_to(summary, MAX_TEXT).to_owned();
        let body = clip_to(body, MAX_TEXT).to_owned();
        let until = now + NOTE_TTL;
        let i = self.find(replaces, uid);
        let id = if replaces != 0 && i < self.list.len() {
            let ghost was = self.list@;
            self.list[i].summary = summary;
            self.list[i].body = body;
            self.list[i].until = until;
            assert(views(self.list@) =~= views(was).update(
                i as int,
                Note { summary: summary@, body: body@, until, ..views(was)[i as int] },
            ));
            replaces
        } else {
            let id = self.next_id;
            self.next_id = if id == u32::MAX {
                1
            } else {
                id + 1
            };
            self.list.push(Note { id, uid, app, summary, body, until });
            id
        };
        out.push(Act::Notified { conn, req, id });
        self.show(locked, out);
    }

    fn close(&mut self, conn: u64, id: u32, locked: bool, out: &mut Vec<Act>)
        ensures
            turn(*final(self), *final(out)) == turn(*old(self), *old(out)).close(
                conn,
                id,
                locked,
            ),
    {
        broadcast use group_views;

        let uid = match value(&self.conns, &conn) {
            Some(c) => c.uid,
            None => return,
        };
        let ghost keep = |n: Note<Seq<char>>| !(n.id == id && n.uid == uid);
        let ghost was = self.list@;
        let ghost all = views(was);
        let mut left: Vec<Note<String>> = Vec::new();
        let n = self.list.len();
        let mut i: usize = 0;
        assert(all.take(0) =~= Seq::empty());
        assert(was.skip(0) =~= was);
        while self.list.len() > 0
            invariant
                i <= n,
                n == was.len(),
                all == views(was),
                self.list@ == was.skip(i as int),
                *self == (Notes { list: self.list, ..*old(self) }),
                keep == (|n: Note<Seq<char>>| !(n.id == id && n.uid == uid)),
                views(left@) == kept(all.take(i as int), keep),
            decreases self.list@.len(),
        {
            broadcast use group_views;

            proof {
                lemma_kept_step(all, keep, i as int);
                assert(all[i as int] == was[i as int]@);
            }
            let note = self.list.remove(0);
            assert(note == was[i as int]);
            assert(self.list@ =~= was.skip(i + 1));
            if !(note.id == id && note.uid == uid) {
                left.push(note);
            }
            i = i + 1;
        }
        assert(all.take(i as int) =~= all);
        self.list = left;
        self.show(locked, out);
    }

    /// Notes past their time go.
    pub fn tick(&mut self, now: u128, locked: bool) -> (out: Vec<Act>)
        ensures
            turn(*final(self), out) == Turn::start(old(self)@).tick(now, locked),
    {
        broadcast use group_views;

        let mut out: Vec<Act> = Vec::new();
        let ghost keep = |n: Note<Seq<char>>| n.until > now;
        let ghost was = self.list@;
        let ghost all = views(was);
        let mut left: Vec<Note<String>> = Vec::new();
        let n = self.list.len();
        let mut i: usize = 0;
        assert(all.take(0) =~= Seq::empty());
        assert(was.skip(0) =~= was);
        while self.list.len() > 0
            invariant
                i <= n,
                n == was.len(),
                all == views(was),
                self.list@ == was.skip(i as int),
                *self == (Notes { list: self.list, ..*old(self) }),
                keep == (|n: Note<Seq<char>>| n.until > now),
                views(left@) == kept(all.take(i as int), keep),
            decreases self.list@.len(),
        {
            broadcast use group_views;

            proof {
                lemma_kept_step(all, keep, i as int);
                assert(all[i as int] == was[i as int]@);
            }
            let note = self.list.remove(0);
            assert(note == was[i as int]);
            assert(self.list@ =~= was.skip(i + 1));
            if note.until > now {
                left.push(note);
            }
            i = i + 1;
        }
        assert(all.take(i as int) =~= all);
        self.list = left;
        if self.list.len() != n {
            self.show(locked, &mut out);
        }
        out
    }

    /// The cards shown: the last first.
    pub fn cards(&self) -> (r: Vec<(String, String, String)>)
        ensures
            views(r@) == cards_of(self@.list),
    {
        broadcast use group_views;

        let ghost all = cards_of(self@.list);
        let mut out: Vec<(String, String, String)> = Vec::new();
        let mut i: usize = 0;
        while i < NOTES_SHOWN && i < self.list.len()
            invariant
                i <= all.len(),
                all == cards_of(self@.list),
                views(out@) == all.take(i as int),
            decreases NOTES_SHOWN - i,
        {
            broadcast use group_views;

            let n = &self.list[self.list.len() - 1 - i];
            assert(self@.list[self.list@.len() - 1 - i] == n@);
            out.push((n.app.clone(), one_line(n.summary.as_str()), one_line(n.body.as_str())));
            assert(out@.last()@ == all[i as int]);
            assert(all.take(i + 1) =~= all.take(i as int).push(all[i as int]));
            i = i + 1;
        }
        assert(all.take(i as int) =~= all);
        out
    }
}

/// What one app says leaves the notes of every other uid as they were.
pub proof fn notes_are_their_apps_own(
    notes: CardsView,
    conn: u64,
    msg: ToShell,
    now: u128,
    locked: bool,
    note: Note<Seq<char>>,
)
    requires
        get(notes.conns, conn) is Some,
        note.uid != get(notes.conns, conn)->0.uid,
    ensures
        Turn::start(notes).heard(conn, msg, now, locked).notes.list.contains(note)
            <==> notes.list.contains(note),
{
    let c = get(notes.conns, conn)->0;
    let list = notes.list;
    let after = Turn::start(notes).heard(conn, msg, now, locked).notes.list;
    match msg {
        ToShell::Hello { .. } => {},
        ToShell::Notify { req, replaces, summary, body } => {
            let i = note_at(list, replaces, c.uid);
            lemma_note_at(list, replaces, c.uid);
            if replaces != 0 && i < list.len() {
                if list.contains(note) {
                    let k = choose|k: int| 0 <= k < list.len() && list[k] == note;
                    assert(after[k] == note);
                }
                if after.contains(note) {
                    let k = choose|k: int| 0 <= k < after.len() && after[k] == note;
                    assert(list[k] == note);
                }
            } else {
                vstd::seq_lib::lemma_seq_contains_after_push(list, after.last(), note);
                if list.contains(note) {
                    let k = choose|k: int| 0 <= k < list.len() && list[k] == note;
                    assert(after[k] == note);
                }
                if after.contains(note) {
                    let k = choose|k: int| 0 <= k < after.len() && after[k] == note;
                    assert(list[k] == note);
                }
            }
        },
        ToShell::Close { id } => {
            lemma_kept_contains(
                list,
                |n: Note<Seq<char>>| !(n.id == id && n.uid == c.uid),
                note,
            );
        },
    }
}

proof fn lemma_note_at(list: Seq<Note<Seq<char>>>, id: u32, uid: u32)
    ensures
        0 <= note_at(list, id, uid) <= list.len(),
        note_at(list, id, uid) < list.len() ==> list[note_at(list, id, uid)].uid == uid
            && list[note_at(list, id, uid)].id == id,
    decreases list.len(),
{
    if list.len() > 0 && !(list[0].id == id && list[0].uid == uid) {
        lemma_note_at(list.skip(1), id, uid);
    }
}

/// A note is over when its time is: nothing that is past stays, and all else does.
pub proof fn notes_go_with_their_time(notes: CardsView, now: u128, locked: bool, note: Note<Seq<char>>)
    ensures
        Turn::start(notes).tick(now, locked).notes.list.contains(note) <==> (notes.list.contains(
            note,
        ) && note.until > now),
{
    lemma_kept_contains(notes.list, |n: Note<Seq<char>>| n.until > now, note);
}

/// A note that is taken down again by its app leaves the list as it was, where no other of the
/// app's notes has its number.
pub proof fn closing_undoes_notifying(
    notes: CardsView,
    conn: u64,
    req: u64,
    summary: Seq<char>,
    body: Seq<char>,
    now: u128,
    locked: bool,
)
    requires
        get(notes.conns, conn) is Some,
        forall|i: int|
            0 <= i < notes.list.len() ==> !((#[trigger] notes.list[i]).id == notes.next_id
                && notes.list[i].uid == get(notes.conns, conn)->0.uid),
    ensures
        Turn::start(notes).notify(conn, req, 0, summary, body, now, locked).close(
            conn,
            notes.next_id,
            locked,
        ).notes.list == notes.list,
{
    let uid = get(notes.conns, conn)->0.uid;
    let id = notes.next_id;
    let after = Turn::start(notes).notify(conn, req, 0, summary, body, now, locked);
    let keep = |n: Note<Seq<char>>| !(n.id == id && n.uid == uid);
    assert(after.notes.list.drop_last() =~= notes.list);
    crate::views::lemma_kept_all(notes.list, keep);
    assert(kept(after.notes.list, keep) == kept(after.notes.list.drop_last(), keep));
}

} // verus!
