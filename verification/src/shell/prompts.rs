//! The person's prompts: trusted services ask, one dialog is up at a time, and none while the
//! session is locked.
use vstd::prelude::*;
use vstd::string::*;

use super::ask::{self, Asked, AskedView, Choice, Request, Response};

use crate::chooser::{above, below, indices, step_down, step_up, Press};
use crate::lock::printable;
use crate::text::{chars_of, find_part, has_part, is_control, lower, lowercase, string_of};
use crate::utf8::{byte_len, utf8_len};
use crate::views::{group_views, kept, lemma_kept_step, view_opt, views};

verus! {

/// How much can be typed, in bytes.
pub const MAX_TYPED: usize = 200;

pub const DIALOG_WIDTH: u32 = 640;

pub const DIALOG_HEIGHT: u32 = 480;

/// A yes or no, a secret, a touch: a line or two, no list.
pub const DIALOG_SMALL: u32 = 180;

/// Who asked, and gets the answer: ids are theirs, so they only mean something per wire.
#[derive(Clone, Copy, Debug, PartialEq, Eq, Structural)]
pub enum Wire {
    Cast,
    Agent,
}

impl Wire {
    pub open spec fn named(self) -> Seq<char> {
        match self {
            Wire::Cast => "drv-cast"@,
            Wire::Agent => "drv-agent"@,
        }
    }

    pub fn name(self) -> (r: &'static str)
        ensures
            r@ == self.named(),
    {
        match self {
            Wire::Cast => "drv-cast",
            Wire::Agent => "drv-agent",
        }
    }
}

/// What is asked. `T` is text, `C` a list of choices.
#[derive(Debug)]
pub enum What<T, C> {
    Confirm { note: T },
    Secret { prompt: T },
    Touch { prompt: T },
    Pick { note: T, choices: C },
}

pub type WhatView = What<Seq<char>, Seq<Choice<Seq<char>>>>;

impl View for What<String, Vec<Choice<String>>> {
    type V = WhatView;

    open spec fn view(&self) -> WhatView {
        match *self {
            What::Confirm { note } => What::Confirm { note: note@ },
            What::Secret { prompt } => What::Secret { prompt: prompt@ },
            What::Touch { prompt } => What::Touch { prompt: prompt@ },
            What::Pick { note, choices } => What::Pick { note: note@, choices: views(choices@) },
        }
    }
}

/// A question that waits, or is up. `T` is text, `C` a list of choices.
#[derive(Debug)]
pub struct Pending<T, C> {
    pub wire: Wire,
    pub id: u64,
    pub app: T,
    pub uid: u32,
    pub what: T,
    pub kind: What<T, C>,
}

pub type Waiting = Pending<String, Vec<Choice<String>>>;

pub type WaitingView = Pending<Seq<char>, Seq<Choice<Seq<char>>>>;

impl View for Pending<String, Vec<Choice<String>>> {
    type V = WaitingView;

    open spec fn view(&self) -> WaitingView {
        Pending {
            wire: self.wire,
            id: self.id,
            app: self.app@,
            uid: self.uid,
            what: self.what@,
            kind: self.kind@,
        }
    }
}

/// The dialog that is up. `P` is a question, `T` text.
#[derive(Debug)]
pub struct Dialog<P, T> {
    pub req: P,
    /// Into the shown choices.
    pub selected: Option<usize>,
    /// The secret, or the filter over the choices.
    pub typed: T,
}

pub type Shown = Dialog<Waiting, String>;

pub type ShownView = Dialog<WaitingView, Seq<char>>;

impl View for Dialog<Waiting, String> {
    type V = ShownView;

    open spec fn view(&self) -> ShownView {
        Dialog { req: self.req@, selected: self.selected, typed: self.typed@ }
    }
}

/// The questions. `Q` is a list of them, `D` the dialog.
#[derive(Debug)]
pub struct Prompts<Q, D> {
    pub queue: Q,
    pub dialog: Option<D>,
    /// Locked as far as we know: something covers the screens.
    pub locked: bool,
}

pub type Front = Prompts<Vec<Waiting>, Shown>;

pub type FrontView = Prompts<Seq<WaitingView>, ShownView>;

impl View for Prompts<Vec<Waiting>, Shown> {
    type V = FrontView;

    open spec fn view(&self) -> FrontView {
        Prompts { queue: views(self.queue@), dialog: view_opt(self.dialog), locked: self.locked }
    }
}

/// What is done, in order. `T` is text.
#[derive(Debug)]
pub enum Act<T> {
    /// The dialog goes up, with a list or without.
    Show { small: bool },
    Hide,
    Redraw,
    Reply { wire: Wire, resp: Response<T> },
}

impl View for Act<String> {
    type V = Act<Seq<char>>;

    open spec fn view(&self) -> Act<Seq<char>> {
        match *self {
            Act::Show { small } => Act::Show { small },
            Act::Hide => Act::Hide,
            Act::Redraw => Act::Redraw,
            Act::Reply { wire, resp } => Act::Reply { wire, resp: resp@ },
        }
    }
}

/// The choices of a question.
pub open spec fn choices_of(kind: WhatView) -> Seq<Choice<Seq<char>>> {
    match kind {
        What::Pick { choices, .. } => choices,
        _ => Seq::empty(),
    }
}

/// The choice passes the filter, by its name or by its detail.
pub open spec fn passes(d: ShownView, i: int) -> bool {
    let filter = lower(d.typed);
    let c = choices_of(d.req.kind)[i];
    filter.len() == 0 || has_part(lower(c.name), filter) || has_part(lower(c.detail), filter)
}

/// The choices that pass the filter, by index.
pub open spec fn shown(d: ShownView) -> Seq<usize> {
    kept(indices(choices_of(d.req.kind).len() as int), |i: usize| passes(d, i as int))
}

/// The first choice selected, where one is shown.
pub open spec fn reset(d: ShownView) -> ShownView {
    Dialog {
        selected: if shown(d).len() > 0 {
            Some(0)
        } else {
            None
        },
        ..d
    }
}

/// The key of the choice that is selected.
pub open spec fn selection(d: ShownView) -> Option<Seq<char>> {
    match d.selected {
        Some(i) => if i < shown(d).len() {
            Some(choices_of(d.req.kind)[shown(d)[i as int] as int].key)
        } else {
            None
        },
        None => None,
    }
}

/// What is typed can be added.
pub open spec fn can_type(typed: Seq<char>, s: Seq<char>) -> bool {
    (forall|i: int| 0 <= i < s.len() ==> !is_control(#[trigger] s[i])) && byte_len(typed)
        + byte_len(s) <= MAX_TYPED
}

/// The question is this one of this asker.
pub open spec fn is_it(p: WaitingView, wire: Wire, id: u64) -> bool {
    p.id == id && p.wire == wire
}

/// Where the first question of an id is in the queue; past the end where it is not.
pub open spec fn queued_at(queue: Seq<WaitingView>, wire: Wire, id: u64) -> int
    decreases queue.len(),
{
    if queue.len() == 0 || is_it(queue[0], wire, id) {
        0
    } else {
        1 + queued_at(queue.skip(1), wire, id)
    }
}

/// What something comes to: the questions after it, and what is done.
pub struct Turn {
    pub state: FrontView,
    pub acts: Seq<Act<Seq<char>>>,
}

impl Turn {
    /// Nothing done yet.
    pub open spec fn start(state: FrontView) -> Turn {
        Turn { state, acts: Seq::empty() }
    }

    /// One thing more is done.
    pub open spec fn act(self, act: Act<Seq<char>>) -> Turn {
        Turn { acts: self.acts.push(act), ..self }
    }

    /// The dialog is this one now.
    pub open spec fn with(self, d: ShownView) -> Turn {
        Turn { state: Prompts { dialog: Some(d), ..self.state }, ..self }
    }

    /// The next question goes up, if none is up and the session is not locked.
    pub open spec fn next(self) -> Turn {
        if self.state.dialog is Some || self.state.locked || self.state.queue.len() == 0 {
            self
        } else {
            let req = self.state.queue[0];
            (Turn {
                state: Prompts {
                    queue: self.state.queue.skip(1),
                    dialog: Some(reset(Dialog { req, selected: None, typed: Seq::empty() })),
                    ..self.state
                },
                ..self
            }).act(Act::Show { small: !(req.kind is Pick) })
        }
    }

    /// A question joins the queue.
    pub open spec fn enqueue(self, p: WaitingView) -> Turn {
        (Turn { state: Prompts { queue: self.state.queue.push(p), ..self.state }, ..self }).next()
    }

    /// The dialog comes down, and the next goes up.
    pub open spec fn close(self) -> Turn {
        (Turn { state: Prompts { dialog: None, ..self.state }, ..self }).act(Act::Hide).next()
    }

    /// The asker hears, and the next goes up.
    pub open spec fn finish(self, resp: Response<Seq<char>>) -> Turn {
        match self.state.dialog {
            Some(d) => self.act(Act::Reply { wire: d.req.wire, resp }).close(),
            None => self.next(),
        }
    }

    /// What an asker says.
    pub open spec fn heard(self, wire: Wire, req: AskedView) -> Turn {
        match req {
            Request::Hello { .. } => self.act(
                Act::Reply { wire, resp: Response::Hello { version: ask::VERSION } },
            ),
            Request::Confirm { id, app, uid, what, note } => self.enqueue(
                Pending { wire, id, app, uid, what, kind: What::Confirm { note } },
            ),
            Request::Secret { id, app, uid, what, prompt } => self.enqueue(
                Pending { wire, id, app, uid, what, kind: What::Secret { prompt } },
            ),
            Request::Touch { id, app, uid, what, prompt } => self.enqueue(
                Pending { wire, id, app, uid, what, kind: What::Touch { prompt } },
            ),
            Request::Pick { id, app, uid, what, note, choices } => self.pick(
                Pending { wire, id, app, uid, what, kind: What::Pick { note, choices } },
            ),
            Request::Cancel { id } => self.withdraw(wire, id),
        }
    }

    /// A list to pick from: for a question that is up or waits, the list changed.
    pub open spec fn pick(self, p: WaitingView) -> Turn {
        let i = queued_at(self.state.queue, p.wire, p.id);
        if self.state.dialog is Some && is_it(self.state.dialog->0.req, p.wire, p.id) {
            let d = self.state.dialog->0;
            self.with(reset(Dialog { req: Pending { kind: p.kind, ..d.req }, ..d })).act(Act::Redraw)
        } else if i < self.state.queue.len() {
            Turn {
                state: Prompts {
                    queue: self.state.queue.update(
                        i,
                        Pending { kind: p.kind, ..self.state.queue[i] },
                    ),
                    ..self.state
                },
                ..self
            }
        } else {
            self.enqueue(p)
        }
    }

    /// The asker withdrew a question.
    pub open spec fn withdraw(self, wire: Wire, id: u64) -> Turn {
        let left = Turn {
            state: Prompts {
                queue: kept(self.state.queue, |p: WaitingView| !is_it(p, wire, id)),
                ..self.state
            },
            ..self
        };
        if self.state.dialog is Some && is_it(self.state.dialog->0.req, wire, id) {
            left.close()
        } else {
            left
        }
    }

    /// Enter.
    pub open spec fn enter(self) -> Turn {
        match self.state.dialog {
            None => self,
            Some(d) => {
                let id = d.req.id;
                match d.req.kind {
                    What::Confirm { .. } => self.finish(Response::Yes { id }),
                    What::Secret { .. } => if d.typed.len() == 0 {
                        self
                    } else {
                        self.finish(Response::Secret { id, secret: d.typed })
                    },
                    What::Touch { .. } => self,
                    What::Pick { .. } => match selection(d) {
                        Some(key) => self.finish(Response::Picked { id, key }),
                        None => self,
                    },
                }
            },
        }
    }

    /// What a key does: a yes or no takes only the two, a touch only a refusal, and a secret is
    /// typed, sent or refused.
    pub open spec fn press(self, press: Press<Seq<char>>) -> Turn {
        match self.state.dialog {
            None => self,
            Some(d) => {
                let picking = d.req.kind is Pick;
                let typing = picking || d.req.kind is Secret;
                match press {
                    Press::Escape => self.finish(Response::Cancelled { id: d.req.id }),
                    Press::Enter => self.enter(),
                    Press::Up => if picking {
                        self.with(
                            Dialog { selected: above(d.selected, shown(d).len() as int), ..d },
                        ).act(Act::Redraw)
                    } else {
                        self
                    },
                    Press::Down => if picking {
                        self.with(
                            Dialog { selected: below(d.selected, shown(d).len() as int), ..d },
                        ).act(Act::Redraw)
                    } else {
                        self
                    },
                    Press::BackSpace => if typing && d.typed.len() > 0 {
                        self.typed(d, d.typed.drop_last())
                    } else {
                        self
                    },
                    Press::Typed(s) => if typing && can_type(d.typed, s) {
                        self.typed(d, d.typed + s)
                    } else {
                        self
                    },
                    Press::Left => self,
                }
            },
        }
    }

    /// What is typed changed.
    pub open spec fn typed(self, d: ShownView, typed: Seq<char>) -> Turn {
        let e = Dialog { typed, ..d };
        self.with(
            if d.req.kind is Secret {
                e
            } else {
                reset(e)
            },
        ).act(Act::Redraw)
    }

    /// The session is locked: the dialog goes back to the front of the queue. `locked` is
    /// whether anything covers the screens.
    pub open spec fn lock(self, locked: bool) -> Turn {
        match self.state.dialog {
            Some(d) => (Turn {
                state: Prompts { queue: seq![d.req] + self.state.queue, dialog: None, locked },
                ..self
            }).act(Act::Hide),
            None => Turn { state: Prompts { locked, ..self.state }, ..self },
        }
    }

    /// The session is unlocked: what waited comes up.
    pub open spec fn unlock(self) -> Turn {
        (Turn { state: Prompts { locked: false, ..self.state }, ..self }).next()
    }

    /// The compositor took the dialog down: the asker hears a refusal.
    pub open spec fn refuse(self) -> Turn {
        match self.state.dialog {
            Some(d) => self.finish(Response::Cancelled { id: d.req.id }),
            None => self,
        }
    }
}

/// The questions with what was done so far.
pub open spec fn turn(state: Front, out: Vec<Act<String>>) -> Turn {
    Turn { state: state@, acts: views(out@) }
}

impl Dialog<Waiting, String> {
    /// The choices that pass the filter, by index.
    pub fn shown(&self) -> (r: Vec<usize>)
        ensures
            r@ == shown(self@),
            forall|i: int|
                0 <= i < r@.len() ==> (#[trigger] r@[i]) < choices_of(self@.req.kind).len(),
    {
        broadcast use group_views;

        let choices = match &self.req.kind {
            What::Pick { choices, .. } => choices,
            _ => {
                assert(indices(0) =~= Seq::empty());
                return Vec::new();
            },
        };
        let ghost n = choices@.len() as int;
        let ghost keep = |i: usize| passes(self@, i as int);
        let filter = chars_of(lowercase(self.typed.as_str()).as_str());
        let mut list: Vec<usize> = Vec::new();
        let mut i: usize = 0;
        assert(indices(n).take(0) =~= Seq::empty());
        while i < choices.len()
            invariant
                i <= choices@.len(),
                n == choices@.len(),
                choices_of(self@.req.kind) == views(choices@),
                keep == (|i: usize| passes(self@, i as int)),
                filter@ == lower(self@.typed),
                list@ == kept(indices(n).take(i as int), keep),
                forall|j: int| 0 <= j < list@.len() ==> (#[trigger] list@[j]) < n,
            decreases choices@.len() - i,
        {
            broadcast use group_views;

            proof {
                lemma_kept_step(indices(n), keep, i as int);
                assert(indices(n)[i as int] == i);
                assert(views(choices@)[i as int] == choices@[i as int]@);
            }
            let c = &choices[i];
            let pass = filter.len() == 0 || find_part(
                &chars_of(lowercase(c.name.as_str()).as_str()),
                &filter,
            ) || find_part(&chars_of(lowercase(c.detail.as_str()).as_str()), &filter);
            if pass {
                list.push(i);
            }
            i = i + 1;
        }
        assert(indices(n).take(i as int) =~= indices(n));
        list
    }

    /// Whether the dialog has no list.
    pub fn small(&self) -> (r: bool)
        ensures
            r == !(self@.req.kind is Pick),
    {
        match self.req.kind {
            What::Pick { .. } => false,
            _ => true,
        }
    }

    fn reset_selection(&mut self)
        ensures
            final(self)@ == reset(old(self)@),
    {
        let some = self.shown().len() > 0;
        self.selected = if some {
            Some(0)
        } else {
            None
        };
    }

    /// The key of the choice that is selected.
    fn picked(&self) -> (r: Option<String>)
        ensures
            view_opt(r) == selection(self@),
    {
        broadcast use group_views;

        let i = match self.selected {
            Some(i) => i,
            None => return None,
        };
        let list = self.shown();
        if i >= list.len() {
            return None;
        }
        match &self.req.kind {
            What::Pick { choices, .. } => {
                assert(views(choices@)[list@[i as int] as int] == choices@[list@[i as int] as int]@);
                Some(choices[list[i]].key.clone())
            },
            _ => None,
        }
    }
}

/// Whether what is typed can be added.
fn typable(typed: &str, s: &str) -> (r: bool)
    ensures
        r == can_type(typed@, s@),
{
    let a = utf8_len(typed);
    let b = utf8_len(s);
    printable(s) && a <= MAX_TYPED && b <= MAX_TYPED - a
}

impl Prompts<Vec<Waiting>, Shown> {
    /// Nothing asked.
    pub fn new() -> (r: Front)
        ensures
            r@ == (Prompts {
                queue: Seq::<WaitingView>::empty(),
                dialog: None::<ShownView>,
                locked: false,
            }),
    {
        broadcast use group_views;

        Prompts { queue: Vec::new(), dialog: None, locked: false }
    }

    fn next(&mut self, out: &mut Vec<Act<String>>)
        ensures
            turn(*final(self), *final(out)) == turn(*old(self), *old(out)).next(),
    {
        broadcast use group_views;

        if self.dialog.is_some() || self.locked || self.queue.len() == 0 {
            return;
        }
        let req = self.queue.remove(0);
        assert(views(self.queue@) =~= old(self)@.queue.skip(1));
        assert(req@ == old(self)@.queue[0]);
        let mut d: Shown = Dialog { req, selected: None, typed: String::new() };
        d.reset_selection();
        let small = d.small();
        self.dialog = Some(d);
        out.push(Act::Show { small });
    }

    fn enqueue(&mut self, p: Waiting, out: &mut Vec<Act<String>>)
        ensures
            turn(*final(self), *final(out)) == turn(*old(self), *old(out)).enqueue(p@),
    {
        broadcast use group_views;

        self.queue.push(p);
        self.next(out);
    }

    fn close(&mut self, out: &mut Vec<Act<String>>)
        ensures
            turn(*final(self), *final(out)) == turn(*old(self), *old(out)).close(),
    {
        broadcast use group_views;

        self.dialog = None;
        out.push(Act::Hide);
        self.next(out);
    }

    fn finish(&mut self, resp: Response<String>, out: &mut Vec<Act<String>>)
        ensures
            turn(*final(self), *final(out)) == turn(*old(self), *old(out)).finish(resp@),
    {
        broadcast use group_views;

        let wire = match &self.dialog {
            Some(d) => d.req.wire,
            None => {
                self.next(out);
                return;
            },
        };
        out.push(Act::Reply { wire, resp });
        self.close(out);
    }

    /// What an asker says.
    pub fn asked(&mut self, wire: Wire, req: Asked) -> (out: Vec<Act<String>>)
        ensures
            turn(*final(self), out) == Turn::start(old(self)@).heard(wire, req@),
    {
        broadcast use group_views;

        let mut out: Vec<Act<String>> = Vec::new();
        match req {
            Request::Hello { .. } => out.push(
                Act::Reply { wire, resp: Response::Hello { version: ask::VERSION } },
            ),
            Request::Confirm { id, app, uid, what, note } => self.enqueue(
                Pending { wire, id, app, uid, what, kind: What::Confirm { note } },
                &mut out,
            ),
            Request::Secret { id, app, uid, what, prompt } => self.enqueue(
                Pending { wire, id, app, uid, what, kind: What::Secret { prompt } },
                &mut out,
            ),
            Request::Touch { id, app, uid, what, prompt } => self.enqueue(
                Pending { wire, id, app, uid, what, kind: What::Touch { prompt } },
                &mut out,
            ),
            Request::Pick { id, app, uid, what, note, choices } => self.pick(
                Pending { wire, id, app, uid, what, kind: What::Pick { note, choices } },
                &mut out,
            ),
            Request::Cancel { id } => self.withdraw(wire, id, &mut out),
        }
        out
    }

    /// Where the first question of an id is in the queue.
    fn find(&self, wire: Wire, id: u64) -> (r: usize)
        ensures
            r == queued_at(self@.queue, wire, id),
            r <= self.queue@.len(),
    {
        broadcast use group_views;

        let ghost all = self@.queue;
        let mut i: usize = 0;
        assert(all.skip(0) =~= all);
        while i < self.queue.len()
            invariant
                i <= self.queue@.len(),
                all == views(self.queue@),
                queued_at(all, wire, id) == i + queued_at(all.skip(i as int), wire, id),
            decreases self.queue@.len() - i,
        {
            assert(all.skip(i as int)[0] == self.queue@[i as int]@);
            assert(all.skip(i as int).skip(1) =~= all.skip(i + 1));
            let p = &self.queue[i];
            if p.id == id && p.wire == wire {
                return i;
            }
            i = i + 1;
        }
        i
    }

    fn pick(&mut self, p: Waiting, out: &mut Vec<Act<String>>)
        ensures
            turn(*final(self), *final(out)) == turn(*old(self), *old(out)).pick(p@),
    {
        broadcast use group_views;

        let ghost asked = p@;
        match self.dialog.take() {
            Some(mut d) => {
                if d.req.id == p.id && d.req.wire == p.wire {
                    d.req.kind = p.kind;
                    d.reset_selection();
                    self.dialog = Some(d);
                    out.push(Act::Redraw);
                    return;
                }
                self.dialog = Some(d);
            },
            None => {},
        }
        assert(self@ == old(self)@);
        let i = self.find(p.wire, p.id);
        if i < self.queue.len() {
            self.queue[i].kind = p.kind;
            assert(views(self.queue@) =~= old(self)@.queue.update(
                i as int,
                Pending { kind: asked.kind, ..old(self)@.queue[i as int] },
            ));
            return;
        }
        self.enqueue(p, out);
    }

    fn withdraw(&mut self, wire: Wire, id: u64, out: &mut Vec<Act<String>>)
        ensures
            turn(*final(self), *final(out)) == turn(*old(self), *old(out)).withdraw(wire, id),
    {
        broadcast use group_views;

        let ghost all = views(self.queue@);
        let ghost keep = |p: WaitingView| !is_it(p, wire, id);
        let ghost was = self.queue@;
        let mut left: Vec<Waiting> = Vec::new();
        let mut i: usize = 0;
        let n = self.queue.len();
        assert(all.take(0) =~= Seq::empty());
        assert(was.skip(0) =~= was);
        while self.queue.len() > 0
            invariant
                i <= n,
                n == was.len(),
                all == views(was),
                self.queue@ == was.skip(i as int),
                self.dialog == old(self).dialog,
                self.locked == old(self).locked,
                keep == (|p: WaitingView| !is_it(p, wire, id)),
                views(left@) == kept(all.take(i as int), keep),
            decreases self.queue@.len(),
        {
            broadcast use group_views;

            proof {
                lemma_kept_step(all, keep, i as int);
                assert(all[i as int] == was[i as int]@);
            }
            let p = self.queue.remove(0);
            assert(p == was[i as int]);
            assert(self.queue@ =~= was.skip(i + 1));
            if !(p.id == id && p.wire == wire) {
                left.push(p);
            }
            i = i + 1;
        }
        assert(all.take(i as int) =~= all);
        self.queue = left;
        let up = match &self.dialog {
            Some(d) => d.req.id == id && d.req.wire == wire,
            None => false,
        };
        if up {
            self.close(out);
        }
    }

    fn enter(&mut self, out: &mut Vec<Act<String>>)
        ensures
            turn(*final(self), *final(out)) == turn(*old(self), *old(out)).enter(),
    {
        let resp = match &self.dialog {
            None => return,
            Some(d) => {
                let id = d.req.id;
                match &d.req.kind {
                    What::Confirm { .. } => Response::Yes { id },
                    What::Secret { .. } => {
                        if d.typed.as_str().is_empty() {
                            return;
                        }
                        Response::Secret { id, secret: d.typed.clone() }
                    },
                    What::Touch { .. } => return,
                    What::Pick { .. } => match d.picked() {
                        Some(key) => Response::Picked { id, key },
                        None => return,
                    },
                }
            },
        };
        self.finish(resp, out);
    }

    /// What a key does.
    pub fn press(&mut self, press: Press<String>) -> (out: Vec<Act<String>>)
        ensures
            turn(*final(self), out) == Turn::start(old(self)@).press(press@),
    {
        broadcast use group_views;

        let mut out: Vec<Act<String>> = Vec::new();
        let (id, secret, picking) = match &self.dialog {
            None => return out,
            Some(d) => {
                let secret = match d.req.kind {
                    What::Secret { .. } => true,
                    _ => false,
                };
                (d.req.id, secret, !d.small())
            },
        };
        match press {
            Press::Escape => self.finish(Response::Cancelled { id }, &mut out),
            Press::Enter => self.enter(&mut out),
            Press::Left => {},
            Press::Up => {
                if picking {
                    if let Some(mut d) = self.dialog.take() {
                        let n = d.shown().len();
                        d.selected = step_up(d.selected, n);
                        self.dialog = Some(d);
                        out.push(Act::Redraw);
                    }
                }
            },
            Press::Down => {
                if picking {
                    if let Some(mut d) = self.dialog.take() {
                        let n = d.shown().len();
                        d.selected = step_down(d.selected, n);
                        self.dialog = Some(d);
                        out.push(Act::Redraw);
                    }
                }
            },
            Press::BackSpace => {
                if secret || picking {
                    if let Some(mut d) = self.dialog.take() {
                        let chars = chars_of(d.typed.as_str());
                        if chars.len() > 0 {
                            d.typed = string_of(&chars, 0, chars.len() - 1);
                            assert(d.typed@ =~= chars@.drop_last());
                            if !secret {
                                d.reset_selection();
                            }
                            out.push(Act::Redraw);
                        }
                        self.dialog = Some(d);
                    }
                }
            },
            Press::Typed(s) => {
                if secret || picking {
                    if let Some(mut d) = self.dialog.take() {
                        if typable(d.typed.as_str(), s.as_str()) {
                            d.typed.append(s.as_str());
                            if !secret {
                                d.reset_selection();
                            }
                            out.push(Act::Redraw);
                        }
                        self.dialog = Some(d);
                    }
                }
            },
        }
        out
    }

    /// The session is locked.
    pub fn lock(&mut self, locked: bool) -> (out: Vec<Act<String>>)
        ensures
            turn(*final(self), out) == Turn::start(old(self)@).lock(locked),
    {
        broadcast use group_views;

        let mut out: Vec<Act<String>> = Vec::new();
        self.locked = locked;
        match self.dialog.take() {
            Some(d) => {
                let ghost before = self.queue@;
                let ghost req = d.req@;
                self.queue.insert(0, d.req);
                assert(views(self.queue@) =~= seq![req] + views(before));
                out.push(Act::Hide);
            },
            None => {},
        }
        out
    }

    /// The session is unlocked.
    pub fn unlock(&mut self) -> (out: Vec<Act<String>>)
        ensures
            turn(*final(self), out) == Turn::start(old(self)@).unlock(),
    {
        broadcast use group_views;

        let mut out: Vec<Act<String>> = Vec::new();
        self.locked = false;
        self.next(&mut out);
        out
    }

    /// The compositor took the dialog down.
    pub fn refuse(&mut self) -> (out: Vec<Act<String>>)
        ensures
            turn(*final(self), out) == Turn::start(old(self)@).refuse(),
    {
        broadcast use group_views;

        let mut out: Vec<Act<String>> = Vec::new();
        let id = match &self.dialog {
            Some(d) => d.req.id,
            None => return out,
        };
        self.finish(Response::Cancelled { id }, &mut out);
        out
    }
}

} // verus!
