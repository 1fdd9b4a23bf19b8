//! The person's side of the portals: files from the tree we own, and screens that the
//! compositor streams once the person has said which.
use vstd::prelude::*;
use vstd::string::*;

use super::compositor::{Output, ToCompositor, ToPortal};
use super::protocol::{Cursor, Kind, VERSION};
use crate::assoc::{del, get, put, set_row, take_row, value};
use crate::chooser::{self, Desk, Dialog, Entry, Front, FrontView, Pending, Press, What};
use crate::text::{decimal_int, number_int, same_text};
use crate::views::{group_views, views};

verus! {

/// A cast the person consented to, from `Start` until the compositor says `Stopped`.
#[derive(Debug)]
pub struct Live {
    pub app: String,
    pub uid: u32,
    pub output: Output,
}

pub struct LiveView {
    pub app: Seq<char>,
    pub uid: u32,
    pub output: Output,
}

impl View for Live {
    type V = LiveView;

    open spec fn view(&self) -> LiveView {
        LiveView { app: self.app@, uid: self.uid, output: self.output }
    }
}

/// The dialogs, what the compositor last said it has, and the casts by the bridge's ids.
#[derive(Debug)]
pub struct Portal {
    pub desk: Front,
    pub outputs: Vec<Output>,
    pub casts: Vec<(u64, Live)>,
}

/// The same by value.
pub struct State {
    pub desk: FrontView,
    pub outputs: Seq<Output>,
    pub casts: Seq<(u64, LiveView)>,
}

impl View for Portal {
    type V = State;

    open spec fn view(&self) -> State {
        State { desk: self.desk@, outputs: self.outputs@, casts: views(self.casts@) }
    }
}

/// What is done, in order. `T` is text.
#[derive(Debug)]
pub enum Act<T> {
    /// The dialogs' part. Who asked is the bridge, under its own ids.
    Desk(chooser::Act<T>),
    /// To the compositor.
    Tell(ToCompositor<T>),
    /// To the bridge: our version.
    Hello { version: u32 },
    /// To the bridge: the cast streams.
    Cast { id: u64, node_id: u32, output: T, width: i32, height: i32 },
    /// To the bridge: the cast ended.
    Closed { id: u64 },
}

impl View for Act<String> {
    type V = Act<Seq<char>>;

    open spec fn view(&self) -> Act<Seq<char>> {
        match *self {
            Act::Desk(act) => Act::Desk(act@),
            Act::Tell(msg) => Act::Tell(msg@),
            Act::Hello { version } => Act::Hello { version },
            Act::Cast { id, node_id, output, width, height } => Act::Cast {
                id,
                node_id,
                output: output@,
                width,
                height,
            },
            Act::Closed { id } => Act::Closed { id },
        }
    }
}

/// What something comes to: the state after it, and what is done.
pub struct Turn {
    pub state: State,
    pub acts: Seq<Act<Seq<char>>>,
}

/// The dialogs' part of what is done.
pub open spec fn desk_acts(acts: Seq<chooser::Act<Seq<char>>>) -> Seq<Act<Seq<char>>> {
    acts.map_values(|a: chooser::Act<Seq<char>>| Act::Desk(a))
}

impl Turn {
    /// Nothing done yet.
    pub open spec fn start(state: State) -> Turn {
        Turn { state, acts: Seq::empty() }
    }

    /// One thing more is done.
    pub open spec fn act(self, act: Act<Seq<char>>) -> Turn {
        Turn { acts: self.acts.push(act), ..self }
    }

    /// The dialogs do their part.
    pub open spec fn desk(self, turn: chooser::Turn) -> Turn {
        Turn {
            state: State { desk: turn.desk, ..self.state },
            acts: self.acts + desk_acts(turn.acts),
        }
    }
}

/// The first output of a name; past the end where there is none.
pub open spec fn output_at(outputs: Seq<Output>, name: Seq<char>) -> int
    decreases outputs.len(),
{
    if outputs.len() == 0 || outputs[0].name@ == name {
        0
    } else {
        1 + output_at(outputs.skip(1), name)
    }
}

/// How a screen reads.
pub open spec fn screen(o: Output) -> Entry<Seq<char>> {
    Entry {
        name: o.name@,
        dir: false,
        detail: o.make@ + " "@ + o.model@ + "  "@ + decimal_int(o.width as int) + "x"@
            + decimal_int(o.height as int),
    }
}

/// The screens that are on.
pub open spec fn screens_on(outputs: Seq<Output>) -> Seq<Entry<Seq<char>>>
    decreases outputs.len(),
{
    if outputs.len() == 0 {
        Seq::empty()
    } else {
        let before = screens_on(outputs.drop_last());
        let o = outputs.last();
        if o.width != 0 && o.height != 0 {
            before.push(screen(o))
        } else {
            before
        }
    }
}

/// A file is asked for.
pub open spec fn on_choose(st: State, id: u64, app: Seq<char>, uid: u32, title: Seq<char>, kind: Kind) -> Turn {
    Turn::start(st).desk(
        chooser::Turn::start(st.desk).ask(
            Pending { who: (0, id), app, uid, title, what: crate::files::app::what_of(kind) },
        ),
    )
}

/// A screen is asked for.
pub open spec fn on_cast(st: State, id: u64, app: Seq<char>, uid: u32, cursor: Cursor) -> Turn {
    Turn::start(st).act(Act::Tell(ToCompositor::Outputs)).desk(
        chooser::Turn::start(st.desk).ask(
            Pending { who: (0, id), app, uid, title: Seq::empty(), what: What::Screen(cursor) },
        ),
    )
}

/// A request is withdrawn, or a cast closed.
pub open spec fn on_cancel(st: State, id: u64) -> Turn {
    let t = Turn::start(st).desk(chooser::Turn::start(st.desk).withdraw(0, Some(id)));
    if get(st.casts, id) is Some {
        (Turn { state: State { casts: del(st.casts, id), ..t.state }, ..t }).act(
            Act::Tell(ToCompositor::Stop { cast: id }),
        )
    } else {
        t
    }
}

/// What the compositor says comes to.
pub open spec fn on_compositor(st: State, msg: ToPortal) -> Turn {
    let t = Turn::start(st);
    match msg {
        ToPortal::Hello { .. } => t,
        ToPortal::Outputs(outputs) => (Turn {
            state: State { outputs: outputs@, ..st },
            ..t
        }).desk(chooser::Turn::start(st.desk).screens(screens_on(outputs@))),
        ToPortal::Started { cast, node_id } => match get(st.casts, cast) {
            Some(live) => t.act(
                Act::Cast {
                    id: cast,
                    node_id,
                    output: live.output.name@,
                    width: live.output.width,
                    height: live.output.height,
                },
            ),
            None => t.act(Act::Tell(ToCompositor::Stop { cast })),
        },
        ToPortal::Stopped { cast } => match get(st.casts, cast) {
            Some(_) => (Turn { state: State { casts: del(st.casts, cast), ..st }, ..t }).act(
                Act::Closed { id: cast },
            ),
            None => t,
        },
    }
}

/// The person picked a screen for the dialog that is up.
pub open spec fn start_cast(st: State, name: Seq<char>) -> Turn {
    let t = Turn::start(st);
    match st.desk.dialog {
        Some(d) => match d.req.what {
            What::Screen(cursor) => {
                let i = output_at(st.outputs, name);
                let id = d.req.who.1;
                if i < st.outputs.len() {
                    (Turn {
                        state: State {
                            casts: put(
                                st.casts,
                                id,
                                LiveView {
                                    app: d.req.app,
                                    uid: d.req.uid,
                                    output: st.outputs[i],
                                },
                            ),
                            ..st
                        },
                        ..t
                    }).act(
                        Act::Tell(ToCompositor::Start { cast: id, output: name, cursor }),
                    ).desk(chooser::Turn::start(st.desk).close())
                } else {
                    t.desk(
                        chooser::Turn::start(st.desk).with(
                            Dialog { note: Some(name + " is gone"@), ..d },
                        ).act(chooser::Act::Redraw),
                    )
                }
            },
            _ => t,
        },
        None => t,
    }
}

/// What a key does: Enter on a screen shares it, the rest is the dialogs'.
pub open spec fn on_press(st: State, press: Press<Seq<char>>) -> Turn {
    match st.desk.dialog {
        Some(d) => if d.is_casting() && press is Enter {
            match chooser::selection(d) {
                Some(e) => start_cast(st, e.name),
                None => Turn::start(st),
            }
        } else {
            Turn::start(st).desk(chooser::Turn::start(st.desk).press(press))
        },
        None => Turn::start(st),
    }
}

/// The state with what was done so far.
pub open spec fn turn(portal: Portal, out: Vec<Act<String>>) -> Turn {
    Turn { state: portal@, acts: views(out@) }
}

/// The dialogs' part is done after the rest.
fn lift(acts: Vec<chooser::Act<String>>, out: &mut Vec<Act<String>>)
    ensures
        views(final(out)@) == views(old(out)@) + desk_acts(views(acts@)),
{
    broadcast use group_views;

    let ghost start = views(out@);
    let ghost all = desk_acts(views(acts@));
    let ghost was = acts@;
    let mut acts = acts;
    let n = acts.len();
    let mut i: usize = 0;
    assert(start + all.take(0) =~= start);
    assert(was.skip(0) =~= was);
    while acts.len() > 0
        invariant
            i <= n,
            n == was.len(),
            all == desk_acts(views(was)),
            acts@ == was.skip(i as int),
            views(out@) == start + all.take(i as int),
        decreases acts@.len(),
    {
        broadcast use group_views;

        let a = acts.remove(0);
        assert(a == was[i as int]);
        assert(acts@ =~= was.skip(i + 1));
        assert(all[i as int] == Act::Desk(views(was)[i as int]));
        out.push(Act::Desk(a));
        assert(start + all.take(i + 1) =~= (start + all.take(i as int)).push(all[i as int]));
        i = i + 1;
    }
    assert(all.take(i as int) =~= all);
}

/// How a screen reads.
fn screen_entry(o: &Output) -> (r: Entry<String>)
    ensures
        r@ == screen(*o),
{
    let mut detail = o.make.clone();
    detail.append(" ");
    detail.append(o.model.as_str());
    detail.append("  ");
    detail.append(number_int(o.width as i64).as_str());
    detail.append("x");
    detail.append(number_int(o.height as i64).as_str());
    Entry { name: o.name.clone(), dir: false, detail }
}

/// The screens that are on.
fn screen_entries(outputs: &Vec<Output>) -> (r: Vec<Entry<String>>)
    ensures
        views(r@) == screens_on(outputs@),
{
    broadcast use group_views;

    let mut list: Vec<Entry<String>> = Vec::new();
    let mut i: usize = 0;
    assert(outputs@.take(0) =~= Seq::empty());
    while i < outputs.len()
        invariant
            i <= outputs@.len(),
            views(list@) == screens_on(outputs@.take(i as int)),
        decreases outputs@.len() - i,
    {
        broadcast use group_views;

        assert(outputs@.take(i + 1).drop_last() =~= outputs@.take(i as int));
        let o = &outputs[i];
        if o.width != 0 && o.height != 0 {
            list.push(screen_entry(o));
        }
        i = i + 1;
    }
    assert(outputs@.take(i as int) =~= outputs@);
    list
}

/// The first output of a name.
fn find_output(outputs: &Vec<Output>, name: &str) -> (r: usize)
    ensures
        r == output_at(outputs@, name@),
        r <= outputs@.len(),
        r < outputs@.len() ==> outputs@[r as int].name@ == name@,
{
    let mut i: usize = 0;
    assert(outputs@.skip(0) =~= outputs@);
    while i < outputs.len()
        invariant
            i <= outputs@.len(),
            output_at(outputs@, name@) == i + output_at(outputs@.skip(i as int), name@),
        decreases outputs@.len() - i,
    {
        assert(outputs@.skip(i as int)[0] == outputs@[i as int]);
        assert(outputs@.skip(i as int).skip(1) =~= outputs@.skip(i + 1));
        if same_text(outputs[i].name.as_str(), name) {
            return i;
        }
        i = i + 1;
    }
    i
}

impl Output {
    /// The same output once more.
    fn copy(&self) -> (r: Output)
        ensures
            r == *self,
    {
        Output {
            name: self.name.clone(),
            make: self.make.clone(),
            model: self.model.clone(),
            width: self.width,
            height: self.height,
        }
    }
}

impl Portal {
    /// Nothing asked, nothing known.
    pub fn new() -> (r: Portal)
        ensures
            r@.desk == (Desk {
                queue: Seq::<Pending<Seq<char>>>::empty(),
                dialog: None::<chooser::ShownView>,
                screens: Seq::<Entry<Seq<char>>>::empty(),
            }),
            r@.outputs == Seq::<Output>::empty(),
            r@.casts == Seq::<(u64, LiveView)>::empty(),
    {
        broadcast use group_views;

        Portal { desk: Front::new(), outputs: Vec::new(), casts: Vec::new() }
    }

    /// The bridge's hello, whatever it speaks, is answered with our version.
    pub fn hello(&self) -> (out: Vec<Act<String>>)
        ensures
            views(out@) == seq![Act::<Seq<char>>::Hello { version: VERSION }],
    {
        broadcast use group_views;

        let mut out: Vec<Act<String>> = Vec::new();
        out.push(Act::Hello { version: VERSION });
        assert(views(out@) =~= seq![Act::<Seq<char>>::Hello { version: VERSION }]);
        out
    }

    /// A file is asked for.
    pub fn file(&mut self, id: u64, app: String, uid: u32, title: String, kind: Kind) -> (out: Vec<Act<String>>)
        ensures
            turn(*final(self), out) == on_choose(old(self)@, id, app@, uid, title@, kind),
    {
        broadcast use group_views;

        let what = match kind {
            Kind::Open => What::Open,
            Kind::Save { name } => What::Save { name },
        };
        let mut acts: Vec<chooser::Act<String>> = Vec::new();
        self.desk.ask(Pending { who: (0, id), app, uid, title, what }, &mut acts);
        let mut out: Vec<Act<String>> = Vec::new();
        lift(acts, &mut out);
        out
    }

    /// A screen is asked for.
    pub fn cast(&mut self, id: u64, app: String, uid: u32, cursor: Cursor) -> (out: Vec<Act<String>>)
        ensures
            turn(*final(self), out) == on_cast(old(self)@, id, app@, uid, cursor),
    {
        broadcast use group_views;

        let mut out: Vec<Act<String>> = Vec::new();
        out.push(Act::Tell(ToCompositor::Outputs));
        let mut acts: Vec<chooser::Act<String>> = Vec::new();
        self.desk.ask(
            Pending { who: (0, id), app, uid, title: String::new(), what: What::Screen(cursor) },
            &mut acts,
        );
        lift(acts, &mut out);
        out
    }

    /// A request is withdrawn, or a cast closed.
    pub fn cancel(&mut self, id: u64) -> (out: Vec<Act<String>>)
        ensures
            turn(*final(self), out) == on_cancel(old(self)@, id),
    {
        broadcast use group_views;

        let mut out: Vec<Act<String>> = Vec::new();
        let mut acts: Vec<chooser::Act<String>> = Vec::new();
        self.desk.withdraw(0, Some(id), &mut acts);
        lift(acts, &mut out);
        if let Some(_) = take_row(&mut self.casts, &id) {
            out.push(Act::Tell(ToCompositor::Stop { cast: id }));
        }
        out
    }

    /// What the compositor says comes to.
    pub fn compositor(&mut self, msg: ToPortal) -> (out: Vec<Act<String>>)
        ensures
            turn(*final(self), out) == on_compositor(old(self)@, msg),
    {
        broadcast use group_views;

        let mut out: Vec<Act<String>> = Vec::new();
        match msg {
            ToPortal::Hello { .. } => {},
            ToPortal::Outputs(outputs) => {
                let mut acts: Vec<chooser::Act<String>> = Vec::new();
                self.desk.screens_are(screen_entries(&outputs), &mut acts);
                self.outputs = outputs;
                lift(acts, &mut out);
            },
            ToPortal::Started { cast, node_id } => match value(&self.casts, &cast) {
                Some(live) => out.push(
                    Act::Cast {
                        id: cast,
                        node_id,
                        output: live.output.name.clone(),
                        width: live.output.width,
                        height: live.output.height,
                    },
                ),
                None => out.push(Act::Tell(ToCompositor::Stop { cast })),
            },
            ToPortal::Stopped { cast } => {
                if let Some(_) = take_row(&mut self.casts, &cast) {
                    out.push(Act::Closed { id: cast });
                }
            },
        }
        out
    }

    /// The person picked a screen.
    fn start_cast(&mut self, name: String) -> (out: Vec<Act<String>>)
        ensures
            turn(*final(self), out) == start_cast(old(self)@, name@),
    {
        broadcast use group_views;

        let mut out: Vec<Act<String>> = Vec::new();
        let mut acts: Vec<chooser::Act<String>> = Vec::new();
        let (id, app, uid, cursor) = match &self.desk.dialog {
            Some(d) => match d.req.what {
                What::Screen(cursor) => (d.req.who.1, d.req.app.clone(), d.req.uid, cursor),
                _ => return out,
            },
            None => return out,
        };
        let i = find_output(&self.outputs, name.as_str());
        if i < self.outputs.len() {
            let output = self.outputs[i].copy();
            set_row(&mut self.casts, id, Live { app, uid, output });
            out.push(Act::Tell(ToCompositor::Start { cast: id, output: name, cursor }));
            self.desk.close(&mut acts);
        } else {
            let mut note = name.clone();
            note.append(" is gone");
            self.desk.say(note, &mut acts);
        }
        lift(acts, &mut out);
        assert(views(out@) =~= start_cast(old(self)@, name@).acts);
        out
    }

    /// What a key does: Enter on a screen shares it, the rest is the dialogs'.
    pub fn press(&mut self, press: Press<String>) -> (out: Vec<Act<String>>)
        ensures
            turn(*final(self), out) == on_press(old(self)@, press@),
    {
        broadcast use group_views;

        let mut out: Vec<Act<String>> = Vec::new();
        let casting = match &self.desk.dialog {
            Some(d) => match d.req.what {
                What::Screen(_) => true,
                _ => false,
            },
            None => return out,
        };
        let enter = match press {
            Press::Enter => true,
            _ => false,
        };
        if casting && enter {
            return match self.desk.screen_picked() {
                Some(name) => self.start_cast(name),
                None => out,
            };
        }
        let mut acts: Vec<chooser::Act<String>> = Vec::new();
        self.desk.press(press, &mut acts);
        lift(acts, &mut out);
        out
    }
}

/// Nothing a key does starts a cast but Enter on a screen that is shown and there, for the
/// request that is up.
pub proof fn only_the_person_starts_casts(st: State, press: Press<Seq<char>>, i: int)
    requires
        0 <= i < on_press(st, press).acts.len(),
        on_press(st, press).acts[i] is Tell,
        on_press(st, press).acts[i]->Tell_0 is Start,
    ensures
        press is Enter,
        st.desk.dialog is Some,
        ({
            let d = st.desk.dialog->0;
            let msg = on_press(st, press).acts[i]->Tell_0;
            &&& d.is_casting()
            &&& chooser::selection(d) is Some
            &&& msg->output == chooser::selection(d)->0.name
            &&& msg->Start_cast == d.req.who.1
            &&& output_at(st.outputs, msg->output) < st.outputs.len()
        }),
{
}

} // verus!
