//! What requests to the portal, the compositor's word and the person's keys come to.
use vstd::prelude::*;

use super::app::{
    on_cancel, on_cast, on_choose, on_compositor, on_press, output_at, screens_on, Act, LiveView,
    State, Turn,
};
use super::compositor::{Output, ToCompositor, ToPortal};
use super::protocol::{Cursor, Kind};
use crate::assoc::{del, get, put_then_get};
use crate::chooser::{self, shown, Dialog, Entry, Pending, Press, ShownView, What};
use crate::text::decimal_int;

verus! {

/// How an output that is on reads among the screens.
pub open spec fn reads_as(e: Entry<Seq<char>>, o: Output) -> bool {
    &&& o.width != 0 && o.height != 0
    &&& e.name == o.name@
    &&& !e.dir
    &&& e.detail == o.make@ + " "@ + o.model@ + "  "@ + decimal_int(o.width as int) + "x"@
        + decimal_int(o.height as int)
}

/// The screens to pick from are the outputs that are on, every one and no other.
pub proof fn every_output_that_is_on_is_listed(outputs: Seq<Output>, i: int, k: int)
    ensures
        0 <= i < outputs.len() && outputs[i].width != 0 && outputs[i].height != 0 ==> exists|j: int|
            0 <= j < screens_on(outputs).len() && reads_as(
                #[trigger] screens_on(outputs)[j],
                outputs[i],
            ),
        0 <= k < screens_on(outputs).len() ==> exists|j: int|
            0 <= j < outputs.len() && reads_as(screens_on(outputs)[k], #[trigger] outputs[j]),
    decreases outputs.len(),
{
    if outputs.len() > 0 {
        let front = outputs.drop_last();
        let before = screens_on(front);
        let now = screens_on(outputs);
        every_output_that_is_on_is_listed(front, i, k);
        let n = outputs.len() - 1;
        if 0 <= i < outputs.len() && outputs[i].width != 0 && outputs[i].height != 0 {
            if i < n {
                assert(front[i] == outputs[i]);
                let j = choose|j: int|
                    0 <= j < before.len() && reads_as(#[trigger] before[j], outputs[i]);
                assert(now[j] == before[j]);
            } else {
                assert(reads_as(now[before.len() as int], outputs[i]));
            }
        }
        if 0 <= k < now.len() {
            if k < before.len() {
                assert(now[k] == before[k]);
                let j = choose|j: int|
                    0 <= j < front.len() && reads_as(before[k], #[trigger] front[j]);
                assert(front[j] == outputs[j]);
            } else {
                assert(reads_as(now[k], outputs[n]));
            }
        }
    }
}

/// A file is asked for in the app's name, for its uid, with its title; a screen besides has the
/// compositor asked for its outputs.
pub proof fn requests_are_put_to_the_person(
    st: State,
    id: u64,
    app: Seq<char>,
    uid: u32,
    title: Seq<char>,
    kind: Kind,
    cursor: Cursor,
)
    ensures
        ({
            let asked = chooser::Turn::start(st.desk).ask(
                Pending {
                    who: (0, id),
                    app,
                    uid,
                    title,
                    what: match kind {
                        Kind::Open => What::Open,
                        Kind::Save { name } => What::Save { name: name@ },
                    },
                },
            );
            let r = on_choose(st, id, app, uid, title, kind);
            &&& r.state == (State { desk: asked.desk, ..st })
            &&& r.acts.len() == asked.acts.len()
            &&& forall|k: int|
                0 <= k < asked.acts.len() ==> #[trigger] r.acts[k] == Act::Desk(asked.acts[k])
        }),
        ({
            let asked = chooser::Turn::start(st.desk).ask(
                Pending { who: (0, id), app, uid, title: Seq::empty(), what: What::Screen(cursor) },
            );
            let r = on_cast(st, id, app, uid, cursor);
            &&& r.state == (State { desk: asked.desk, ..st })
            &&& r.acts.len() == asked.acts.len() + 1
            &&& r.acts[0] == Act::<Seq<char>>::Tell(ToCompositor::Outputs)
            &&& forall|k: int|
                0 <= k < asked.acts.len() ==> r.acts[k + 1] == Act::Desk(
                    #[trigger] asked.acts[k],
                )
        }),
{
}

/// A request that is withdrawn leaves the dialogs, and a cast of that number is stopped.
pub proof fn the_withdrawn_is_stopped(st: State, id: u64)
    ensures
        ({
            let left = chooser::Turn::start(st.desk).withdraw(0, Some(id));
            let r = on_cancel(st, id);
            &&& r.state.desk == left.desk
            &&& r.state.outputs == st.outputs
            &&& get(st.casts, id) is Some ==> {
                &&& r.state.casts == del(st.casts, id)
                &&& r.acts.len() == left.acts.len() + 1
                &&& r.acts.last() == Act::<Seq<char>>::Tell(ToCompositor::Stop { cast: id })
            }
            &&& get(st.casts, id) is None ==> {
                &&& r.state.casts == st.casts
                &&& r.acts.len() == left.acts.len()
            }
        }),
{
}

/// A cast that streams is told with its node and the output it shows, by name and size; one
/// that nobody asked for is stopped; one that stopped is closed and forgotten; new outputs are
/// what there is to pick from.
pub proof fn the_compositors_word_is_passed_on(
    st: State,
    cast: u64,
    node_id: u32,
    live: LiveView,
    outputs: Vec<Output>,
)
    ensures
        get(st.casts, cast) == Some(live) ==> {
            let r = on_compositor(st, ToPortal::Started { cast, node_id });
            &&& r.state == st
            &&& r.acts == seq![
                Act::Cast {
                    id: cast,
                    node_id,
                    output: live.output.name@,
                    width: live.output.width,
                    height: live.output.height,
                },
            ]
        },
        get(st.casts, cast) is None ==> {
            let r = on_compositor(st, ToPortal::Started { cast, node_id });
            &&& r.state == st
            &&& r.acts == seq![Act::<Seq<char>>::Tell(ToCompositor::Stop { cast })]
        },
        get(st.casts, cast) is Some ==> {
            let r = on_compositor(st, ToPortal::Stopped { cast });
            &&& r.state == (State { casts: del(st.casts, cast), ..st })
            &&& r.acts == seq![Act::<Seq<char>>::Closed { id: cast }]
        },
        get(st.casts, cast) is None ==> on_compositor(st, ToPortal::Stopped { cast })
            == Turn::start(st),
        ({
            let r = on_compositor(st, ToPortal::Outputs(outputs));
            let told = chooser::Turn::start(st.desk).screens(screens_on(outputs@));
            &&& r.state.outputs == outputs@
            &&& r.state.casts == st.casts
            &&& r.state.desk == told.desk
            &&& r.acts.len() == told.acts.len()
        }),
{
}

proof fn lemma_output_at(outputs: Seq<Output>, name: Seq<char>, i: int)
    requires
        0 <= i <= outputs.len(),
        i < outputs.len() ==> outputs[i].name@ == name,
        forall|j: int| 0 <= j < i ==> (#[trigger] outputs[j]).name@ != name,
    ensures
        output_at(outputs, name) == i,
    decreases outputs.len(),
{
    if i > 0 {
        assert(outputs[0].name@ != name);
        let rest = outputs.skip(1);
        if i < outputs.len() {
            assert(rest[i - 1] == outputs[i]);
        }
        assert forall|j: int| 0 <= j < i - 1 implies (#[trigger] rest[j]).name@ != name by {
            assert(rest[j] == outputs[j + 1]);
        }
        lemma_output_at(rest, name, i - 1);
    }
}

/// Enter on a screen starts it for the request that is up, with the pointer it asked for, and
/// takes the dialog down; a screen that has gone meanwhile is said to be gone, and the dialog
/// stays.
pub proof fn enter_shares_the_selected(
    st: State,
    d: ShownView,
    cursor: Cursor,
    k: usize,
    i: int,
)
    requires
        st.desk.dialog == Some(d),
        d.req.what == What::<Seq<char>>::Screen(cursor),
        d.selected == Some(k),
        k < shown(d).len(),
    ensures
        ({
            let name = d.entries[shown(d)[k as int] as int].name;
            let r = on_press(st, Press::Enter);
            let id = d.req.who.1;
            &&& 0 <= i < st.outputs.len() && st.outputs[i].name@ == name && (forall|j: int|
                0 <= j < i ==> (#[trigger] st.outputs[j]).name@ != name) ==> {
                &&& r.acts.len() >= 2
                &&& r.acts[0] == Act::Tell(ToCompositor::Start { cast: id, output: name, cursor })
                &&& r.acts[1] == Act::<Seq<char>>::Desk(chooser::Act::Hide)
                &&& get(r.state.casts, id) == Some(
                    LiveView { app: d.req.app, uid: d.req.uid, output: st.outputs[i] },
                )
                &&& st.desk.queue.len() == 0 ==> r.state.desk.dialog is None
            }
            &&& (forall|j: int|
                0 <= j < st.outputs.len() ==> (#[trigger] st.outputs[j]).name@ != name) ==> {
                &&& r.state.casts == st.casts
                &&& r.state.desk.dialog == Some(Dialog { note: Some(name + " is gone"@), ..d })
                &&& r.acts == seq![Act::<Seq<char>>::Desk(chooser::Act::Redraw)]
            }
        }),
{
    let name = d.entries[shown(d)[k as int] as int].name;
    let r = on_press(st, Press::Enter);
    if 0 <= i < st.outputs.len() && st.outputs[i].name@ == name && forall|j: int|
        0 <= j < i ==> (#[trigger] st.outputs[j]).name@ != name {
        lemma_output_at(st.outputs, name, i);
        put_then_get(
            st.casts,
            d.req.who.1,
            LiveView { app: d.req.app, uid: d.req.uid, output: st.outputs[i] },
        );
    }
    if forall|j: int| 0 <= j < st.outputs.len() ==> (#[trigger] st.outputs[j]).name@ != name {
        lemma_output_at(st.outputs, name, st.outputs.len() as int);
        assert(r.acts =~= seq![Act::<Seq<char>>::Desk(chooser::Act::Redraw)]);
    }
}

/// Any other key is the dialogs' own, and with no dialog up a key does nothing.
pub proof fn other_keys_are_the_dialogs(st: State, press: Press<Seq<char>>)
    requires
        st.desk.dialog is Some ==> !(st.desk.dialog->0.req.what is Screen && press is Enter),
    ensures
        ({
            let pressed = chooser::Turn::start(st.desk).press(press);
            let r = on_press(st, press);
            &&& r.state == (State { desk: pressed.desk, ..st })
            &&& r.acts.len() == pressed.acts.len()
            &&& forall|k: int|
                0 <= k < r.acts.len() ==> #[trigger] r.acts[k] == Act::Desk(pressed.acts[k])
        }),
{
}

} // verus!
