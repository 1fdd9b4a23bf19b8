//! What holds of the prompts whatever is asked and pressed.
use vstd::prelude::*;

use super::ask::{AskedView, Request};
use super::prompts::{is_it, FrontView, Turn, WaitingView, Wire};
use crate::chooser::Press;
use crate::views::{kept, lemma_kept_contains};

verus! {

/// Nothing is up while locked, and nothing waits while unlocked with nothing up.
pub open spec fn settled(state: FrontView) -> bool {
    if state.locked {
        state.dialog is None
    } else {
        state.dialog is None ==> state.queue.len() == 0
    }
}

/// Whatever is asked, pressed, locked or unlocked: nothing is up while the session is locked,
/// and nothing waits while it is not and nothing is up.
pub proof fn nothing_is_up_while_locked(
    t: Turn,
    wire: Wire,
    req: AskedView,
    press: Press<Seq<char>>,
)
    requires
        settled(t.state),
    ensures
        settled(t.heard(wire, req).state),
        settled(t.press(press).state),
        settled(t.lock(true).state),
        settled(t.unlock().state),
        settled(t.refuse().state),
        forall|locked: bool| (#[trigger] t.lock(locked)).state.dialog is None,
{
    match req {
        Request::Cancel { id } => {
            if t.state.dialog is None {
                let keep = |p: WaitingView| !is_it(p, wire, id);
                if t.state.queue.len() == 0 {
                    assert(kept(t.state.queue, keep).len() == 0);
                }
            }
        },
        _ => {},
    }
}

/// What a key answers goes to who asked what is up, under their number for it, and nothing else
/// is answered.
pub proof fn answers_go_to_the_asker(state: FrontView, press: Press<Seq<char>>, i: int)
    requires
        0 <= i < Turn::start(state).press(press).acts.len(),
        Turn::start(state).press(press).acts[i] is Reply,
    ensures
        state.dialog is Some,
        Turn::start(state).press(press).acts[i]->wire == state.dialog->0.req.wire,
        super::ask::answered(Turn::start(state).press(press).acts[i]->resp) == Some(
            state.dialog->0.req.id,
        ),
{
}

/// A yes comes only of Enter on a yes or no; a secret only of Enter on a question for one, as
/// it was typed; a touch is never answered but by a refusal.
pub proof fn each_question_has_its_answers(state: FrontView, press: Press<Seq<char>>, i: int)
    requires
        state.dialog is Some,
        0 <= i < Turn::start(state).press(press).acts.len(),
        Turn::start(state).press(press).acts[i] is Reply,
    ensures
        ({
            let d = state.dialog->0;
            let resp = Turn::start(state).press(press).acts[i]->resp;
            &&& press is Escape <==> resp is Cancelled
            &&& resp is Yes ==> press is Enter && d.req.kind is Confirm
            &&& resp is Secret ==> press is Enter && d.req.kind is Secret && resp->secret
                == d.typed
            &&& resp is Picked ==> press is Enter && d.req.kind is Pick
            &&& d.req.kind is Touch ==> resp is Cancelled
        }),
{
}

/// Locking and unlocking brings the same question up again, with nothing typed, and the rest
/// waits as before.
pub proof fn unlocking_asks_again(t: Turn, locked: bool)
    requires
        t.state.dialog is Some,
        !t.state.locked,
    ensures
        t.lock(locked).unlock().state.queue == t.state.queue,
        t.lock(locked).unlock().state.dialog is Some,
        t.lock(locked).unlock().state.dialog->0.req == t.state.dialog->0.req,
        t.lock(locked).unlock().state.dialog->0.typed.len() == 0,
{
    let d = t.state.dialog->0;
    let waiting = seq![d.req] + t.state.queue;
    assert(waiting.skip(1) =~= t.state.queue);
    assert(waiting[0] == d.req);
}

/// What an asker withdrew is not up and does not wait.
pub proof fn the_withdrawn_is_gone(t: Turn, wire: Wire, id: u64, i: int)
    ensures
        ({
            let after = t.withdraw(wire, id).state;
            &&& after.dialog is Some ==> !is_it(after.dialog->0.req, wire, id)
            &&& 0 <= i < after.queue.len() ==> !is_it(after.queue[i], wire, id)
        }),
{
    let keep = |p: WaitingView| !is_it(p, wire, id);
    let left = kept(t.state.queue, keep);
    assert forall|k: int| 0 <= k < left.len() implies !is_it(#[trigger] left[k], wire, id) by {
        assert(left.contains(left[k]));
        lemma_kept_contains(t.state.queue, keep, left[k]);
    }
    if t.state.dialog is Some && is_it(t.state.dialog->0.req, wire, id) && !t.state.locked {
        if left.len() > 0 {
            assert(t.withdraw(wire, id).state.queue == left.skip(1));
            assert(t.withdraw(wire, id).state.dialog->0.req == left[0]);
        }
    }
}

/// Withdrawing a question right after it was asked undoes it, where nothing was up and nothing
/// waited.
pub proof fn withdrawing_undoes_asking(state: FrontView, p: WaitingView)
    requires
        state.dialog is None,
        state.queue.len() == 0,
    ensures
        Turn::start(state).enqueue(p).withdraw(p.wire, p.id).state == state,
{
    let keep = |q: WaitingView| !is_it(q, p.wire, p.id);
    let one = seq![p];
    assert(state.queue.push(p) =~= one);
    assert(one.drop_last() =~= Seq::<WaitingView>::empty());
    assert(kept(one, keep) =~= kept(one.drop_last(), keep));
    assert(kept(one.drop_last(), keep) =~= Seq::<WaitingView>::empty());
    assert(one.skip(1) =~= Seq::<WaitingView>::empty());
    assert(kept(one.skip(1), keep) =~= Seq::<WaitingView>::empty());
    assert(state.queue =~= Seq::<WaitingView>::empty());
}

} // verus!
