//! What the person's keys come to at the prompts, what is shown of a question, and what the
//! menu and the notes do.
use vstd::prelude::*;

use super::ask::{AskedView, Choice, Request, Response};
use super::menu::{matching, Chosen, Menu, MenuView};
use super::notes::{self, cards_of, first_line, id_after, note_at, Note, Notes};
use super::notify::ToShell;
use super::page::page_of;
use super::prompts::{
    choices_of, is_it, passes, queued_at, reset, shown, Act, Dialog, Pending, Prompts, ShownView,
    Turn, WaitingView, What, Wire,
};
use crate::assoc::get;
use crate::chooser::moves::lemma_kept_indices;
use crate::chooser::{indices, Press};
use crate::text::{a_part_is_a_stretch, is_control, lines, lower};
use crate::utf8::{byte_len, clipped_is_a_prefix};
use crate::views::{kept, lemma_kept_contains};

verus! {

/// A text holds another somewhere, whatever the case of either.
pub open spec fn holds_whatever_the_case(s: Seq<char>, part: Seq<char>) -> bool {
    exists|k: int|
        0 <= k <= lower(s).len() - lower(part).len() && #[trigger] lower(s).subrange(
            k,
            k + lower(part).len(),
        ) == lower(part)
}

/// What is shown of a question's choices: those whose name or detail holds what is typed; each
/// once, in their order.
pub proof fn the_filter_goes_by_name_and_detail(d: ShownView, i: usize)
    requires
        choices_of(d.req.kind).len() <= usize::MAX,
    ensures
        d.req.kind is Pick ==> (shown(d).contains(i) <==> i < d.req.kind->choices.len() && {
            let c = d.req.kind->choices[i as int];
            ||| lower(d.typed).len() == 0
            ||| holds_whatever_the_case(c.name, d.typed)
            ||| holds_whatever_the_case(c.detail, d.typed)
        }),
        !(d.req.kind is Pick) ==> shown(d).len() == 0,
        forall|a: int, b: int|
            0 <= a < b < shown(d).len() ==> (#[trigger] shown(d)[a]) < (#[trigger] shown(d)[b]),
        forall|a: int|
            0 <= a < shown(d).len() ==> (#[trigger] shown(d)[a]) < choices_of(d.req.kind).len(),
{
    let n = choices_of(d.req.kind).len() as int;
    let keep = |i: usize| passes(d, i as int);
    lemma_kept_indices(n, keep);
    lemma_kept_contains(indices(n), keep, i);
    if i < n {
        assert(indices(n)[i as int] == i);
        let c = choices_of(d.req.kind)[i as int];
        a_part_is_a_stretch(lower(c.name), lower(d.typed));
        a_part_is_a_stretch(lower(c.detail), lower(d.typed));
    }
    if !(d.req.kind is Pick) {
        assert(indices(0) =~= Seq::empty());
    }
}

proof fn lemma_shown(d: ShownView)
    ensures
        forall|selected: Option<usize>| #[trigger]
            shown(Dialog { selected, ..d }) == shown(d),
{
    assert forall|selected: Option<usize>| #[trigger]
        shown(Dialog { selected, ..d }) == shown(d) by {
        let e = Dialog { selected, ..d };
        let a = |i: usize| passes(d, i as int);
        let b = |i: usize| passes(e, i as int);
        assert forall|i: usize| #[trigger] a(i) == b(i) by {}
        assert(a =~= b);
    }
}

/// Up and Down move by one among the choices that are shown and stop at the ends; a question
/// without choices does not take them.
pub proof fn arrows_move_by_one(t: Turn, d: ShownView)
    requires
        t.state.dialog == Some(d),
        shown(d).len() <= usize::MAX,
        d.selected is Some ==> d.selected->0 < shown(d).len(),
    ensures
        ({
            let n = shown(d).len();
            let down = t.press(Press::Down);
            let up = t.press(Press::Up);
            &&& !(d.req.kind is Pick) ==> down == t && up == t
            &&& d.req.kind is Pick ==> {
                &&& down.state.dialog is Some
                &&& up.state.dialog is Some
                &&& down.state.dialog->0.req == d.req && down.state.dialog->0.typed == d.typed
                &&& up.state.dialog->0.req == d.req && up.state.dialog->0.typed == d.typed
                &&& match d.selected {
                    Some(i) => {
                        &&& i + 1 < n ==> down.state.dialog->0.selected == Some((i + 1) as usize)
                        &&& i + 1 == n ==> down.state.dialog->0.selected == Some(i)
                        &&& i > 0 ==> up.state.dialog->0.selected == Some((i - 1) as usize)
                        &&& i == 0 ==> up.state.dialog->0.selected == Some(0usize)
                    },
                    None => {
                        &&& n > 0 ==> down.state.dialog->0.selected == Some(0usize)
                        &&& n > 0 ==> up.state.dialog->0.selected == Some((n - 1) as usize)
                        &&& n == 0 ==> down.state.dialog->0.selected is None
                        &&& n == 0 ==> up.state.dialog->0.selected is None
                    },
                }
                &&& down.acts == t.acts.push(Act::Redraw)
                &&& up.acts == t.acts.push(Act::Redraw)
            }
            &&& down.state.queue == t.state.queue
            &&& up.state.queue == t.state.queue
        }),
{
    lemma_shown(d);
}

/// Down pressed `k` times.
pub open spec fn downs(t: Turn, k: nat) -> Turn
    decreases k,
{
    if k == 0 {
        t
    } else {
        downs(t, (k - 1) as nat).press(Press::Down)
    }
}

/// From the first choice `k` presses of Down select choice `k` of those shown.
pub proof fn every_choice_is_reached(t: Turn, d: ShownView, k: nat)
    requires
        t.state.dialog == Some(d),
        d.req.kind is Pick,
        d.selected == Some(0usize),
        k < shown(d).len() <= usize::MAX,
    ensures
        downs(t, k).state.dialog == Some(Dialog { selected: Some(k as usize), ..d }),
    decreases k,
{
    lemma_shown(d);
    if k > 0 {
        every_choice_is_reached(t, d, (k - 1) as nat);
        let e = Dialog { selected: Some((k - 1) as usize), ..d };
        assert(shown(e) == shown(d));
        arrows_move_by_one(downs(t, (k - 1) as nat), e);
    }
}

/// Enter answers: a yes to a yes or no, what is typed to a question for a secret if anything
/// is, the key of what is selected to a pick; a touch has no answer here. The dialog comes
/// down with the answer.
pub proof fn enter_answers(t: Turn, d: ShownView, i: usize)
    requires
        t.state.dialog == Some(d),
    ensures
        ({
            let r = t.press(Press::Enter);
            let n = t.acts.len() as int;
            let id = d.req.id;
            let answered = |resp: Response<Seq<char>>|
                {
                    &&& r.acts.len() >= n + 2
                    &&& r.acts[n] == Act::Reply { wire: d.req.wire, resp }
                    &&& r.acts[n + 1] == Act::<Seq<char>>::Hide
                };
            &&& d.req.kind is Confirm ==> answered(Response::Yes { id })
            &&& d.req.kind is Secret && d.typed.len() > 0 ==> answered(
                Response::Secret { id, secret: d.typed },
            )
            &&& d.req.kind is Secret && d.typed.len() == 0 ==> r == t
            &&& d.req.kind is Touch ==> r == t
            &&& d.req.kind is Pick && d.selected == Some(i) && i < shown(d).len() ==> answered(
                Response::Picked { id, key: d.req.kind->choices[shown(d)[i as int] as int].key },
            )
            &&& d.req.kind is Pick && d.selected is None ==> r == t
        }),
{
}

/// Escape, and a dialog that the compositor took down, refuse: who asked hears it under their
/// number, the dialog comes down, and what waited longest goes up unless the session is locked.
pub proof fn escape_refuses(t: Turn, d: ShownView)
    requires
        t.state.dialog == Some(d),
    ensures
        ({
            let r = t.press(Press::Escape);
            let n = t.acts.len() as int;
            &&& r.acts.len() >= n + 2
            &&& r.acts.take(n) == t.acts
            &&& r.acts[n] == Act::<Seq<char>>::Reply {
                wire: d.req.wire,
                resp: Response::Cancelled { id: d.req.id },
            }
            &&& r.acts[n + 1] == Act::<Seq<char>>::Hide
            &&& t.state.queue.len() == 0 || t.state.locked ==> {
                &&& r.state == (Prompts { dialog: None, ..t.state })
                &&& r.acts.len() == n + 2
            }
            &&& t.state.queue.len() > 0 && !t.state.locked ==> {
                &&& r.state.dialog is Some
                &&& r.state.dialog->0.req == t.state.queue[0]
                &&& r.state.dialog->0.typed.len() == 0
                &&& r.state.queue == t.state.queue.subrange(1, t.state.queue.len() as int)
                &&& r.acts.len() == n + 3
                &&& r.acts[n + 2] == (Act::<Seq<char>>::Show {
                    small: !(t.state.queue[0].kind is Pick),
                })
            }
            &&& t.refuse() == r
        }),
{
    let r = t.press(Press::Escape);
    assert(r.acts.take(t.acts.len() as int) =~= t.acts);
    if t.state.queue.len() > 0 {
        assert(t.state.queue.skip(1) =~= t.state.queue.subrange(1, t.state.queue.len() as int));
    }
}

/// A pick and a secret take what is typed, where it holds no control character and the whole
/// fits in 200 bytes, and give back the last character; the other questions take nothing.
pub proof fn typing_grows_and_shrinks(t: Turn, d: ShownView, s: Seq<char>)
    requires
        t.state.dialog == Some(d),
    ensures
        ({
            let typing = d.req.kind is Pick || d.req.kind is Secret;
            let fits = byte_len(d.typed) + byte_len(s) <= 200 && forall|i: int|
                0 <= i < s.len() ==> !is_control(#[trigger] s[i]);
            let r = t.press(Press::Typed(s));
            let b = t.press(Press::BackSpace);
            &&& typing && fits ==> {
                &&& r.state.dialog is Some
                &&& r.state.dialog->0.typed == d.typed + s
                &&& r.state.dialog->0.req == d.req
                &&& d.req.kind is Secret ==> r.state.dialog->0.selected == d.selected
                &&& r.acts == t.acts.push(Act::Redraw)
            }
            &&& !typing || !fits ==> r == t
            &&& typing && d.typed.len() > 0 ==> {
                &&& b.state.dialog is Some
                &&& b.state.dialog->0.typed == d.typed.take(d.typed.len() - 1)
                &&& b.state.dialog->0.req == d.req
                &&& b.acts == t.acts.push(Act::Redraw)
            }
            &&& !typing || d.typed.len() == 0 ==> b == t
        }),
        t.press(Press::Left) == t,
{
    if d.typed.len() > 0 {
        assert(d.typed.drop_last() =~= d.typed.take(d.typed.len() - 1));
    }
}

/// After the filter or the list changed the first choice that is shown is selected, if one is.
pub proof fn the_first_shown_is_selected(d: ShownView)
    ensures
        shown(d).len() > 0 ==> reset(d).selected == Some(0usize),
        shown(d).len() == 0 ==> reset(d).selected is None,
        reset(d).req == d.req,
        reset(d).typed == d.typed,
        shown(reset(d)) == shown(d),
{
    lemma_shown(d);
    assert(shown(Dialog { selected: Some(0usize), ..d }) == shown(d));
    assert(shown(Dialog { selected: None, ..d }) == shown(d));
}

/// A question goes up as it was asked, by whom it was asked, where none is up and nothing is
/// locked; else it waits behind those that wait.
pub proof fn questions_take_their_turn(
    t: Turn,
    wire: Wire,
    id: u64,
    app: Seq<char>,
    uid: u32,
    what: Seq<char>,
    text: Seq<char>,
    choices: Seq<Choice<Seq<char>>>,
    req: AskedView,
    kind: What<Seq<char>, Seq<Choice<Seq<char>>>>,
)
    requires
        ({
            ||| req == (AskedView::Confirm { id, app, uid, what, note: text }) && kind == (
            What::<Seq<char>, Seq<Choice<Seq<char>>>>::Confirm { note: text })
            ||| req == (AskedView::Secret { id, app, uid, what, prompt: text }) && kind == (
            What::<Seq<char>, Seq<Choice<Seq<char>>>>::Secret { prompt: text })
            ||| req == (AskedView::Touch { id, app, uid, what, prompt: text }) && kind == (
            What::<Seq<char>, Seq<Choice<Seq<char>>>>::Touch { prompt: text })
            ||| req == (AskedView::Pick { id, app, uid, what, note: text, choices }) && kind == (
            What::Pick { note: text, choices })
        }),
        t.state.dialog is Some ==> !(t.state.dialog->0.req.wire == wire
            && t.state.dialog->0.req.id == id),
        forall|k: int|
            0 <= k < t.state.queue.len() ==> !((#[trigger] t.state.queue[k]).wire == wire
                && t.state.queue[k].id == id),
    ensures
        ({
            let r = t.heard(wire, req);
            let p = Pending { wire, id, app, uid, what, kind };
            &&& t.state.dialog is Some || t.state.locked ==> {
                &&& r.state == (Prompts { queue: t.state.queue + seq![p], ..t.state })
                &&& r.acts == t.acts
            }
            &&& t.state.dialog is None && !t.state.locked && t.state.queue.len() == 0 ==> {
                &&& r.state.dialog is Some
                &&& r.state.dialog->0.req == p
                &&& r.state.dialog->0.typed.len() == 0
                &&& r.state.queue.len() == 0
                &&& r.acts == t.acts.push(Act::Show { small: !(req is Pick) })
            }
        }),
{
    let p = Pending { wire, id, app, uid, what, kind };
    assert(t.state.queue.push(p) =~= t.state.queue + seq![p]);
    lemma_not_queued(t.state.queue, wire, id);
}

proof fn lemma_not_queued(queue: Seq<WaitingView>, wire: Wire, id: u64)
    requires
        forall|k: int|
            0 <= k < queue.len() ==> !((#[trigger] queue[k]).wire == wire && queue[k].id == id),
    ensures
        queued_at(queue, wire, id) == queue.len(),
    decreases queue.len(),
{
    if queue.len() > 0 {
        assert(!(queue[0].wire == wire && queue[0].id == id));
        let rest = queue.skip(1);
        assert forall|k: int| 0 <= k < rest.len() implies !((#[trigger] rest[k]).wire == wire
            && rest[k].id == id) by {
            assert(rest[k] == queue[k + 1]);
        }
        lemma_not_queued(rest, wire, id);
    }
}

proof fn lemma_queued_at(queue: Seq<WaitingView>, wire: Wire, id: u64, i: int)
    requires
        0 <= i < queue.len(),
        queue[i].wire == wire && queue[i].id == id,
        forall|k: int|
            0 <= k < i ==> !((#[trigger] queue[k]).wire == wire && queue[k].id == id),
    ensures
        queued_at(queue, wire, id) == i,
    decreases queue.len(),
{
    if i > 0 {
        assert(!(queue[0].wire == wire && queue[0].id == id));
        let rest = queue.skip(1);
        assert(rest[i - 1] == queue[i]);
        assert forall|k: int| 0 <= k < i - 1 implies !((#[trigger] rest[k]).wire == wire
            && rest[k].id == id) by {
            assert(rest[k] == queue[k + 1]);
        }
        lemma_queued_at(rest, wire, id, i - 1);
    }
}

/// A pick asked again under its number has its list changed where it is, up or waiting, and
/// nothing else of it; the filter stays as it was typed.
pub proof fn a_list_changes_where_it_is(
    t: Turn,
    wire: Wire,
    id: u64,
    app: Seq<char>,
    uid: u32,
    what: Seq<char>,
    note: Seq<char>,
    choices: Seq<Choice<Seq<char>>>,
    i: int,
)
    ensures
        ({
            let r = t.heard(wire, Request::Pick { id, app, uid, what, note, choices });
            let up = t.state.dialog is Some && t.state.dialog->0.req.wire == wire
                && t.state.dialog->0.req.id == id;
            let new = What::<Seq<char>, Seq<Choice<Seq<char>>>>::Pick { note, choices };
            &&& up ==> {
                let d = t.state.dialog->0;
                &&& r.state.dialog is Some
                &&& r.state.dialog->0.req == (Pending { kind: new, ..d.req })
                &&& r.state.dialog->0.typed == d.typed
                &&& r.state.queue == t.state.queue
                &&& r.acts == t.acts.push(Act::Redraw)
            }
            &&& !up && 0 <= i < t.state.queue.len() && t.state.queue[i].wire == wire
                && t.state.queue[i].id == id && (forall|k: int|
                0 <= k < i ==> !((#[trigger] t.state.queue[k]).wire == wire
                    && t.state.queue[k].id == id)) ==> {
                &&& r.state.queue.len() == t.state.queue.len()
                &&& r.state.queue[i] == (Pending { kind: new, ..t.state.queue[i] })
                &&& forall|k: int|
                    0 <= k < t.state.queue.len() && k != i ==> #[trigger] r.state.queue[k]
                        == t.state.queue[k]
                &&& r.state.dialog == t.state.dialog
                &&& r.acts == t.acts
            }
        }),
{
    if 0 <= i < t.state.queue.len() && t.state.queue[i].wire == wire && t.state.queue[i].id == id
        && forall|k: int|
        0 <= k < i ==> !((#[trigger] t.state.queue[k]).wire == wire && t.state.queue[k].id == id) {
        lemma_queued_at(t.state.queue, wire, id, i);
    }
}

/// A withdrawal takes the one question of that asker and number, and no other: what else waits
/// still waits, or has gone up.
pub proof fn a_withdrawal_is_for_its_own(t: Turn, wire: Wire, id: u64, p: WaitingView)
    ensures
        ({
            let r = t.heard(wire, Request::Cancel { id });
            let it = |q: WaitingView| q.wire == wire && q.id == id;
            let up = t.state.dialog is Some && it(t.state.dialog->0.req);
            &&& !up ==> {
                &&& r.state.dialog == t.state.dialog
                &&& r.acts == t.acts
                &&& r.state.queue.contains(p) <==> t.state.queue.contains(p) && !it(p)
            }
            &&& up ==> {
                &&& r.acts.len() > t.acts.len()
                &&& r.acts[t.acts.len() as int] == Act::<Seq<char>>::Hide
                &&& (r.state.queue.contains(p) || (r.state.dialog is Some && r.state.dialog->0.req
                    == p)) <==> t.state.queue.contains(p) && !it(p)
            }
        }),
{
    let keep = |q: WaitingView| !is_it(q, wire, id);
    let left = kept(t.state.queue, keep);
    lemma_kept_contains(t.state.queue, keep, p);
    if left.len() > 0 {
        assert(left =~= seq![left[0]] + left.skip(1));
        if left.contains(p) {
            let k = choose|k: int| 0 <= k < left.len() && left[k] == p;
            if k > 0 {
                assert(left.skip(1)[k - 1] == p);
            }
        }
        if left.skip(1).contains(p) {
            let k = choose|k: int| 0 <= k < left.skip(1).len() && left.skip(1)[k] == p;
            assert(left[k + 1] == p);
        }
    }
}

/// A hello is answered with our version; while the session is locked nothing goes up, and what
/// was up waits in front of all the rest.
pub proof fn the_locked_wait_in_front(t: Turn, wire: Wire, version: u32, locked: bool)
    ensures
        t.heard(wire, Request::Hello { version }) == (Turn {
            state: t.state,
            acts: t.acts.push(Act::Reply { wire, resp: Response::Hello { version: 1 } }),
        }),
        t.state.dialog is Some ==> {
            let r = t.lock(locked);
            &&& r.state.dialog is None
            &&& r.state.locked == locked
            &&& r.state.queue.len() == t.state.queue.len() + 1
            &&& r.state.queue[0] == t.state.dialog->0.req
            &&& forall|k: int|
                0 <= k < t.state.queue.len() ==> r.state.queue[k + 1]
                    == #[trigger] t.state.queue[k]
            &&& r.acts == t.acts.push(Act::Hide)
        },
        t.state.dialog is None ==> t.lock(locked) == (Turn {
            state: Prompts { locked, ..t.state },
            acts: t.acts,
        }),
{
}

/// What is shown of a question: who wants to do what, what was said of it, and the keys that
/// answer it; of a secret only how long it is.
pub proof fn the_page_says_who_wants_what(d: ShownView, room: int)
    ensures
        ({
            let p = page_of(d, room);
            &&& p.head == d.req.app + " wants to "@ + d.req.what
            &&& match d.req.kind {
                What::Confirm { note } => {
                    &&& p.note == note
                    &&& p.line.len() == 0
                    &&& p.hint == "Enter allow   Esc refuse"@
                },
                What::Secret { prompt } => {
                    &&& p.note == prompt
                    &&& p.line.len() == d.typed.len() + 6
                    &&& p.line.take(5) == "PIN: "@
                    &&& p.line.last() == '_'
                    &&& forall|k: int|
                        5 <= k < p.line.len() - 1 ==> #[trigger] p.line[k] == '\u{25cf}'
                    &&& p.hint == "Enter send   Esc refuse"@
                },
                What::Touch { prompt } => {
                    &&& p.note == prompt
                    &&& p.line == "touch it now"@
                    &&& p.hint == "Esc refuse"@
                },
                What::Pick { note, .. } => {
                    &&& p.note == note
                    &&& p.line == "filter: "@ + d.typed
                    &&& p.hint == "Enter share   Esc refuse"@
                },
            }
            &&& p.nothing == if d.req.kind is Pick && shown(d).len() == 0 {
                "nothing to pick"@
            } else {
                Seq::empty()
            }
        }),
{
    reveal_strlit("PIN: ");
    reveal_strlit("_");
    let p = page_of(d, room);
    if d.req.kind is Secret {
        assert(p.line.take(5) =~= "PIN: "@);
    }
}

/// The rows of a question show choices that pass the filter, in order and without a gap, as
/// many as there is room for, and among them what is selected, marked.
pub proof fn the_rows_show_the_selected(d: ShownView, room: int, i: usize)
    requires
        room > 0,
        d.req.kind is Pick,
        d.selected == Some(i),
        i < shown(d).len() <= usize::MAX,
    ensures
        ({
            let rows = page_of(d, room).rows;
            exists|first: int|
                {
                    &&& 0 <= first <= i < first + rows.len()
                    &&& rows.len() <= room
                    &&& #[trigger] (first + rows.len()) <= shown(d).len()
                    &&& rows.len() == room || first + rows.len() == shown(d).len()
                    &&& forall|k: int|
                        0 <= k < rows.len() ==> {
                            let c = d.req.kind->choices[shown(d)[first + k] as int];
                            #[trigger] rows[k] == (c.name, c.detail, first + k == i)
                        }
                }
        }),
{
    let rows = page_of(d, room).rows;
    let first = crate::chooser::page::first_row(d.selected, room);
    assert(first + rows.len() <= shown(d).len());
}

/// The menu lists the names that hold what is typed, whatever the case.
pub proof fn the_menu_lists_what_matches(m: MenuView, name: Seq<char>)
    ensures
        matching(m).contains(name) <==> m.apps.contains(name) && holds_whatever_the_case(
            name,
            m.filter,
        ),
{
    lemma_kept_contains(m.apps, |a: Seq<char>| crate::text::has_part(lower(a), lower(m.filter)), name);
    a_part_is_a_stretch(lower(name), lower(m.filter));
}

/// The menu's keys: Enter launches what is selected and takes the menu down, Escape takes it
/// down, the arrows move by one within what matches, and typing filters from the first again.
pub proof fn the_menus_keys(m: MenuView, s: Seq<char>)
    requires
        matching(m).len() <= usize::MAX,
    ensures
        m.pressed(Press::Escape) == (Menu { up: false, ..m }, Chosen::<Seq<char>>::Hide),
        m.selected < matching(m).len() ==> m.pressed(Press::Enter) == (
            Menu { up: false, ..m },
            Chosen::Launch(matching(m)[m.selected as int]),
        ),
        m.selected >= matching(m).len() ==> m.pressed(Press::Enter) == (
            Menu { up: false, ..m },
            Chosen::<Seq<char>>::Hide,
        ),
        m.selected > 0 ==> m.pressed(Press::Up).0 == (Menu {
            selected: (m.selected - 1) as usize,
            ..m
        }),
        m.selected == 0 ==> m.pressed(Press::Up).0 == m,
        m.selected + 1 < matching(m).len() ==> m.pressed(Press::Down).0 == (Menu {
            selected: (m.selected + 1) as usize,
            ..m
        }),
        m.selected + 1 == matching(m).len() ==> m.pressed(Press::Down).0 == m,
        m.pressed(Press::Up).1 is Redraw && m.pressed(Press::Down).1 is Redraw,
        m.filter.len() > 0 ==> m.pressed(Press::BackSpace) == (
            Menu { filter: m.filter.take(m.filter.len() - 1), selected: 0, ..m },
            Chosen::<Seq<char>>::Redraw,
        ),
        m.filter.len() == 0 ==> m.pressed(Press::BackSpace).0.filter.len() == 0,
        ({
            let fits = byte_len(m.filter) + byte_len(s) <= 64 && forall|i: int|
                0 <= i < s.len() ==> !is_control(#[trigger] s[i]);
            m.pressed(Press::Typed(s)) == if fits {
                (Menu { filter: m.filter + s, selected: 0, ..m }, Chosen::<Seq<char>>::Redraw)
            } else {
                (m, Chosen::Nothing)
            }
        }),
        m.pressed(Press::Left) == (m, Chosen::<Seq<char>>::Nothing),
{
    if m.filter.len() > 0 {
        assert(m.filter.drop_last() =~= m.filter.take(m.filter.len() - 1));
    }
}

/// Down pressed `k` times in the menu.
pub open spec fn menu_downs(m: MenuView, k: nat) -> MenuView
    decreases k,
{
    if k == 0 {
        m
    } else {
        menu_downs(m, (k - 1) as nat).pressed(Press::Down).0
    }
}

/// A menu that just went up starts at the first name with nothing typed, and from there `k`
/// presses of Down and Enter launch name `k` of the list.
pub proof fn every_name_can_be_launched(apps: Seq<Seq<char>>, k: nat)
    requires
        k < matching(MenuView::fresh(apps)).len() <= usize::MAX,
    ensures
        MenuView::fresh(apps).up,
        MenuView::fresh(apps).apps == apps,
        MenuView::fresh(apps).filter.len() == 0,
        MenuView::fresh(apps).selected == 0,
        menu_downs(MenuView::fresh(apps), k) == (Menu {
            selected: k as usize,
            ..MenuView::fresh(apps)
        }),
        menu_downs(MenuView::fresh(apps), k).pressed(Press::Enter).1 == Chosen::Launch(
            matching(MenuView::fresh(apps))[k as int],
        ),
    decreases k,
{
    let m = MenuView::fresh(apps);
    let f = |a: Seq<char>| crate::text::has_part(lower(a), lower(m.filter));
    let e = Menu { selected: k as usize, ..m };
    let g = |a: Seq<char>| crate::text::has_part(lower(a), lower(e.filter));
    assert(f =~= g);
    assert(matching(e) == matching(m));
    if k > 0 {
        every_name_can_be_launched(apps, (k - 1) as nat);
        let b = Menu { selected: (k - 1) as usize, ..m };
        let h = |a: Seq<char>| crate::text::has_part(lower(a), lower(b.filter));
        assert(f =~= h);
        assert(matching(b) == matching(m));
        the_menus_keys(b, Seq::empty());
    }
}

proof fn lemma_note_at(list: Seq<Note<Seq<char>>>, id: u32, uid: u32, i: int)
    requires
        0 <= i <= list.len(),
        i < list.len() ==> list[i].id == id && list[i].uid == uid,
        forall|k: int| 0 <= k < i ==> !((#[trigger] list[k]).id == id && list[k].uid == uid),
    ensures
        note_at(list, id, uid) == i,
    decreases list.len(),
{
    if i > 0 {
        assert(!(list[0].id == id && list[0].uid == uid));
        let rest = list.skip(1);
        if i < list.len() {
            assert(rest[i - 1] == list[i]);
        }
        assert forall|k: int| 0 <= k < i - 1 implies !((#[trigger] rest[k]).id == id
            && rest[k].uid == uid) by {
            assert(rest[k] == list[k + 1]);
        }
        lemma_note_at(rest, id, uid, i - 1);
    }
}

/// A note is listed in its app's name with what it says, for eight seconds, and the app hears
/// its number: a new one, or that of the note of its own that it replaces, which then says the
/// new and lasts anew.
pub proof fn a_note_says_what_its_app_said(
    t: notes::Turn,
    conn: u64,
    req: u64,
    replaces: u32,
    summary: Seq<char>,
    body: Seq<char>,
    now: u128,
    locked: bool,
    i: int,
)
    requires
        get(t.notes.conns, conn) is Some,
        now + 8_000_000_000 <= u128::MAX,
    ensures
        ({
            let c = get(t.notes.conns, conn)->0;
            let r = t.notify(conn, req, replaces, summary, body, now, locked);
            let list = t.notes.list;
            let fits = byte_len(summary) <= 2048 && byte_len(body) <= 2048;
            let until = (now + 8_000_000_000) as u128;
            let found = replaces != 0 && 0 <= i < list.len() && list[i].id == replaces
                && list[i].uid == c.uid && forall|k: int|
                0 <= k < i ==> !((#[trigger] list[k]).id == replaces && list[k].uid == c.uid);
            let fresh = replaces == 0 || forall|k: int|
                0 <= k < list.len() ==> !((#[trigger] list[k]).id == replaces && list[k].uid
                    == c.uid);
            &&& r.acts.len() > t.acts.len()
            &&& r.acts.take(t.acts.len() as int) == t.acts
            &&& fits && fresh ==> {
                &&& r.notes.list == list.push(
                    Note { id: t.notes.next_id, uid: c.uid, app: c.app, summary, body, until },
                )
                &&& r.acts[t.acts.len() as int] == (notes::Act::Notified {
                    conn,
                    req,
                    id: t.notes.next_id,
                })
            }
            &&& fits && found ==> {
                &&& r.notes.list.len() == list.len()
                &&& r.notes.list[i] == (Note { summary, body, until, ..list[i] })
                &&& forall|k: int|
                    0 <= k < list.len() && k != i ==> #[trigger] r.notes.list[k] == list[k]
                &&& r.acts[t.acts.len() as int] == (notes::Act::Notified {
                    conn,
                    req,
                    id: replaces,
                })
                &&& r.notes.next_id == t.notes.next_id
            }
        }),
{
    let c = get(t.notes.conns, conn)->0;
    let list = t.notes.list;
    let r = t.notify(conn, req, replaces, summary, body, now, locked);
    assert(r.acts.take(t.acts.len() as int) =~= t.acts);
    clipped_is_a_prefix(summary, 2048);
    clipped_is_a_prefix(body, 2048);
    if replaces != 0 {
        if 0 <= i < list.len() && list[i].id == replaces && list[i].uid == c.uid && forall|k: int|
            0 <= k < i ==> !((#[trigger] list[k]).id == replaces && list[k].uid == c.uid) {
            lemma_note_at(list, replaces, c.uid, i);
        } else if forall|k: int|
            0 <= k < list.len() ==> !((#[trigger] list[k]).id == replaces && list[k].uid == c.uid) {
            lemma_note_at(list, replaces, c.uid, list.len() as int);
        }
    }
}

/// Numbers of notes count up and are never 0.
pub proof fn note_numbers_are_never_zero(id: u32)
    ensures
        id_after(id) != 0,
        id < u32::MAX ==> id_after(id) == id + 1,
        id == u32::MAX ==> id_after(id) == 1,
{
}

/// The surface is up where there is a note and nothing is locked: so high that five cards of 84
/// with 6 between them fit, or as many as there are.
pub proof fn the_surface_follows_the_notes(t: notes::Turn, locked: bool)
    requires
        t.notes.list.len() <= usize::MAX,
    ensures
        ({
            let r = t.show(locked);
            let n = t.notes.list.len();
            let cards: int = if n > 5 { 5 } else { n as int };
            let height = (cards * 90 - 6) as u32;
            &&& r.notes.list == t.notes.list
            &&& r.notes.up <==> n > 0 && !locked
            &&& r.notes.up && !t.notes.up ==> r.acts == t.acts.push(notes::Act::Show { height })
            &&& r.notes.up && t.notes.up && t.notes.size.1 == height ==> r.acts == t.acts.push(
                notes::Act::Redraw,
            )
            &&& r.notes.up && t.notes.up && t.notes.size.1 != height ==> r.acts == t.acts.push(
                notes::Act::Resize { height },
            )
            &&& !r.notes.up && t.notes.up ==> r.acts == t.acts.push(notes::Act::Hide)
            &&& !r.notes.up && !t.notes.up ==> r.acts == t.acts
        }),
{
}

/// An app takes down the notes of its own uid with that number, and no other.
pub proof fn closing_is_for_ones_own(
    t: notes::Turn,
    conn: u64,
    id: u32,
    locked: bool,
    note: Note<Seq<char>>,
)
    requires
        get(t.notes.conns, conn) is Some,
    ensures
        t.close(conn, id, locked).notes.list.contains(note) <==> t.notes.list.contains(note)
            && !(note.id == id && note.uid == get(t.notes.conns, conn)->0.uid),
{
    let c = get(t.notes.conns, conn)->0;
    lemma_kept_contains(t.notes.list, |n: Note<Seq<char>>| !(n.id == id && n.uid == c.uid), note);
}

/// What an app says is done in its own connection's name: a note, or taking one down.
pub proof fn apps_notify_and_close(t: notes::Turn, conn: u64, msg: ToShell, now: u128, locked: bool)
    ensures
        match msg {
            ToShell::Hello { .. } => t.heard(conn, msg, now, locked) == t,
            ToShell::Notify { req, replaces, summary, body } => t.heard(conn, msg, now, locked)
                == t.notify(conn, req, replaces, summary@, body@, now, locked),
            ToShell::Close { id } => t.heard(conn, msg, now, locked) == t.close(conn, id, locked),
        },
        get(t.notes.conns, conn) is None ==> t.heard(conn, msg, now, locked) == t,
{
}

/// The cards: the newest note first, five at most, each with its app's name and one line of
/// each of its texts.
pub proof fn the_newest_card_is_first(list: Seq<Note<Seq<char>>>, i: int)
    ensures
        cards_of(list).len() == if list.len() > 5 {
            5
        } else {
            list.len()
        },
        0 <= i < cards_of(list).len() ==> {
            let n = list[list.len() - 1 - i];
            cards_of(list)[i] == (n.app, first_line(n.summary), first_line(n.body))
        },
        forall|s: Seq<char>| #![trigger first_line(s)]
            lines(s).len() > 0 ==> first_line(s) == lines(s)[0],
        forall|s: Seq<char>| #![trigger first_line(s)]
            lines(s).len() == 0 ==> first_line(s).len() == 0,
{
}

/// Who asks is known by name.
pub proof fn askers_have_names()
    ensures
        Wire::Cast.named() == "drv-cast"@,
        Wire::Agent.named() == "drv-agent"@,
{
}

/// The rows of the menu show names that match, in order and without a gap, as many as there is
/// room for, and among them what is selected, marked.
pub proof fn the_menu_shows_the_selected(m: MenuView, room: int)
    requires
        room > 0,
        m.selected < matching(m).len(),
    ensures
        ({
            let rows = super::menu::rows_of(m, room);
            exists|first: int|
                {
                    &&& 0 <= first <= m.selected < first + rows.len()
                    &&& rows.len() <= room
                    &&& #[trigger] (first + rows.len()) <= matching(m).len()
                    &&& rows.len() == room || first + rows.len() == matching(m).len()
                    &&& forall|k: int|
                        0 <= k < rows.len() ==> #[trigger] rows[k] == (
                            matching(m)[first + k],
                            first + k == m.selected,
                        )
                }
        }),
{
    let rows = super::menu::rows_of(m, room);
    let first = crate::chooser::page::first_row(Some(m.selected), room);
    assert(first + rows.len() <= matching(m).len());
}

/// A note that says too much is cut to what fits in 2048 bytes, each text for itself.
pub proof fn long_notes_are_cut(
    t: notes::Turn,
    conn: u64,
    req: u64,
    summary: Seq<char>,
    body: Seq<char>,
    now: u128,
    locked: bool,
)
    requires
        get(t.notes.conns, conn) is Some,
    ensures
        ({
            let r = t.notify(conn, req, 0, summary, body, now, locked);
            let c = get(t.notes.conns, conn)->0;
            let n = r.notes.list.last();
            &&& r.notes.list.len() == t.notes.list.len() + 1
            &&& n.summary == crate::utf8::clipped(summary, 2048)
            &&& n.body == crate::utf8::clipped(body, 2048)
            &&& n.id == t.notes.next_id && n.uid == c.uid && n.app == c.app
            &&& r.notes.next_id == id_after(t.notes.next_id)
            &&& r.notes.conns == t.notes.conns
        }),
{
}

/// When notes have gone with their time the surface follows; while none has, nothing is done.
pub proof fn the_surface_follows_the_time(t: notes::Turn, now: u128, locked: bool)
    ensures
        (forall|i: int| 0 <= i < t.notes.list.len() ==> (#[trigger] t.notes.list[i]).until > now)
            ==> t.tick(now, locked) == t,
        (exists|i: int| 0 <= i < t.notes.list.len() && (#[trigger] t.notes.list[i]).until <= now)
            ==> t.tick(now, locked) == (notes::Turn {
            notes: Notes { list: t.tick(now, locked).notes.list, ..t.notes },
            ..t
        }).show(locked),
{
    let keep = |n: Note<Seq<char>>| n.until > now;
    let list = t.notes.list;
    if forall|i: int| 0 <= i < list.len() ==> (#[trigger] list[i]).until > now {
        crate::views::lemma_kept_all(list, keep);
    }
    if exists|i: int| 0 <= i < list.len() && (#[trigger] list[i]).until <= now {
        let i = choose|i: int| 0 <= i < list.len() && (#[trigger] list[i]).until <= now;
        lemma_some_left(list, keep, i);
    }
}

proof fn lemma_some_left<T>(s: Seq<T>, keep: spec_fn(T) -> bool, i: int)
    requires
        0 <= i < s.len(),
        !keep(s[i]),
    ensures
        kept(s, keep).len() < s.len(),
    decreases s.len(),
{
    let front = s.drop_last();
    lemma_no_more(front, keep);
    if i < front.len() {
        assert(front[i] == s[i]);
        lemma_some_left(front, keep, i);
    }
}

proof fn lemma_no_more<T>(s: Seq<T>, keep: spec_fn(T) -> bool)
    ensures
        kept(s, keep).len() <= s.len(),
    decreases s.len(),
{
    if s.len() > 0 {
        lemma_no_more(s.drop_last(), keep);
    }
}

} // verus!
