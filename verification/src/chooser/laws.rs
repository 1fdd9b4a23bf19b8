//! What holds of the dialogs whatever is asked and pressed.
use vstd::prelude::*;

use super::{
    above, below, can_type, dir_text, fresh, is_file_name, is_theirs, relisted, reset, selection,
    shown, Act, Desk, Dialog, Entry, FrontView, Pending, Press, ShownView, Turn,
};
use crate::views::{kept, lemma_kept_contains};

verus! {

/// What is selected is shown, and nothing waits while nothing is up.
pub open spec fn settled(desk: FrontView) -> bool {
    match desk.dialog {
        Some(d) => in_view(d),
        None => desk.queue.len() == 0,
    }
}

/// What is selected is shown.
pub open spec fn in_view(d: ShownView) -> bool {
    match d.selected {
        Some(i) => i < shown(d).len(),
        None => true,
    }
}

proof fn lemma_reset_in_view(d: ShownView)
    ensures
        in_view(reset(d)),
{
    super::lemma_shown(d);
    assert(shown(Dialog { selected: Some(0usize), ..d }) == shown(d));
}

proof fn lemma_next_settles(t: Turn)
    requires
        t.desk.dialog is Some ==> settled(t.desk),
    ensures
        settled(t.next().desk),
{
    if t.desk.dialog is None && t.desk.queue.len() > 0 {
        let d = fresh(t.desk.queue[0], t.desk.screens);
        lemma_reset_in_view(
            Dialog {
                req: t.desk.queue[0],
                dir: Seq::empty(),
                entries: if t.desk.queue[0].what is Screen {
                    t.desk.screens
                } else {
                    Seq::empty()
                },
                selected: None,
                typed: match t.desk.queue[0].what {
                    super::What::Save { name } => super::offered(name),
                    _ => Seq::empty(),
                },
                note: None,
            },
        );
        assert(in_view(d));
    }
}

/// Asking, withdrawing, refusing, reading a directory and new screens leave what is selected
/// shown, and nothing waiting while nothing is up.
pub proof fn the_desk_stays_settled(
    t: Turn,
    p: Pending<Seq<char>>,
    who: u64,
    req: Option<u64>,
    d: ShownView,
    entries: Seq<Entry<Seq<char>>>,
    note: Option<Seq<char>>,
)
    requires
        settled(t.desk),
    ensures
        settled(t.ask(p).desk),
        settled(t.withdraw(who, req).desk),
        settled(t.cancel().desk),
        settled(t.close().desk),
        settled(t.with(relisted(d, entries, note)).desk),
        settled(t.screens(entries).desk),
{
    lemma_next_settles(
        Turn { desk: Desk { queue: t.desk.queue.push(p), ..t.desk }, ..t },
    );
    let left = Turn {
        desk: Desk {
            queue: kept(t.desk.queue, |p: Pending<Seq<char>>| !is_theirs(p.who, who, req)),
            ..t.desk
        },
        ..t
    };
    lemma_next_settles(
        (Turn { desk: Desk { dialog: None, ..left.desk }, ..left }).act(Act::Hide),
    );
    lemma_next_settles((Turn { desk: Desk { dialog: None, ..t.desk }, ..t }).act(Act::Hide));
    if let Some(d) = t.desk.dialog {
        let said = t.act(Act::Cancelled { who: d.req.who });
        lemma_next_settles(
            (Turn { desk: Desk { dialog: None, ..said.desk }, ..said }).act(Act::Hide),
        );
        lemma_reset_in_view(Dialog { entries, note: None, ..d });
    }
    lemma_reset_in_view(Dialog { entries, note, ..d });
}

proof fn lemma_selected_in_view(d: ShownView, selected: Option<usize>)
    requires
        selected is Some ==> selected->0 < shown(d).len(),
    ensures
        in_view(Dialog { selected, ..d }),
{
    super::lemma_shown(d);
    assert(shown(Dialog { selected, ..d }) == shown(d));
}

/// Every key leaves what is selected shown, and nothing waiting while nothing is up.
pub proof fn keys_keep_it_settled(t: Turn, press: Press<Seq<char>>)
    requires
        settled(t.desk),
        t.desk.dialog is Some ==> shown(t.desk.dialog->0).len() <= usize::MAX,
    ensures
        settled(t.press(press).desk),
{
    if let Some(d) = t.desk.dialog {
        match press {
            Press::Escape => {
                let said = t.act(Act::Cancelled { who: d.req.who });
                lemma_next_settles(
                    (Turn { desk: Desk { dialog: None, ..said.desk }, ..said }).act(Act::Hide),
                );
            },
            Press::Enter => {
                if !d.is_casting() {
                    match selection(d) {
                        Some(e) => {
                            if e.dir {
                                lemma_reset_in_view(
                                    Dialog {
                                        dir: d.dir.push(e.name),
                                        typed: if d.is_saving() {
                                            d.typed
                                        } else {
                                            Seq::empty()
                                        },
                                        entries: Seq::empty(),
                                        note: None,
                                        ..d
                                    },
                                );
                            } else if !d.is_saving() {
                                lemma_note_in_view(d, Some("that is not a file name"@));
                            }
                        },
                        None => {
                            lemma_note_in_view(d, Some("that is not a file name"@));
                        },
                    }
                }
            },
            Press::Up => {
                lemma_selected_in_view(d, above(d.selected, shown(d).len() as int));
            },
            Press::Down => {
                lemma_selected_in_view(d, below(d.selected, shown(d).len() as int));
            },
            Press::BackSpace => {
                lemma_reset_in_view(Dialog { typed: d.typed.drop_last(), ..d });
                lemma_reset_in_view(
                    Dialog { dir: d.dir.drop_last(), entries: Seq::empty(), note: None, ..d },
                );
            },
            Press::Left => {
                lemma_reset_in_view(
                    Dialog { dir: d.dir.drop_last(), entries: Seq::empty(), note: None, ..d },
                );
            },
            Press::Typed(s) => {
                lemma_reset_in_view(Dialog { typed: d.typed + s, ..d });
            },
        }
    }
}

/// A note does not change what is shown.
proof fn lemma_note_in_view(d: ShownView, note: Option<Seq<char>>)
    requires
        in_view(d),
    ensures
        in_view(Dialog { note, ..d }),
{
    let e = Dialog { note, ..d };
    let a = |i: usize| super::passes(d, i as int);
    let b = |i: usize| super::passes(e, i as int);
    assert forall|i: usize| #[trigger] a(i) == b(i) by {}
    assert(a =~= b);
}

/// What a key opens is one plain name below the directory that is shown, for the uid that
/// asks, and writable only where it asked to save.
pub proof fn only_plain_names_are_opened(desk: FrontView, press: Press<Seq<char>>, i: int)
    requires
        0 <= i < Turn::start(desk).press(press).acts.len(),
        Turn::start(desk).press(press).acts[i] is Open,
    ensures
        press is Enter,
        desk.dialog is Some,
        ({
            let d = desk.dialog->0;
            let act = Turn::start(desk).press(press).acts[i];
            &&& is_file_name(act->name)
            &&& act->Open_path == dir_text(d.dir.push(act->name))
            &&& act->uid == d.req.uid
            &&& act->write == d.is_saving()
        }),
{
}

/// What is withdrawn is not up and does not wait.
pub proof fn the_withdrawn_is_gone(t: Turn, who: u64, req: Option<u64>, i: int)
    ensures
        ({
            let after = t.withdraw(who, req).desk;
            &&& after.dialog is Some ==> !is_theirs(after.dialog->0.req.who, who, req)
            &&& 0 <= i < after.queue.len() ==> !is_theirs(after.queue[i].who, who, req)
        }),
{
    let keep = |p: Pending<Seq<char>>| !is_theirs(p.who, who, req);
    let left = kept(t.desk.queue, keep);
    assert forall|k: int| 0 <= k < left.len() implies !is_theirs(
        (#[trigger] left[k]).who,
        who,
        req,
    ) by {
        assert(left.contains(left[k]));
        lemma_kept_contains(t.desk.queue, keep, left[k]);
    }
    let after = t.withdraw(who, req).desk;
    if let Some(d) = t.desk.dialog {
        if is_theirs(d.req.who, who, req) && left.len() > 0 {
            assert(after.dialog == Some(fresh(left[0], t.desk.screens)));
            assert(after.queue == left.skip(1));
        }
    }
}

/// What is typed never grows past what fits.
pub proof fn typing_stays_short(typed: Seq<char>, s: Seq<char>)
    requires
        can_type(typed, s),
    ensures
        crate::utf8::byte_len(typed + s) <= super::MAX_TYPED,
{
    crate::utf8::lemma_byte_len_adds(typed, s);
}

/// Withdrawing a request right after it was asked undoes it, where nothing was up and nothing
/// waited.
pub proof fn withdrawing_undoes_asking(desk: FrontView, p: Pending<Seq<char>>)
    requires
        desk.dialog is None,
        desk.queue.len() == 0,
    ensures
        Turn::start(desk).ask(p).withdraw(p.who.0, Some(p.who.1)).desk == desk,
{
    let keep = |q: Pending<Seq<char>>| !is_theirs(q.who, p.who.0, Some(p.who.1));
    let one = seq![p];
    assert(desk.queue.push(p) =~= one);
    assert(one.skip(1) =~= Seq::<Pending<Seq<char>>>::empty());
    assert(kept(one.skip(1), keep) =~= Seq::<Pending<Seq<char>>>::empty());
    assert(desk.queue =~= Seq::<Pending<Seq<char>>>::empty());
}

} // verus!
