//! What the keys and the events come to, in what the person sees and what is done: where the
//! selection goes, what is listed, what is opened, who is answered.
use vstd::prelude::*;

use super::{
    dir_text, fresh, indices, is_listing, is_theirs, lemma_shown, offered, passes, shown, visible,
    Act, Desk, Dialog, Entry, FileKind, Listed, Pending, Press, ShownView, Turn,
};
use crate::text::{a_part_is_a_stretch, decimal, is_control, joined, lemma_decimal_digits, lower};
use crate::order::text_before;
use crate::utf8::byte_len;
use crate::views::{kept, lemma_kept_all, lemma_kept_contains};

verus! {

pub proof fn lemma_kept_indices(n: int, keep: spec_fn(usize) -> bool)
    requires
        0 <= n <= usize::MAX,
    ensures
        forall|a: int, b: int|
            0 <= a < b < kept(indices(n), keep).len() ==> (#[trigger] kept(indices(n), keep)[a]) < (
            #[trigger] kept(indices(n), keep)[b]),
        forall|a: int|
            0 <= a < kept(indices(n), keep).len() ==> (#[trigger] kept(indices(n), keep)[a]) < n,
    decreases n,
{
    if n > 0 {
        lemma_kept_indices(n - 1, keep);
        assert(indices(n).drop_last() =~= indices(n - 1));
        let before = kept(indices(n - 1), keep);
        let now = kept(indices(n), keep);
        assert(indices(n).last() == (n - 1) as usize);
        assert(now == before || now == before.push((n - 1) as usize));
        assert forall|a: int| 0 <= a < now.len() implies (#[trigger] now[a]) < n by {
            if a < before.len() {
                assert(now[a] == before[a]);
            }
        }
        assert forall|a: int, b: int| 0 <= a < b < now.len() implies (#[trigger] now[a]) < (
        #[trigger] now[b]) by {
            assert(now[a] == before[a]);
            if b < before.len() {
                assert(now[b] == before[b]);
            }
        }
    }
}

/// What is shown of a dialog's entries: all of them while a name to save is typed or while
/// nothing is, else those whose name holds what is typed, whatever the case; each once, in the
/// order of the entries.
pub proof fn the_filter_shows_what_holds_the_typed(d: ShownView, i: usize)
    requires
        d.entries.len() <= usize::MAX,
    ensures
        shown(d).contains(i) <==> i < d.entries.len() && {
            ||| d.req.what is Save
            ||| d.typed.len() == 0
            ||| exists|k: int|
                0 <= k <= lower(d.entries[i as int].name).len() - lower(d.typed).len()
                    && #[trigger] lower(d.entries[i as int].name).subrange(
                    k,
                    k + lower(d.typed).len(),
                ) == lower(d.typed)
        },
        forall|a: int, b: int|
            0 <= a < b < shown(d).len() ==> (#[trigger] shown(d)[a]) < (#[trigger] shown(d)[b]),
        forall|a: int| 0 <= a < shown(d).len() ==> (#[trigger] shown(d)[a]) < d.entries.len(),
{
    let n = d.entries.len() as int;
    let keep = |i: usize| passes(d, i as int);
    lemma_kept_indices(n, keep);
    lemma_kept_contains(indices(n), keep, i);
    if i < n {
        assert(indices(n)[i as int] == i);
        a_part_is_a_stretch(lower(d.entries[i as int].name), lower(d.typed));
    }
}

/// Up and Down move the selection by one entry and stop at the ends; with nothing selected
/// Down takes the first entry and Up the last. Nothing else of the dialog changes, and it is
/// drawn again.
pub proof fn arrows_move_by_one(t: Turn, d: ShownView)
    requires
        t.desk.dialog == Some(d),
        shown(d).len() <= usize::MAX,
        d.selected is Some ==> d.selected->0 < shown(d).len(),
    ensures
        ({
            let n = shown(d).len();
            let down = t.press(Press::Down);
            let up = t.press(Press::Up);
            &&& down.desk.dialog is Some
            &&& up.desk.dialog is Some
            &&& match d.selected {
                Some(i) => {
                    &&& i + 1 < n ==> down.desk.dialog->0.selected == Some((i + 1) as usize)
                    &&& i + 1 == n ==> down.desk.dialog->0.selected == Some(i)
                    &&& i > 0 ==> up.desk.dialog->0.selected == Some((i - 1) as usize)
                    &&& i == 0 ==> up.desk.dialog->0.selected == Some(0usize)
                },
                None => {
                    &&& n > 0 ==> down.desk.dialog->0.selected == Some(0usize)
                    &&& n > 0 ==> up.desk.dialog->0.selected == Some((n - 1) as usize)
                    &&& n == 0 ==> down.desk.dialog->0.selected is None
                    &&& n == 0 ==> up.desk.dialog->0.selected is None
                },
            }
            &&& down.desk.dialog->0 == (Dialog { selected: down.desk.dialog->0.selected, ..d })
            &&& up.desk.dialog->0 == (Dialog { selected: up.desk.dialog->0.selected, ..d })
            &&& shown(down.desk.dialog->0) == shown(d)
            &&& shown(up.desk.dialog->0) == shown(d)
            &&& down.desk.queue == t.desk.queue
            &&& up.desk.queue == t.desk.queue
            &&& down.acts == t.acts.push(Act::Redraw)
            &&& up.acts == t.acts.push(Act::Redraw)
        }),
{
    lemma_shown(d);
}

/// The same key pressed `k` times.
pub open spec fn pressed_times(t: Turn, press: Press<Seq<char>>, k: nat) -> Turn
    decreases k,
{
    if k == 0 {
        t
    } else {
        pressed_times(t, press, (k - 1) as nat).press(press)
    }
}

/// From the first entry `k` presses of Down select entry `k`, and `k` presses of Up lead back:
/// every entry that is shown can be reached.
pub proof fn every_shown_entry_is_reached(t: Turn, d: ShownView, k: nat)
    requires
        t.desk.dialog == Some(d),
        d.selected == Some(0usize),
        k < shown(d).len() <= usize::MAX,
    ensures
        pressed_times(t, Press::Down, k).desk.dialog == Some(
            Dialog { selected: Some(k as usize), ..d },
        ),
        pressed_times(pressed_times(t, Press::Down, k), Press::Up, k).desk.dialog == Some(d),
{
    lemma_shown(d);
    lemma_downs(t, d, k);
    assert(shown(Dialog { selected: Some(k as usize), ..d }) == shown(d));
    let there = pressed_times(t, Press::Down, k);
    lemma_ups(there, Dialog { selected: Some(k as usize), ..d }, k);
}

proof fn lemma_downs(t: Turn, d: ShownView, k: nat)
    requires
        t.desk.dialog == Some(d),
        d.selected == Some(0usize),
        k < shown(d).len() <= usize::MAX,
    ensures
        pressed_times(t, Press::Down, k).desk.dialog == Some(
            Dialog { selected: Some(k as usize), ..d },
        ),
    decreases k,
{
    lemma_shown(d);
    if k > 0 {
        lemma_downs(t, d, (k - 1) as nat);
        arrows_move_by_one(
            pressed_times(t, Press::Down, (k - 1) as nat),
            Dialog { selected: Some((k - 1) as usize), ..d },
        );
    }
}

proof fn lemma_ups(t: Turn, d: ShownView, k: nat)
    requires
        t.desk.dialog == Some(d),
        d.selected is Some,
        k <= d.selected->0 < shown(d).len() <= usize::MAX,
    ensures
        pressed_times(t, Press::Up, k).desk.dialog == Some(
            Dialog { selected: Some((d.selected->0 - k) as usize), ..d },
        ),
    decreases k,
{
    lemma_shown(d);
    if k > 0 {
        lemma_ups(t, d, (k - 1) as nat);
        arrows_move_by_one(
            pressed_times(t, Press::Up, (k - 1) as nat),
            Dialog { selected: Some((d.selected->0 - (k - 1)) as usize), ..d },
        );
    }
}

/// Enter on the entry that is selected: a directory is gone into and read, a file to open is
/// opened for who asks, and while saving a file lends its name.
pub proof fn enter_takes_what_is_selected(t: Turn, d: ShownView, i: usize)
    requires
        t.desk.dialog == Some(d),
        !(d.req.what is Screen),
        d.selected == Some(i),
        i < shown(d).len(),
    ensures
        ({
            let e = d.entries[shown(d)[i as int] as int];
            let r = t.press(Press::Enter);
            let saving = d.req.what is Save;
            let now = r.desk.dialog->0;
            &&& r.desk.queue == t.desk.queue
            &&& r.desk.dialog is Some
            &&& now.req == d.req
            &&& e.dir ==> {
                &&& now.dir == d.dir.push(e.name)
                &&& now.entries.len() == 0
                &&& now.typed == if saving { d.typed } else { Seq::empty() }
                &&& now.note is None
                &&& r.acts == t.acts.push(Act::List { dir: joined(d.dir.push(e.name), "/"@) })
            }
            &&& !e.dir && saving ==> {
                &&& now.typed == e.name
                &&& now.selected is None
                &&& now.dir == d.dir
                &&& now.entries == d.entries
                &&& r.acts == t.acts.push(Act::Redraw)
            }
            &&& !e.dir && !saving && e.name.len() > 0 && e.name != "."@ && e.name != ".."@
                && !e.name.contains('/') ==> {
                &&& now == d
                &&& r.acts == t.acts.push(
                    Act::Open {
                        path: joined(d.dir.push(e.name), "/"@),
                        name: e.name,
                        uid: d.req.uid,
                        write: false,
                    },
                )
            }
            &&& !e.dir && !saving && (e.name.len() == 0 || e.name == "."@ || e.name == ".."@
                || e.name.contains('/')) ==> {
                &&& now == (Dialog { note: Some("that is not a file name"@), ..d })
                &&& r.acts == t.acts.push(Act::Redraw)
            }
        }),
{
}

/// Enter with the cursor in the name line saves under the name that is typed, where a file can
/// have it, and says so where none can. With nothing selected there is nothing else to enter.
pub proof fn enter_saves_as_typed(t: Turn, d: ShownView)
    requires
        t.desk.dialog == Some(d),
        !(d.req.what is Screen),
        d.selected is None,
    ensures
        ({
            let r = t.press(Press::Enter);
            let plain = d.typed.len() > 0 && d.typed != "."@ && d.typed != ".."@
                && !d.typed.contains('/');
            &&& r.desk.queue == t.desk.queue
            &&& d.req.what is Save && plain ==> {
                &&& r.desk == t.desk
                &&& r.acts == t.acts.push(
                    Act::Open {
                        path: joined(d.dir.push(d.typed), "/"@),
                        name: d.typed,
                        uid: d.req.uid,
                        write: true,
                    },
                )
            }
            &&& d.req.what is Save && !plain ==> {
                &&& r.desk.dialog == Some(Dialog { note: Some("that is not a file name"@), ..d })
                &&& r.acts == t.acts.push(Act::Redraw)
            }
            &&& !(d.req.what is Save) ==> r == t
        }),
{
}

/// What is typed joins what was typed where it holds no control character and no slash and the
/// whole fits in 200 bytes, and then the first entry that passes is selected (none while
/// saving); else the key does nothing. BackSpace takes the last character back.
pub proof fn typing_grows_and_shrinks(t: Turn, d: ShownView, s: Seq<char>)
    requires
        t.desk.dialog == Some(d),
    ensures
        ({
            let r = t.press(Press::Typed(s));
            let fits = byte_len(d.typed) + byte_len(s) <= 200 && forall|i: int|
                0 <= i < s.len() ==> !is_control(#[trigger] s[i]) && s[i] != '/';
            &&& fits ==> {
                &&& r.desk.dialog is Some
                &&& r.desk.dialog->0.typed == d.typed + s
                &&& r.desk.dialog->0.req == d.req
                &&& r.desk.dialog->0.dir == d.dir
                &&& r.desk.dialog->0.entries == d.entries
                &&& r.desk.dialog->0.note == d.note
                &&& r.desk.dialog->0.selected == if d.req.what is Save || shown(
                    r.desk.dialog->0,
                ).len() == 0 {
                    None
                } else {
                    Some(0usize)
                }
                &&& r.acts == t.acts.push(Act::Redraw)
            }
            &&& !fits ==> r == t
        }),
        ({
            let r = t.press(Press::BackSpace);
            d.typed.len() > 0 ==> {
                &&& r.desk.dialog is Some
                &&& r.desk.dialog->0.typed == d.typed.take(d.typed.len() - 1)
                &&& r.desk.dialog->0.req == d.req
                &&& r.desk.dialog->0.dir == d.dir
                &&& r.desk.dialog->0.entries == d.entries
                &&& r.desk.dialog->0.selected == if d.req.what is Save || shown(
                    r.desk.dialog->0,
                ).len() == 0 {
                    None
                } else {
                    Some(0usize)
                }
                &&& r.acts == t.acts.push(Act::Redraw)
            }
        }),
{
    let a = Dialog { typed: d.typed + s, ..d };
    let b = Dialog { typed: d.typed.drop_last(), ..d };
    lemma_shown(a);
    lemma_shown(b);
    assert(shown(Dialog { selected: Some(0usize), ..a }) == shown(a));
    assert(shown(Dialog { selected: None, ..a }) == shown(a));
    assert(shown(Dialog { selected: Some(0usize), ..b }) == shown(b));
    assert(shown(Dialog { selected: None, ..b }) == shown(b));
    if d.typed.len() > 0 {
        assert(d.typed.drop_last() =~= d.typed.take(d.typed.len() - 1));
    }
    assert(forall|i: int| 0 <= i < s.len() ==> super::printable(#[trigger] s[i]) == (!is_control(
        s[i],
    ) && s[i] != '/'));
}

/// Left, and BackSpace with nothing typed, lead to the directory above, which is read again; at
/// the top they do nothing.
pub proof fn left_leads_up(t: Turn, d: ShownView)
    requires
        t.desk.dialog == Some(d),
    ensures
        ({
            let r = t.press(Press::Left);
            &&& d.dir.len() == 0 ==> r == t
            &&& d.dir.len() > 0 ==> {
                let up = d.dir.take(d.dir.len() - 1);
                &&& r.desk.dialog is Some
                &&& r.desk.dialog->0.dir == up
                &&& r.desk.dialog->0.typed == d.typed
                &&& r.desk.dialog->0.req == d.req
                &&& r.desk.dialog->0.entries.len() == 0
                &&& r.acts == t.acts.push(Act::List { dir: joined(up, "/"@) })
            }
        }),
        d.typed.len() == 0 ==> t.press(Press::BackSpace) == t.press(Press::Left),
{
    if d.dir.len() > 0 {
        assert(d.dir.drop_last() =~= d.dir.take(d.dir.len() - 1));
    }
}

/// Going into a directory and left again leads back to where it was.
pub proof fn left_undoes_entering(t: Turn, d: ShownView, i: usize)
    requires
        t.desk.dialog == Some(d),
        !(d.req.what is Screen),
        d.selected == Some(i),
        i < shown(d).len(),
        d.entries[shown(d)[i as int] as int].dir,
    ensures
        t.press(Press::Enter).press(Press::Left).desk.dialog is Some,
        t.press(Press::Enter).press(Press::Left).desk.dialog->0.dir == d.dir,
{
    let e = d.entries[shown(d)[i as int] as int];
    assert(d.dir.push(e.name).drop_last() =~= d.dir);
}

/// Escape refuses the request that is up: its asker hears it, the dialog comes down, and the
/// request that waits longest goes up. A dialog for files has its top directory read.
pub proof fn escape_refuses(t: Turn, d: ShownView)
    requires
        t.desk.dialog == Some(d),
    ensures
        ({
            let r = t.press(Press::Escape);
            &&& r.acts.len() >= t.acts.len() + 2
            &&& r.acts.take(t.acts.len() as int) == t.acts
            &&& r.acts[t.acts.len() as int] == Act::<Seq<char>>::Cancelled { who: d.req.who }
            &&& r.acts[t.acts.len() as int + 1] == Act::<Seq<char>>::Hide
            &&& t.desk.queue.len() == 0 ==> {
                &&& r.desk.dialog is None
                &&& r.desk.queue.len() == 0
                &&& r.acts.len() == t.acts.len() + 2
            }
            &&& t.desk.queue.len() > 0 ==> {
                &&& r.desk.dialog is Some
                &&& r.desk.dialog->0.req == t.desk.queue[0]
                &&& r.desk.queue == t.desk.queue.subrange(1, t.desk.queue.len() as int)
                &&& r.acts[t.acts.len() as int + 2] == Act::<Seq<char>>::Show
                &&& t.desk.queue[0].what is Screen ==> r.acts.len() == t.acts.len() + 3
                &&& !(t.desk.queue[0].what is Screen) ==> {
                    &&& r.acts.len() == t.acts.len() + 4
                    &&& r.acts[t.acts.len() as int + 3] == Act::List { dir: Seq::<char>::empty() }
                }
            }
        }),
{
    let r = t.press(Press::Escape);
    assert(r.acts.take(t.acts.len() as int) =~= t.acts);
    if t.desk.queue.len() > 0 {
        assert(t.desk.queue.skip(1) =~= t.desk.queue.subrange(1, t.desk.queue.len() as int));
    }
}

/// Requests go up in the order in which they were asked, one at a time: with one up, another
/// waits behind all that wait; with none, it goes up.
pub proof fn requests_take_their_turn(t: Turn, p: Pending<Seq<char>>)
    ensures
        t.desk.dialog is Some ==> {
            &&& t.ask(p).desk.dialog == t.desk.dialog
            &&& t.ask(p).desk.queue == t.desk.queue + seq![p]
            &&& t.ask(p).acts == t.acts
        },
        t.desk.dialog is None && t.desk.queue.len() == 0 ==> {
            &&& t.ask(p).desk.dialog is Some
            &&& t.ask(p).desk.dialog->0.req == p
            &&& t.ask(p).desk.queue.len() == 0
            &&& t.ask(p).acts.len() > t.acts.len()
            &&& t.ask(p).acts[t.acts.len() as int] == Act::<Seq<char>>::Show
        },
{
    assert(t.desk.queue.push(p) =~= t.desk.queue + seq![p]);
}

/// A dialog as it goes up: at the top directory, with no note; the screens where one is picked;
/// the name offered where it is one that can be typed, and else nothing typed.
pub proof fn dialogs_start_at_the_top(p: Pending<Seq<char>>, screens: Seq<Entry<Seq<char>>>)
    ensures
        fresh(p, screens).req == p,
        fresh(p, screens).dir.len() == 0,
        fresh(p, screens).note is None,
        p.what is Screen ==> fresh(p, screens).entries == screens,
        p.what is Screen && screens.len() > 0 ==> fresh(p, screens).selected == Some(0usize),
        !(p.what is Screen) ==> fresh(p, screens).entries.len() == 0,
        !(p.what is Screen) ==> fresh(p, screens).selected is None,
        !(p.what is Save) ==> fresh(p, screens).typed.len() == 0,
        p.what is Save ==> {
            let name = p.what->name;
            let plain = forall|i: int|
                0 <= i < name.len() ==> !is_control(#[trigger] name[i]) && name[i] != '/';
            &&& plain && name.len() <= 200 ==> fresh(p, screens).typed == name
            &&& plain && name.len() > 200 ==> fresh(p, screens).typed == name.take(200)
            &&& fresh(p, screens).typed.len() <= 200
            &&& forall|i: int|
                0 <= i < fresh(p, screens).typed.len() ==> !is_control(
                    #[trigger] fresh(p, screens).typed[i],
                ) && fresh(p, screens).typed[i] != '/'
        },
{
    let f = fresh(p, screens);
    let none = Dialog { selected: None, ..f };
    lemma_shown(f);
    assert(shown(none) == shown(f));
    if p.what is Save {
        let name = p.what->name;
        let keep = |c: char| super::printable(c);
        let all = kept(name, keep);
        if forall|i: int| 0 <= i < name.len() ==> !is_control(#[trigger] name[i]) && name[i] != '/' {
            assert forall|i: int| 0 <= i < name.len() implies keep(#[trigger] name[i]) by {}
            lemma_kept_all(name, keep);
        }
        assert forall|i: int| 0 <= i < f.typed.len() implies !is_control(#[trigger] f.typed[i])
            && f.typed[i] != '/' by {
            assert(f.typed[i] == all[i]);
            assert(all.contains(all[i]));
            lemma_kept_contains(name, keep, all[i]);
        }
    } else if p.what is Screen && screens.len() > 0 {
        let keep = |i: usize| passes(none, i as int);
        let n = screens.len() as int;
        assert forall|i: int| 0 <= i < indices(n).len() implies keep(#[trigger] indices(n)[i]) by {}
        lemma_kept_all(indices(n), keep);
    } else {
        assert(indices(0) =~= Seq::empty());
        assert(shown(none).len() == 0);
    }
}

/// A withdrawal takes the requests of who withdraws, or the one they number, and no other: what
/// else waits still waits, or has gone up.
pub proof fn a_withdrawal_is_for_its_own(t: Turn, who: u64, req: Option<u64>, p: Pending<Seq<char>>)
    ensures
        ({
            let r = t.withdraw(who, req);
            let theirs = |w: (u64, u64)|
                match req {
                    Some(n) => w == (who, n),
                    None => w.0 == who,
                };
            &&& t.desk.dialog is Some && !theirs(t.desk.dialog->0.req.who) ==> {
                &&& r.desk.dialog == t.desk.dialog
                &&& r.acts == t.acts
                &&& r.desk.queue.contains(p) <==> t.desk.queue.contains(p) && !theirs(p.who)
            }
            &&& t.desk.dialog is Some && theirs(t.desk.dialog->0.req.who) ==> {
                &&& r.acts.len() > t.acts.len()
                &&& r.acts[t.acts.len() as int] == Act::<Seq<char>>::Hide
                &&& (r.desk.queue.contains(p) || (r.desk.dialog is Some && r.desk.dialog->0.req
                    == p)) <==> t.desk.queue.contains(p) && !theirs(p.who)
            }
            &&& t.desk.dialog is None ==> {
                &&& r.desk.dialog is None
                &&& r.acts == t.acts
                &&& r.desk.queue.contains(p) <==> t.desk.queue.contains(p) && !theirs(p.who)
            }
        }),
{
    let keep = |q: Pending<Seq<char>>| !is_theirs(q.who, who, req);
    let left = kept(t.desk.queue, keep);
    lemma_kept_contains(t.desk.queue, keep, p);
    if left.len() > 0 {
        assert(left =~= seq![left[0]] + left.skip(1));
        if left.contains(p) {
            let k = choose|k: int| 0 <= k < left.len() && left[k] == p;
            if k > 0 {
                assert(left.skip(1)[k - 1] == p);
            }
        }
        if left.skip(1).contains(p) {
            let k = choose|k: int| 0 <= k < left.skip(1).len() && left.skip(1)[k] == p;
            assert(left[k + 1] == p);
        }
    }
}

/// A file that was opened is told to who asked, at the document's number below the documents,
/// and the dialog comes down; a file that was not leaves it up, and the person reads why.
pub proof fn the_opened_is_told(
    t: Turn,
    d: ShownView,
    docs: Seq<char>,
    name: Seq<char>,
    id: u64,
    e: Seq<char>,
)
    requires
        t.desk.dialog == Some(d),
        docs.len() > 0,
        docs.last() != '/',
        name.len() > 0,
        name[0] != '/',
    ensures
        ({
            let r = t.opened(docs, name, Ok(id));
            &&& r.acts.len() >= t.acts.len() + 2
            &&& r.acts[t.acts.len() as int] == Act::Chosen {
                who: d.req.who,
                path: docs + "/"@ + decimal(id as nat) + "/"@ + name,
            }
            &&& r.acts[t.acts.len() as int + 1] == Act::<Seq<char>>::Hide
            &&& t.desk.queue.len() == 0 ==> r.desk.dialog is None
            &&& t.desk.queue.len() > 0 ==> r.desk.dialog is Some && r.desk.dialog->0.req
                == t.desk.queue[0]
        }),
        ({
            let r = t.opened(docs, name, Err(e));
            &&& r.desk == (Desk {
                dialog: Some(Dialog { note: Some(name + ": "@ + e), ..d }),
                ..t.desk
            })
            &&& r.acts == t.acts.push(Act::Redraw)
        }),
{
    reveal_strlit("/");
    lemma_decimal_digits(id as nat);
    let n = decimal(id as nat);
    assert(crate::text::is_digit(n[0]));
    assert(crate::text::is_digit(n.last()));
    let dir = docs.push('/') + n;
    assert(dir.last() == n.last());
    assert(dir.push('/') + name =~= docs + "/"@ + n + "/"@ + name);
}

/// A listing holds the files and directories that were read but for those whose name starts
/// with a dot, and nothing else; directories stand first, and among each by their names,
/// whatever the case.
pub proof fn listings_hold_what_is_there(
    entries: Seq<Entry<Seq<char>>>,
    read: Seq<Listed<Seq<char>>>,
    e: Entry<Seq<char>>,
)
    requires
        is_listing(entries, read),
        read.len() <= usize::MAX,
    ensures
        entries.contains(e) <==> e.detail.len() == 0 && exists|k: int|
            0 <= k < read.len() && (#[trigger] read[k]).name == e.name && !(e.name.len() > 0
                && e.name[0] == '.') && read[k].kind == if e.dir {
                FileKind::Directory
            } else {
                FileKind::Regular
            },
        forall|a: int, b: int|
            0 <= a < b < entries.len() ==> {
                ||| (#[trigger] entries[a]).dir && !(#[trigger] entries[b]).dir
                ||| entries[a].dir == entries[b].dir && !text_before(
                    lower(entries[b].name),
                    lower(entries[a].name),
                )
            },
{
    let keep = |e: Listed<Seq<char>>| visible(e);
    let seen = kept(read, keep);
    let all = seen.map_values(|e: Listed<Seq<char>>| super::entry(e));
    let order = choose|order: Seq<usize>|
        {
            &&& crate::order::lists_all(order, all.len() as int)
            &&& #[trigger] crate::order::picked(entries, all, order)
            &&& forall|a: int, b: int|
                0 <= a < b < order.len() ==> {
                    ||| super::entry_before(
                        all[#[trigger] order[a] as int],
                        all[#[trigger] order[b] as int],
                    )
                    ||| (!super::entry_before(all[order[b] as int], all[order[a] as int])
                        && order[a] < order[b])
                }
        };
    assert forall|a: int, b: int| 0 <= a < b < entries.len() implies {
        ||| (#[trigger] entries[a]).dir && !(#[trigger] entries[b]).dir
        ||| entries[a].dir == entries[b].dir && !text_before(
            lower(entries[b].name),
            lower(entries[a].name),
        )
    } by {
        assert(order[a] < all.len());
        assert(order[b] < all.len());
        crate::order::text_order_is_total(lower(entries[a].name), lower(entries[b].name));
    }
    lemma_kept_len(read, keep);
    crate::order::lemma_lists_each(order, all.len() as int);
    if entries.contains(e) {
        let k = choose|k: int| 0 <= k < entries.len() && entries[k] == e;
        let j = order[k] as int;
        assert(all[j] == super::entry(seen[j]));
        assert(seen.contains(seen[j]));
        lemma_kept_contains(read, keep, seen[j]);
        let i = choose|i: int| 0 <= i < read.len() && read[i] == seen[j];
        assert(read[i].name == e.name);
    }
    if e.detail.len() == 0 && exists|k: int|
        0 <= k < read.len() && (#[trigger] read[k]).name == e.name && !(e.name.len() > 0
            && e.name[0] == '.') && read[k].kind == if e.dir {
            FileKind::Directory
        } else {
            FileKind::Regular
        } {
        let k = choose|k: int|
            0 <= k < read.len() && (#[trigger] read[k]).name == e.name && !(e.name.len() > 0
                && e.name[0] == '.') && read[k].kind == if e.dir {
                FileKind::Directory
            } else {
                FileKind::Regular
            };
        lemma_kept_contains(read, keep, read[k]);
        assert(read.contains(read[k]));
        let j = choose|j: int| 0 <= j < seen.len() && seen[j] == read[k];
        assert(all[j] == super::entry(seen[j]));
        assert(e.detail =~= Seq::<char>::empty());
        assert(all[j] == e);
        assert(order.contains(j as usize));
        let p = choose|p: int| 0 <= p < order.len() && order[p] == j as usize;
        assert(entries[p] == e);
    }
}

proof fn lemma_kept_len<T>(s: Seq<T>, keep: spec_fn(T) -> bool)
    ensures
        kept(s, keep).len() <= s.len(),
    decreases s.len(),
{
    if s.len() > 0 {
        lemma_kept_len(s.drop_last(), keep);
    }
}

/// New screens show where one is picked, with the first selected, and change nothing else.
pub proof fn new_screens_are_shown(t: Turn, d: ShownView, screens: Seq<Entry<Seq<char>>>)
    requires
        t.desk.dialog == Some(d),
    ensures
        t.screens(screens).desk.screens == screens,
        t.screens(screens).desk.queue == t.desk.queue,
        t.screens(screens).desk.dialog is Some,
        d.req.what is Screen ==> {
            &&& t.screens(screens).desk.dialog->0.entries == screens
            &&& t.screens(screens).desk.dialog->0.req == d.req
            &&& t.screens(screens).desk.dialog->0.typed == d.typed
            &&& t.screens(screens).acts == t.acts.push(Act::Redraw)
        },
        !(d.req.what is Screen) ==> {
            &&& t.screens(screens).desk.dialog == t.desk.dialog
            &&& t.screens(screens).acts == t.acts
        },
{
}

/// The way to a directory is its names with slashes between them.
pub proof fn directories_are_written_with_slashes(dir: Seq<Seq<char>>, name: Seq<char>)
    ensures
        dir_text(Seq::empty()) == Seq::<char>::empty(),
        dir_text(seq![name]) == name,
        dir.len() > 0 ==> dir_text(dir.push(name)) == dir_text(dir) + "/"@ + name,
{
    assert(dir.push(name).drop_last() =~= dir);
}

/// A name that is offered keeps the characters that can stand in a name, and they are all that
/// is left of it where they are not too many.
pub proof fn an_offered_name_keeps_what_can_stand(name: Seq<char>, c: char)
    requires
        name.len() <= 200,
    ensures
        offered(name).contains(c) <==> name.contains(c) && !is_control(c) && c != '/',
{
    let keep = |c: char| super::printable(c);
    lemma_kept_contains(name, keep, c);
    lemma_kept_len(name, keep);
}

/// With no dialog up, keys, files that were opened and new screens only change what there is to
/// show.
pub proof fn nothing_up_nothing_done(
    t: Turn,
    press: Press<Seq<char>>,
    docs: Seq<char>,
    name: Seq<char>,
    grant: Result<u64, Seq<char>>,
    screens: Seq<Entry<Seq<char>>>,
)
    requires
        t.desk.dialog is None,
    ensures
        t.press(press) == t,
        t.cancel() == t,
        t.opened(docs, name, grant) == t,
        t.screens(screens) == (Turn { desk: Desk { screens, ..t.desk }, ..t }),
{
}

/// A dialog with other entries shows those, with the first that passes selected (none while
/// saving) and the note that comes with them; the rest of it is as it was.
pub proof fn other_entries_are_shown(
    d: ShownView,
    entries: Seq<Entry<Seq<char>>>,
    note: Option<Seq<char>>,
)
    ensures
        ({
            let r = super::relisted(d, entries, note);
            &&& r.entries == entries
            &&& r.note == note
            &&& r.req == d.req && r.dir == d.dir && r.typed == d.typed
            &&& r.selected == if d.req.what is Save || shown(r).len() == 0 {
                None
            } else {
                Some(0usize)
            }
        }),
{
    let a = Dialog { entries, note, ..d };
    lemma_shown(a);
    assert(shown(Dialog { selected: Some(0usize), ..a }) == shown(a));
    assert(shown(Dialog { selected: None, ..a }) == shown(a));
}

} // verus!
