//! What holds of drv-cast whatever happens: what every turn keeps, and who may see what.
use vstd::prelude::*;

use super::compositor::FromCompositor;
use super::state::{
    allowed, asked_at, asks_without, connected, device_asks, holders, is_asked, is_of, joined_by,
    leaves, on_app, on_compositor, on_gone, on_pw_asked, on_remote, on_shell, sessions_of,
    source_of, standing_source, with_name, Act, Asking, AskingView, ConnView,
    ConsentView, DoneView, HeldView, RemoteFor, SessionView, State, Turn,
};
use super::wire::{Source, ToCast};
use crate::assoc::{
    at, del, del_then_get, get, has_key, lemma_at, lemma_at_is, put, put_keeps_unique,
    put_leaves_others, put_then_get, unique,
};
use crate::order::{text_before, text_order_is_total};
use crate::pw::Device;
use crate::shell::ask::Response;
use crate::text::{after_prefix, decimal, decimal_reads_back};
use crate::views::{kept, lemma_kept_contains, view_opt};

verus! {

/// What the person picks comes back as what it stands for.
pub proof fn keys_come_back(name: Seq<char>, id: u64)
    ensures
        source_of("screen:"@ + name) == Some(Source::<Seq<char>>::Screen(name)),
        source_of("window:"@ + decimal(id as nat)) == Some(Source::<Seq<char>>::Window(id)),
{
    reveal_strlit("screen:");
    reveal_strlit("window:");
    let s = "screen:"@ + name;
    assert(s.take("screen:"@.len() as int) =~= "screen:"@);
    assert(s.skip("screen:"@.len() as int) =~= name);
    assert(s.subrange(0, "screen:"@.len() as int) =~= "screen:"@);
    assert(s.subrange("screen:"@.len() as int, s.len() as int) =~= name);
    let w = "window:"@ + decimal(id as nat);
    assert(w[0] == 'w');
    assert(w.take("window:"@.len() as int) =~= "window:"@);
    assert(w.skip("window:"@.len() as int) =~= decimal(id as nat));
    assert(w.subrange(0, "window:"@.len() as int) =~= "window:"@);
    assert(w.subrange("window:"@.len() as int, w.len() as int) =~= decimal(id as nat));
    assert(after_prefix(w, "screen:"@) is None) by {
        if after_prefix(w, "screen:"@) is Some {
            assert("screen:"@[0] == 's');
            assert(w.take("screen:"@.len() as int)[0] == w[0]);
            assert(w.subrange(0, "screen:"@.len() as int)[0] == w[0]);
        }
    }
    decimal_reads_back(id as nat, u64::MAX as nat);
}

/// Every name comes before the next.
pub open spec fn in_order(list: Seq<Seq<char>>) -> bool {
    forall|i: int, j: int|
        0 <= i < j < list.len() ==> text_before(#[trigger] list[i], #[trigger] list[j])
}

proof fn lemma_with_name_keeps(list: Seq<Seq<char>>, name: Seq<char>)
    requires
        in_order(list),
    ensures
        in_order(with_name(list, name)),
        forall|x: Seq<char>| #[trigger]
            with_name(list, name).contains(x) <==> (list.contains(x) || x == name),
    decreases list.len(),
{
    let r = with_name(list, name);
    if list.len() == 0 {
        assert(r[0] == name);
    } else if list[0] == name {
    } else if text_before(name, list[0]) {
        assert forall|i: int, j: int| 0 <= i < j < r.len() implies text_before(
            #[trigger] r[i],
            #[trigger] r[j],
        ) by {
            if i == 0 {
                if j > 1 {
                    assert(text_before(list[0], list[j - 1]));
                    crate::order::text_order_carries(name, list[0], list[j - 1]);
                }
            } else {
                assert(text_before(list[i - 1], list[j - 1]));
            }
        }
        assert forall|x: Seq<char>| #[trigger] r.contains(x) <==> (list.contains(x) || x == name) by {
            if list.contains(x) {
                let k = choose|k: int| 0 <= k < list.len() && list[k] == x;
                assert(r[k + 1] == x);
            }
            assert(r[0] == name);
        }
    } else {
        let rest = list.skip(1);
        assert forall|i: int, j: int| 0 <= i < j < rest.len() implies text_before(
            #[trigger] rest[i],
            #[trigger] rest[j],
        ) by {
            assert(text_before(list[i + 1], list[j + 1]));
        }
        lemma_with_name_keeps(rest, name);
        let tail = with_name(rest, name);
        text_order_is_total(name, list[0]);
        assert forall|i: int, j: int| 0 <= i < j < r.len() implies text_before(
            #[trigger] r[i],
            #[trigger] r[j],
        ) by {
            if i == 0 {
                assert(tail.contains(tail[j - 1]));
                if tail[j - 1] != name {
                    let k = choose|k: int| 0 <= k < rest.len() && rest[k] == tail[j - 1];
                    assert(list[k + 1] == tail[j - 1]);
                    assert(text_before(list[0], list[k + 1]));
                }
            } else {
                assert(text_before(tail[i - 1], tail[j - 1]));
            }
        }
        assert forall|x: Seq<char>| #[trigger] r.contains(x) <==> (list.contains(x) || x == name) by {
            if list.contains(x) || x == name {
                if x == list[0] {
                    assert(r[0] == x);
                } else {
                    if list.contains(x) {
                        let k = choose|k: int| 0 <= k < list.len() && list[k] == x;
                        assert(rest[k - 1] == x);
                        assert(rest.contains(x));
                    }
                    assert(tail.contains(x));
                    let k = choose|k: int| 0 <= k < tail.len() && tail[k] == x;
                    assert(r[k + 1] == x);
                }
            }
            if r.contains(x) {
                let k = choose|k: int| 0 <= k < r.len() && r[k] == x;
                if k == 0 {
                    assert(list[0] == x);
                } else {
                    assert(tail[k - 1] == x);
                    assert(tail.contains(x));
                    if rest.contains(x) {
                        let m = choose|m: int| 0 <= m < rest.len() && rest[m] == x;
                        assert(list[m + 1] == x);
                    }
                }
            }
        }
    }
}

/// The indicator names who holds a device and nobody else, in order, each once.
pub proof fn the_indicator_names_who_holds(devices: Seq<(u64, HeldView)>, device: Device)
    ensures
        in_order(holders(devices, device)),
        forall|name: Seq<char>| #[trigger]
            holders(devices, device).contains(name) <==> exists|i: int|
                0 <= i < devices.len() && (#[trigger] devices[i]).1.app == name
                    && devices[i].1.devices.contains(device),
    decreases devices.len(),
{
    if devices.len() > 0 {
        let before = devices.drop_last();
        the_indicator_names_who_holds(before, device);
        let list = holders(before, device);
        lemma_with_name_keeps(list, devices.last().1.app);
        assert forall|name: Seq<char>| #[trigger]
            holders(devices, device).contains(name) <==> exists|i: int|
                0 <= i < devices.len() && (#[trigger] devices[i]).1.app == name
                    && devices[i].1.devices.contains(device) by {
            if holders(devices, device).contains(name) {
                if list.contains(name) {
                    let i = choose|i: int|
                        0 <= i < before.len() && (#[trigger] before[i]).1.app == name
                            && before[i].1.devices.contains(device);
                    assert(devices[i] == before[i]);
                } else {
                    assert(devices[devices.len() - 1].1.app == name);
                }
            }
            if exists|i: int|
                0 <= i < devices.len() && (#[trigger] devices[i]).1.app == name
                    && devices[i].1.devices.contains(device) {
                let i = choose|i: int|
                    0 <= i < devices.len() && (#[trigger] devices[i]).1.app == name
                        && devices[i].1.devices.contains(device);
                if i < before.len() {
                    assert(before[i] == devices[i]);
                    assert(list.contains(name));
                }
            }
        }
    }
}

/// Nothing an app asks for starts a cast but a token it was itself given, for a source that is
/// still there.
pub proof fn an_app_starts_only_what_it_was_let(
    st: State,
    conn: u64,
    msg: ToCast,
    standing: bool,
    cameras: bool,
    i: int,
)
    requires
        0 <= i < on_app(st, conn, msg, standing, cameras).acts.len(),
        on_app(st, conn, msg, standing, cameras).acts[i] is Tell,
        on_app(st, conn, msg, standing, cameras).acts[i]->Tell_0 is Start,
    ensures
        msg is Cast,
        get(st.conns, conn) is Some,
        standing_source(st, view_opt(msg->again), get(st.conns, conn)->0) == Some(
            on_app(st, conn, msg, standing, cameras).acts[i]->Tell_0->source,
        ),
{
    let t = Turn::start(st);
    match get(st.conns, conn) {
        None => {},
        Some(c) => {
            match msg {
                ToCast::CastClose { session } => {
                    lemma_close_tells(t, conn, session, false);
                },
                ToCast::Cancel { .. } => {
                    if let Some(session) = super::state::waiting_session(
                        st.sessions,
                        conn,
                        msg->Cancel_req,
                    ) {
                        lemma_close_tells(t, conn, session, false);
                    }
                },
                ToCast::Camera { req } => {
                    if !allowed(st.devices, c.uid, Device::Camera) && standing {
                        lemma_grant_tells(t, c.uid, Device::Camera, seq![(conn, req)], None);
                    }
                },
                _ => {},
            }
        },
    }
}

/// Nothing is started by these acts.
pub open spec fn starts_nothing(acts: Seq<DoneView>) -> bool {
    forall|i: int|
        0 <= i < acts.len() ==> !((#[trigger] acts[i]) is Tell && acts[i]->Tell_0 is Start)
}

proof fn lemma_close_tells(t: Turn, conn: u64, session: u64, tell: bool)
    requires
        starts_nothing(t.acts),
    ensures
        starts_nothing(t.close(conn, session, tell).acts),
{
}

proof fn lemma_tell_all_tells(t: Turn, waiting: Seq<(u64, u64)>, granted: bool)
    requires
        starts_nothing(t.acts),
    ensures
        starts_nothing(t.tell_all(waiting, granted).acts),
    decreases waiting.len(),
{
    if waiting.len() > 0 {
        lemma_tell_all_tells(t, waiting.drop_last(), granted);
    }
}

proof fn lemma_grant_tells(
    t: Turn,
    uid: u32,
    device: Device,
    waiting: Seq<(u64, u64)>,
    who: Option<Seq<char>>,
)
    requires
        starts_nothing(t.acts),
    ensures
        starts_nothing(t.grant(uid, device, waiting, who).acts),
{
    let g = t.grant(uid, device, Seq::empty(), who);
    assert(starts_nothing(g.acts));
    lemma_tell_all_tells(g, waiting, true);
}

/// A token means something only with the app and the uid it was given to.
pub proof fn tokens_are_the_apps_own(st: State, token: Seq<char>, c: ConnView)
    requires
        match get(st.consents, token) {
            Some(k) => k.app != c.app || k.uid != c.uid,
            None => true,
        },
    ensures
        standing_source(st, Some(token), c) is None,
{
}

/// Every row has it.
pub open spec fn each<K, V>(rows: Seq<(K, V)>, p: spec_fn(K, V) -> bool) -> bool {
    forall|i: int| 0 <= i < rows.len() ==> p((#[trigger] rows[i]).0, rows[i].1)
}

/// No device of a uid is asked for twice at a time.
pub open spec fn asked_once(asks: Seq<(u64, AskingView)>) -> bool {
    forall|i: int, j: int, uid: u32, device: Device|
        0 <= i < j < asks.len() && is_asked((#[trigger] asks[i]).1, uid, device) ==> !(
        #[trigger] is_asked((#[trigger] asks[j]).1, uid, device))
}

/// A token given out so far.
pub open spec fn is_token(token: Seq<char>, n: nat) -> bool {
    exists|k: nat| 1 <= k <= n && token == "drv"@ + #[trigger] decimal(k)
}

/// What holds of the state at every turn: nothing is there twice, numbers are of what was
/// numbered, sessions are of apps that are there, and a device is asked for once at a time.
pub open spec fn wf(st: State) -> bool {
    &&& unique(st.conns)
    &&& unique(st.sessions)
    &&& unique(st.asks)
    &&& unique(st.casts)
    &&& unique(st.consents)
    &&& unique(st.devices)
    &&& unique(st.camera_remotes)
    &&& each(st.sessions, |k: (u64, u64), s: SessionView| has_key(st.conns, k.0))
    &&& each(st.asks, |k: u64, a: AskingView| 1 <= k <= st.next_id)
    &&& each(st.casts, |k: u64, l: super::state::LiveView| 1 <= k <= st.next_id)
    &&& each(st.consents, |k: Seq<char>, c: ConsentView| is_token(k, st.next_token))
    &&& each(st.devices, |k: u64, h: HeldView| k <= u32::MAX)
    &&& each(st.camera_remotes, |k: u64, c: Seq<u32>| k <= u32::MAX)
    &&& asked_once(st.asks)
}

proof fn lemma_each_del<K, V>(rows: Seq<(K, V)>, k: K, p: spec_fn(K, V) -> bool)
    requires
        each(rows, p),
    ensures
        each(del(rows, k), p),
{
    lemma_at(rows, k);
    let new = del(rows, k);
    assert forall|i: int| 0 <= i < new.len() implies p((#[trigger] new[i]).0, new[i].1) by {
        if has_key(rows, k) {
            let j = if i < at(rows, k) { i } else { i + 1 };
            assert(new[i] == rows[j]);
        }
    }
}

proof fn lemma_each_put<K, V>(rows: Seq<(K, V)>, k: K, v: V, p: spec_fn(K, V) -> bool)
    requires
        each(rows, p),
        p(k, v),
    ensures
        each(put(rows, k, v), p),
{
    lemma_at(rows, k);
    let new = put(rows, k, v);
    assert forall|i: int| 0 <= i < new.len() implies p((#[trigger] new[i]).0, new[i].1) by {
        if i < rows.len() {
            assert(p(rows[i].0, rows[i].1));
        }
    }
}

/// A key with a row, and no other, is what some row has.
proof fn lemma_has<K, V>(rows: Seq<(K, V)>, i: int)
    requires
        0 <= i < rows.len(),
    ensures
        has_key(rows, rows[i].0),
{
    lemma_at(rows, rows[i].0);
}

proof fn lemma_once_del(asks: Seq<(u64, AskingView)>, id: u64)
    requires
        asked_once(asks),
    ensures
        asked_once(del(asks, id)),
{
    lemma_at(asks, id);
    let new = del(asks, id);
    assert forall|i: int, j: int, uid: u32, device: Device|
        0 <= i < j < new.len() && is_asked((#[trigger] new[i]).1, uid, device) implies !(
    #[trigger] is_asked((#[trigger] new[j]).1, uid, device)) by {
        if has_key(asks, id) {
            let x = if i < at(asks, id) { i } else { i + 1 };
            let y = if j < at(asks, id) { j } else { j + 1 };
            assert(new[i] == asks[x] && new[j] == asks[y]);
        }
    }
}

/// Questions that ask the same in the same rows are as they were.
proof fn lemma_once_same(asks: Seq<(u64, AskingView)>, new: Seq<(u64, AskingView)>)
    requires
        asked_once(asks),
        asks.len() == new.len(),
        forall|i: int, uid: u32, device: Device|
            0 <= i < new.len() ==> (#[trigger] is_asked((#[trigger] new[i]).1, uid, device)
                ==> is_asked(asks[i].1, uid, device)),
    ensures
        asked_once(new),
{
    assert forall|i: int, j: int, uid: u32, device: Device|
        0 <= i < j < new.len() && is_asked((#[trigger] new[i]).1, uid, device) implies !(
    #[trigger] is_asked((#[trigger] new[j]).1, uid, device)) by {
        if is_asked(new[j].1, uid, device) {
            assert(is_asked(asks[i].1, uid, device));
            assert(is_asked(asks[j].1, uid, device));
        }
    }
}

proof fn lemma_asked_at_none(asks: Seq<(u64, AskingView)>, uid: u32, device: Device)
    ensures
        0 <= asked_at(asks, uid, device) <= asks.len(),
        asked_at(asks, uid, device) == asks.len() ==> forall|i: int|
            0 <= i < asks.len() ==> !is_asked((#[trigger] asks[i]).1, uid, device),
        asked_at(asks, uid, device) < asks.len() ==> is_asked(
            asks[asked_at(asks, uid, device)].1,
            uid,
            device,
        ),
    decreases asks.len(),
{
    if asks.len() > 0 && !is_asked(asks[0].1, uid, device) {
        lemma_asked_at_none(asks.skip(1), uid, device);
        if asked_at(asks, uid, device) == asks.len() {
            assert forall|i: int| 0 <= i < asks.len() implies !is_asked(
                (#[trigger] asks[i]).1,
                uid,
                device,
            ) by {
                if i > 0 {
                    assert(asks[i] == asks.skip(1)[i - 1]);
                }
            }
        }
    }
}

/// A question added under a new number, for what is not asked yet.
proof fn lemma_asks_put(st: State, id: u64, asking: AskingView)
    requires
        wf(st),
        st.next_id < u64::MAX,
        id == st.next_id + 1,
        forall|i: int, uid: u32, device: Device|
            0 <= i < st.asks.len() && is_asked(asking, uid, device) ==> !#[trigger] is_asked(
                st.asks[i].1,
                uid,
                device,
            ),
    ensures
        wf(State { next_id: st.next_id + 1, asks: put(st.asks, id, asking), ..st }),
{
    let new = put(st.asks, id, asking);
    let n = State { next_id: st.next_id + 1, asks: new, ..st };
    put_keeps_unique(st.asks, id, asking);
    lemma_at(st.asks, id);
    assert(!has_key(st.asks, id)) by {
        if has_key(st.asks, id) {
            assert(st.asks[at(st.asks, id)].0 == id);
        }
    }
    assert(each(new, |k: u64, a: AskingView| 1 <= k <= n.next_id)) by {
        assert forall|i: int| 0 <= i < new.len() implies 1 <= (#[trigger] new[i]).0 <= n.next_id by {
            if i < st.asks.len() {
                assert(new[i] == st.asks[i]);
            }
        }
    }
    assert(each(n.casts, |k: u64, l: super::state::LiveView| 1 <= k <= n.next_id));
    assert(asked_once(new)) by {
        assert forall|i: int, j: int, uid: u32, device: Device|
            0 <= i < j < new.len() && is_asked((#[trigger] new[i]).1, uid, device) implies !(
        #[trigger] is_asked((#[trigger] new[j]).1, uid, device)) by {
            assert(new[i] == st.asks[i]);
            if j < st.asks.len() {
                assert(new[j] == st.asks[j]);
            }
        }
    }
}

proof fn lemma_asks_del(st: State, id: u64)
    requires
        wf(st),
    ensures
        wf(State { asks: del(st.asks, id), ..st }),
{
    del_then_get(st.asks, id, id);
    lemma_each_del(st.asks, id, |k: u64, a: AskingView| 1 <= k <= st.next_id);
    lemma_once_del(st.asks, id);
}

proof fn lemma_casts_del(st: State, cast: u64)
    requires
        wf(st),
    ensures
        wf(State { casts: del(st.casts, cast), ..st }),
{
    del_then_get(st.casts, cast, cast);
    lemma_each_del(
        st.casts,
        cast,
        |k: u64, l: super::state::LiveView| 1 <= k <= st.next_id,
    );
}

proof fn lemma_casts_put(st: State, cast: u64, live: super::state::LiveView)
    requires
        wf(st),
        st.next_id < u64::MAX,
        cast == st.next_id + 1,
    ensures
        wf(State { next_id: st.next_id + 1, casts: put(st.casts, cast, live), ..st }),
{
    let n = State { next_id: st.next_id + 1, casts: put(st.casts, cast, live), ..st };
    put_keeps_unique(st.casts, cast, live);
    let p = |k: u64, l: super::state::LiveView| 1 <= k <= n.next_id;
    assert(each(st.casts, p));
    lemma_each_put(st.casts, cast, live, p);
    assert(each(n.asks, |k: u64, a: AskingView| 1 <= k <= n.next_id));
}

proof fn lemma_sessions_del(st: State, key: (u64, u64))
    requires
        wf(st),
    ensures
        wf(State { sessions: del(st.sessions, key), ..st }),
{
    del_then_get(st.sessions, key, key);
    lemma_each_del(
        st.sessions,
        key,
        |k: (u64, u64), s: SessionView| has_key(st.conns, k.0),
    );
}

proof fn lemma_sessions_put(st: State, key: (u64, u64), s: SessionView)
    requires
        wf(st),
        has_key(st.conns, key.0),
    ensures
        wf(State { sessions: put(st.sessions, key, s), ..st }),
{
    put_keeps_unique(st.sessions, key, s);
    lemma_each_put(
        st.sessions,
        key,
        s,
        |k: (u64, u64), s: SessionView| has_key(st.conns, k.0),
    );
}

proof fn lemma_devices_del(st: State, uid: u64)
    requires
        wf(st),
    ensures
        wf(State { devices: del(st.devices, uid), ..st }),
{
    del_then_get(st.devices, uid, uid);
    lemma_each_del(st.devices, uid, |k: u64, h: HeldView| k <= u32::MAX);
}

proof fn lemma_cut_cameras_keeps(t: Turn, uid: u32)
    requires
        wf(t.state),
    ensures
        wf(t.cut_cameras(uid).state),
        t.cut_cameras(uid).state.devices == t.state.devices,
{
    del_then_get(t.state.camera_remotes, uid as u64, uid as u64);
    lemma_each_del(t.state.camera_remotes, uid as u64, |k: u64, c: Seq<u32>| k <= u32::MAX);
}

proof fn lemma_close_keeps(t: Turn, conn: u64, session: u64, tell: bool)
    requires
        wf(t.state),
    ensures
        wf(t.close(conn, session, tell).state),
        t.close(conn, session, tell).state.conns == t.state.conns,
        t.close(conn, session, tell).state.sessions == if has_key(t.state.conns, conn) {
            del(t.state.sessions, (conn, session))
        } else {
            t.state.sessions
        },
{
    let key = (conn, session);
    if has_key(t.state.conns, conn) {
        if let Some(s) = get(t.state.sessions, key) {
            lemma_sessions_del(t.state, key);
            let a = State { sessions: del(t.state.sessions, key), ..t.state };
            let b = match s.ask {
                Some(id) => {
                    lemma_asks_del(a, id);
                    State { asks: del(a.asks, id), ..a }
                },
                None => a,
            };
            if let Some(cast) = s.cast {
                lemma_casts_del(b, cast);
            }
        }
    }
}

proof fn lemma_close_all_keeps(t: Turn, conn: u64, ids: Seq<u64>)
    requires
        wf(t.state),
        has_key(t.state.conns, conn),
    ensures
        wf(t.close_all(conn, ids).state),
        t.close_all(conn, ids).state.conns == t.state.conns,
        forall|key: (u64, u64)| #[trigger]
            has_key(t.close_all(conn, ids).state.sessions, key) ==> has_key(t.state.sessions, key)
                && !(key.0 == conn && ids.contains(key.1)),
    decreases ids.len(),
{
    if ids.len() > 0 {
        let before = t.close_all(conn, ids.drop_last());
        lemma_close_all_keeps(t, conn, ids.drop_last());
        lemma_close_keeps(before, conn, ids.last(), false);
        let after = t.close_all(conn, ids).state.sessions;
        assert forall|key: (u64, u64)| #[trigger] has_key(after, key) implies has_key(
            t.state.sessions,
            key,
        ) && !(key.0 == conn && ids.contains(key.1)) by {
            del_then_get(before.state.sessions, (conn, ids.last()), key);
            if key == (conn, ids.last()) {
                assert(get(after, key) is None);
            } else {
                assert(get(after, key) == get(before.state.sessions, key));
                assert(has_key(before.state.sessions, key));
                if key.0 == conn && ids.contains(key.1) {
                    let i = choose|i: int| 0 <= i < ids.len() && ids[i] == key.1;
                    assert(ids.drop_last()[i] == key.1);
                }
            }
        }
    }
}

proof fn lemma_sessions_of(sessions: Seq<((u64, u64), SessionView)>, conn: u64, i: int)
    requires
        0 <= i < sessions.len(),
        (sessions[i].0).0 == conn,
    ensures
        sessions_of(sessions, conn).contains((sessions[i].0).1),
    decreases sessions.len(),
{
    let before = sessions_of(sessions.drop_last(), conn);
    if i < sessions.len() - 1 {
        lemma_sessions_of(sessions.drop_last(), conn, i);
        let k = choose|k: int| 0 <= k < before.len() && before[k] == (sessions[i].0).1;
        assert(sessions_of(sessions, conn)[k] == (sessions[i].0).1);
    } else {
        assert(sessions_of(sessions, conn)[before.len() as int] == (sessions[i].0).1);
    }
}

proof fn lemma_without_keeps(st: State, conn: u64, req: Option<u64>)
    requires
        wf(st),
    ensures
        wf(State { asks: asks_without(st.asks, leaves(conn, req)), ..st }),
{
    let new = asks_without(st.asks, leaves(conn, req));
    assert forall|i: int, j: int| 0 <= i < j < new.len() implies (#[trigger] new[i]).0 != (
    #[trigger] new[j]).0 by {
        assert(st.asks[i].0 != st.asks[j].0);
    }
    assert(each(new, |k: u64, a: AskingView| 1 <= k <= st.next_id)) by {
        assert forall|i: int| 0 <= i < new.len() implies 1 <= (#[trigger] new[i]).0 <= st.next_id by {
            assert(st.asks[i].0 == new[i].0);
        }
    }
    lemma_once_same(st.asks, new);
}

proof fn lemma_tell_all_keeps(t: Turn, waiting: Seq<(u64, u64)>, granted: bool)
    ensures
        t.tell_all(waiting, granted).state == t.state,
    decreases waiting.len(),
{
    if waiting.len() > 0 {
        lemma_tell_all_keeps(t, waiting.drop_last(), granted);
    }
}

proof fn lemma_grant_keeps(
    t: Turn,
    uid: u32,
    device: Device,
    waiting: Seq<(u64, u64)>,
    who: Option<Seq<char>>,
)
    requires
        wf(t.state),
    ensures
        wf(t.grant(uid, device, waiting, who).state),
        allowed(t.grant(uid, device, waiting, who).state.devices, uid, device),
        forall|u: u32, d: Device|
            (u != uid || d != device) ==> #[trigger] allowed(
                t.grant(uid, device, waiting, who).state.devices,
                u,
                d,
            ) == allowed(t.state.devices, u, d),
{
    let st = t.state;
    let before = get(st.devices, uid as u64);
    let app = match before {
        Some(h) => h.app,
        None => super::state::app_named(st.conns, uid, who),
    };
    let had = match before {
        Some(h) => h.devices,
        None => Seq::empty(),
    };
    let held = if had.contains(device) {
        had
    } else {
        had.push(device)
    };
    let row = HeldView { app, devices: held };
    let devices = put(st.devices, uid as u64, row);
    let a = Turn { state: State { devices, ..st }, ..t };
    let b = a.act(Act::Write { uid, kinds: super::state::kinds(held) }).act(
        Act::Answered { uid, device },
    ).show();
    lemma_tell_all_keeps(b, waiting, true);
    put_keeps_unique(st.devices, uid as u64, row);
    lemma_each_put(st.devices, uid as u64, row, |k: u64, h: HeldView| k <= u32::MAX);
    put_then_get(st.devices, uid as u64, row);
    assert(held.contains(device)) by {
        if !had.contains(device) {
            assert(held[had.len() as int] == device);
        }
    }
    assert forall|u: u32, d: Device| (u != uid || d != device) implies #[trigger] allowed(
        devices,
        u,
        d,
    ) == allowed(st.devices, u, d) by {
        if u != uid {
            put_leaves_others(st.devices, uid as u64, row, u as u64);
        } else if !had.contains(device) {
            vstd::seq_lib::lemma_seq_contains_after_push(had, device, d);
        }
    }
}

proof fn lemma_ask_keeps(t: Turn, app: Seq<char>, uid: u32, device: Device, waiter: Option<(u64, u64)>)
    requires
        wf(t.state),
        t.state.next_id < u64::MAX,
    ensures
        wf(t.ask_device(app, uid, device, waiter).state),
        t.ask_device(app, uid, device, waiter).state.devices == t.state.devices,
{
    let st = t.state;
    if !allowed(st.devices, uid, device) {
        let i = asked_at(st.asks, uid, device);
        lemma_asked_at_none(st.asks, uid, device);
        if i < st.asks.len() {
            if let Some(w) = waiter {
                let new = st.asks.update(i, (st.asks[i].0, joined_by(st.asks[i].1, w)));
                assert forall|a: int, b: int| 0 <= a < b < new.len() implies (#[trigger] new[a]).0
                    != (#[trigger] new[b]).0 by {
                    assert(st.asks[a].0 != st.asks[b].0);
                }
                assert(each(new, |k: u64, a: AskingView| 1 <= k <= st.next_id)) by {
                    assert forall|j: int| 0 <= j < new.len() implies 1 <= (#[trigger] new[j]).0
                        <= st.next_id by {
                        assert(st.asks[j].0 == new[j].0);
                    }
                }
                lemma_once_same(st.asks, new);
            }
        } else {
            let waiting = match waiter {
                Some(w) => seq![w],
                None => Seq::empty(),
            };
            lemma_asks_put(st, t.id(), AskingView::Device { uid, device, waiting });
        }
    }
}

proof fn lemma_withdraw_keeps(t: Turn, ids: Seq<u64>)
    requires
        wf(t.state),
    ensures
        wf(t.withdraw(ids).state),
        t.withdraw(ids).state == (State { asks: t.withdraw(ids).state.asks, ..t.state }),
        forall|k: u64|
            get(t.withdraw(ids).state.asks, k) == if ids.contains(k) {
                None
            } else {
                #[trigger] get(t.state.asks, k)
            },
    decreases ids.len(),
{
    if ids.len() > 0 {
        let before = t.withdraw(ids.drop_last());
        lemma_withdraw_keeps(t, ids.drop_last());
        lemma_asks_del(before.state, ids.last());
        assert forall|k: u64|
            get(t.withdraw(ids).state.asks, k) == if ids.contains(k) {
                None
            } else {
                #[trigger] get(t.state.asks, k)
            } by {
            del_then_get(before.state.asks, ids.last(), k);
            assert(ids =~= ids.drop_last().push(ids.last()));
            vstd::seq_lib::lemma_seq_contains_after_push(ids.drop_last(), ids.last(), k);
        }
    }
}

proof fn lemma_device_asks(asks: Seq<(u64, AskingView)>, uid: u32, k: u64)
    requires
        unique(asks),
    ensures
        device_asks(asks, uid).contains(k) <==> match get(asks, k) {
            Some(a) => is_of(a, uid),
            None => false,
        },
    decreases asks.len(),
{
    lemma_at(asks, k);
    if asks.len() > 0 {
        let init = asks.drop_last();
        lemma_device_asks(init, uid, k);
        lemma_at(init, k);
        let before = device_asks(init, uid);
        vstd::seq_lib::lemma_seq_contains_after_push(before, asks.last().0, k);
        if has_key(init, k) {
            let i = at(init, k);
            assert(asks[i] == init[i]);
            assert(asks[i].0 != asks[asks.len() - 1].0);
            lemma_at_is(asks, k, i);
        } else {
            assert forall|j: int| 0 <= j < asks.len() - 1 implies (#[trigger] asks[j]).0 != k by {
                assert(init[j].0 != k);
            }
            if asks.last().0 == k {
                lemma_at_is(asks, k, asks.len() - 1);
            } else {
                lemma_at_is(asks, k, asks.len() as int);
            }
        }
    }
}

proof fn lemma_forget_keeps(t: Turn, uid: u32)
    requires
        wf(t.state),
    ensures
        wf(t.forget(uid).state),
        get(t.forget(uid).state.devices, uid as u64) is None,
        get(t.forget(uid).state.camera_remotes, uid as u64) is None,
        forall|k: u64| #[trigger]
            get(t.forget(uid).state.asks, k) == match get(t.state.asks, k) {
                Some(a) => if is_of(a, uid) {
                    None
                } else {
                    Some(a)
                },
                None => None,
            },
        forall|u: u64|
            u != uid ==> #[trigger] get(t.forget(uid).state.devices, u) == get(t.state.devices, u),
        forall|u: u64|
            u != uid ==> #[trigger] get(t.forget(uid).state.camera_remotes, u) == get(
                t.state.camera_remotes,
                u,
            ),
        t.forget(uid).state.conns == t.state.conns,
        t.forget(uid).state.sessions == t.state.sessions,
        t.forget(uid).state.consents == t.state.consents,
        t.forget(uid).state.casts == t.state.casts,
{
    lemma_devices_del(t.state, uid as u64);
    del_then_get(t.state.devices, uid as u64, uid as u64);
    let a = if has_key(t.state.devices, uid as u64) {
        (Turn { state: State { devices: del(t.state.devices, uid as u64), ..t.state }, ..t }).show()
    } else {
        t
    };
    let ids = device_asks(a.state.asks, uid);
    lemma_withdraw_keeps(a, ids);
    let b = a.withdraw(ids);
    lemma_cut_cameras_keeps(b, uid);
    del_then_get(b.state.camera_remotes, uid as u64, uid as u64);
    assert forall|u: u64| u != uid implies #[trigger] get(t.forget(uid).state.devices, u) == get(
        t.state.devices,
        u,
    ) by {
        del_then_get(t.state.devices, uid as u64, u);
    }
    assert forall|u: u64| u != uid implies #[trigger] get(t.forget(uid).state.camera_remotes, u)
        == get(t.state.camera_remotes, u) by {
        del_then_get(t.state.camera_remotes, uid as u64, u);
    }
    assert forall|k: u64| #[trigger]
        get(t.forget(uid).state.asks, k) == match get(t.state.asks, k) {
            Some(a) => if is_of(a, uid) {
                None
            } else {
                Some(a)
            },
            None => None,
        } by {
        lemma_device_asks(a.state.asks, uid, k);
        assert(get(b.state.asks, k) == if ids.contains(k) {
            None
        } else {
            get(a.state.asks, k)
        });
    }
}

/// A uid that is gone holds nothing, is asked about nothing and has no camera connection; what
/// others hold, are asked and have is as it was, and so are the casts and the consents.
pub proof fn forgetting_ends_all_and_only_its_own(st: State, uid: u32, k: u64, other: u32)
    requires
        wf(st),
    ensures
        ({
            let after = Turn::start(st).forget(uid).state;
            &&& get(after.devices, uid as u64) is None
            &&& get(after.camera_remotes, uid as u64) is None
            &&& get(after.asks, k) == match get(st.asks, k) {
                Some(a) => if is_of(a, uid) {
                    None
                } else {
                    Some(a)
                },
                None => None,
            }
            &&& other != uid ==> get(after.devices, other as u64) == get(st.devices, other as u64)
                && get(after.camera_remotes, other as u64) == get(
                st.camera_remotes,
                other as u64,
            )
            &&& after.sessions == st.sessions && after.casts == st.casts && after.consents
                == st.consents
        }),
{
    lemma_forget_keeps(Turn::start(st), uid);
}

proof fn lemma_revoke_keeps(t: Turn, uids: Seq<u64>)
    requires
        wf(t.state),
        forall|i: int| 0 <= i < uids.len() ==> (#[trigger] uids[i]) <= u32::MAX,
    ensures
        wf(t.revoke(uids).state),
        t.revoke(uids).state == (State {
            devices: t.revoke(uids).state.devices,
            camera_remotes: t.revoke(uids).state.camera_remotes,
            ..t.state
        }),
        forall|u: u64|
            get(t.revoke(uids).state.devices, u) == if uids.contains(u) {
                None
            } else {
                #[trigger] get(t.state.devices, u)
            },
        forall|u: u64|
            get(t.revoke(uids).state.camera_remotes, u) == if uids.contains(u) {
                None
            } else {
                #[trigger] get(t.state.camera_remotes, u)
            },
    decreases uids.len(),
{
    if uids.len() > 0 {
        let before = t.revoke(uids.drop_last());
        let last = uids.last();
        lemma_revoke_keeps(t, uids.drop_last());
        assert(last as u32 as u64 == last);
        lemma_devices_del(before.state, last);
        let a = (Turn {
            state: State { devices: del(before.state.devices, last), ..before.state },
            ..before
        }).act(Act::Write { uid: last as u32, kinds: Seq::empty() });
        lemma_cut_cameras_keeps(a, last as u32);
        assert(uids =~= uids.drop_last().push(last));
        assert forall|u: u64|
            get(t.revoke(uids).state.devices, u) == if uids.contains(u) {
                None
            } else {
                #[trigger] get(t.state.devices, u)
            } by {
            del_then_get(before.state.devices, last, u);
            vstd::seq_lib::lemma_seq_contains_after_push(uids.drop_last(), last, u);
        }
        assert forall|u: u64|
            get(t.revoke(uids).state.camera_remotes, u) == if uids.contains(u) {
                None
            } else {
                #[trigger] get(t.state.camera_remotes, u)
            } by {
            del_then_get(before.state.camera_remotes, last, u);
            vstd::seq_lib::lemma_seq_contains_after_push(uids.drop_last(), last, u);
        }
    }
}

/// The kill switch revokes every device of everyone, and cuts the camera connections of all
/// who held one.
pub proof fn the_kill_switch_revokes_everything(st: State, uid: u32, device: Device)
    requires
        wf(st),
    ensures
        !allowed(on_compositor(st, FromCompositor::Revoke).state.devices, uid, device),
        get(st.devices, uid as u64) is Some ==> get(
            on_compositor(st, FromCompositor::Revoke).state.camera_remotes,
            uid as u64,
        ) is None,
        holders(on_compositor(st, FromCompositor::Revoke).state.devices, device).len() == 0,
{
    let uids = st.devices.map_values(|row: (u64, HeldView)| row.0);
    assert forall|i: int| 0 <= i < uids.len() implies (#[trigger] uids[i]) <= u32::MAX by {
        assert(st.devices[i].0 <= u32::MAX);
    }
    lemma_revoke_keeps(Turn::start(st), uids);
    let after = on_compositor(st, FromCompositor::Revoke).state.devices;
    assert forall|u: u64| get(after, u) is None by {
        lemma_at(st.devices, u);
        if has_key(st.devices, u) {
            assert(uids[at(st.devices, u)] == u);
            assert(uids.contains(u));
        }
        assert(get(after, u) == if uids.contains(u) {
            None
        } else {
            get(st.devices, u)
        });
    }
    assert(get(after, uid as u64) is None);
    if after.len() > 0 {
        lemma_has(after, 0);
        assert(get(after, after[0].0) is None);
    }
    if get(st.devices, uid as u64) is Some {
        lemma_at(st.devices, uid as u64);
        assert(uids[at(st.devices, uid as u64)] == uid as u64);
        assert(uids.contains(uid as u64));
        assert(get(st.camera_remotes, uid as u64) == get(st.camera_remotes, uid as u64));
    }
}

proof fn lemma_repick_keeps(t: Turn, asks: Seq<(u64, AskingView)>)
    ensures
        t.repick(asks).state == t.state,
    decreases asks.len(),
{
    if asks.len() > 0 {
        lemma_repick_keeps(t, asks.drop_last());
    }
}

proof fn lemma_start_keeps(t: Turn, conn: u64, session: u64, source: Source<Seq<char>>)
    requires
        wf(t.state),
        t.state.next_id < u64::MAX,
    ensures
        wf(t.start_cast(conn, session, source).state),
{
    let st = t.state;
    let key = (conn, session);
    match (get(st.conns, conn), get(st.sessions, key)) {
        (Some(c), Some(s)) => {
            if !super::state::has_source(st, source) {
                lemma_sessions_del(st, key);
            } else {
                let token = "drv"@ + decimal((st.next_token + 1) as nat);
                let cast = t.id();
                let a = State {
                    sessions: put(
                        st.sessions,
                        key,
                        SessionView { ask: None, cast: Some(cast), ..s },
                    ),
                    ..st
                };
                lemma_sessions_put(
                    st,
                    key,
                    SessionView { ask: None, cast: Some(cast), ..s },
                );
                let live = super::state::LiveView {
                    conn,
                    session,
                    app: c.app,
                    uid: c.uid,
                    source,
                    token,
                };
                lemma_casts_put(a, cast, live);
                let k = ConsentView { app: c.app, uid: c.uid, source };
                put_keeps_unique(st.consents, token, k);
                let n = (st.next_token + 1) as nat;
                let p = |k: Seq<char>, c: ConsentView| is_token(k, n);
                assert(each(st.consents, p)) by {
                    assert forall|i: int| 0 <= i < st.consents.len() implies is_token(
                        (#[trigger] st.consents[i]).0,
                        n,
                    ) by {
                        assert(is_token(st.consents[i].0, st.next_token));
                    }
                }
                assert(is_token(token, n));
                lemma_each_put(st.consents, token, k, p);
            }
        },
        _ => {},
    }
}

/// An app that connects leaves everything in order.
pub proof fn connecting_keeps_order(st: State, conn: u64, app: ConnView)
    requires
        wf(st),
    ensures
        wf(State { conns: put(st.conns, conn, app), ..st }),
{
    put_keeps_unique(st.conns, conn, app);
    let new = put(st.conns, conn, app);
    assert(each(st.sessions, |k: (u64, u64), s: SessionView| has_key(new, k.0))) by {
        assert forall|i: int| 0 <= i < st.sessions.len() implies has_key(
            new,
            ((#[trigger] st.sessions[i]).0).0,
        ) by {
            let k = (st.sessions[i].0).0;
            if k == conn {
                put_then_get(st.conns, conn, app);
            } else {
                put_leaves_others(st.conns, conn, app, k);
            }
            assert(has_key(st.conns, k));
            assert(get(new, k) is Some);
        }
    }
}

/// What an app asks leaves everything in order.
pub proof fn asking_keeps_order(st: State, conn: u64, msg: ToCast, standing: bool, cameras: bool)
    requires
        wf(st),
        st.next_id < u64::MAX,
    ensures
        wf(on_app(st, conn, msg, standing, cameras).state),
{
    let t = Turn::start(st);
    if let Some(c) = get(st.conns, conn) {
        match msg {
            ToCast::Cast { req, session, cursor, screens, windows, again } => {
                let key = (conn, session);
                if !has_key(st.sessions, key) {
                    let id = t.id();
                    let s = SessionView {
                        req,
                        cursor,
                        ask: None,
                        cast: None,
                        node: None,
                        remotes: Seq::empty(),
                    };
                    match standing_source(st, view_opt(again), c) {
                        Some(source) => {
                            let row = SessionView { cast: Some(id), ..s };
                            lemma_sessions_put(st, key, row);
                            let live = super::state::LiveView {
                                conn,
                                session,
                                app: c.app,
                                uid: c.uid,
                                source,
                                token: again->0@,
                            };
                            lemma_casts_put(
                                State { sessions: put(st.sessions, key, row), ..st },
                                id,
                                live,
                            );
                        },
                        None => {
                            let row = SessionView { ask: Some(id), ..s };
                            lemma_sessions_put(st, key, row);
                            lemma_asks_put(
                                State { sessions: put(st.sessions, key, row), ..st },
                                id,
                                AskingView::Pick { conn, session, screens, windows },
                            );
                        },
                    }
                }
            },
            ToCast::CastClose { session } => {
                lemma_close_keeps(t, conn, session, false);
            },
            ToCast::Camera { req } => {
                lemma_grant_keeps(t, c.uid, Device::Camera, seq![(conn, req)], None);
                lemma_ask_keeps(t, c.app, c.uid, Device::Camera, Some((conn, req)));
            },
            ToCast::Cancel { req } => {
                match super::state::waiting_session(st.sessions, conn, req) {
                    Some(session) => {
                        lemma_close_keeps(t, conn, session, false);
                    },
                    None => {
                        lemma_without_keeps(st, conn, Some(req));
                    },
                }
            },
            _ => {},
        }
    }
}

/// An app that goes leaves everything in order.
pub proof fn going_keeps_order(st: State, conn: u64)
    requires
        wf(st),
    ensures
        wf(on_gone(st, conn).state),
{
    if let Some(c) = get(st.conns, conn) {
        let ids = sessions_of(st.sessions, conn);
        lemma_close_all_keeps(Turn::start(st), conn, ids);
        let a = Turn::start(st).close_all(conn, ids);
        lemma_without_keeps(a.state, conn, None);
        let w = State { asks: asks_without(a.state.asks, leaves(conn, None)), ..a.state };
        let new = del(w.conns, conn);
        del_then_get(w.conns, conn, conn);
        assert(each(w.sessions, |k: (u64, u64), s: SessionView| has_key(new, k.0))) by {
            assert forall|i: int| 0 <= i < w.sessions.len() implies has_key(
                new,
                ((#[trigger] w.sessions[i]).0).0,
            ) by {
                let key = w.sessions[i].0;
                lemma_has(w.sessions, i);
                assert(has_key(a.state.sessions, key));
                if key.0 == conn {
                    lemma_at(st.sessions, key);
                    lemma_sessions_of(st.sessions, conn, at(st.sessions, key));
                    assert(ids.contains(key.1));
                }
                del_then_get(w.conns, conn, key.0);
                assert(has_key(w.conns, key.0));
                assert(get(new, key.0) is Some);
            }
        }
        let b = State { conns: new, ..w };
        assert(wf(b));
        if !connected(b.conns, c.uid) {
            let keep = |row: (Seq<char>, ConsentView)| row.1.uid != c.uid;
            lemma_kept_unique(b.consents, keep);
            let left = kept(b.consents, keep);
            assert(each(left, |k: Seq<char>, x: ConsentView| is_token(k, b.next_token))) by {
                assert forall|i: int| 0 <= i < left.len() implies is_token(
                    (#[trigger] left[i]).0,
                    b.next_token,
                ) by {
                    lemma_kept_contains(b.consents, keep, left[i]);
                    assert(left.contains(left[i]));
                    let j = choose|j: int| 0 <= j < b.consents.len() && b.consents[j] == left[i];
                    assert(is_token(b.consents[j].0, b.next_token));
                }
            }
            let d = Turn { state: State { consents: left, ..b }, acts: a.acts };
            lemma_forget_keeps(d, c.uid);
        }
    }
}

proof fn lemma_kept_unique<K, V>(rows: Seq<(K, V)>, keep: spec_fn((K, V)) -> bool)
    requires
        unique(rows),
    ensures
        unique(kept(rows, keep)),
    decreases rows.len(),
{
    if rows.len() > 0 {
        let init = rows.drop_last();
        assert forall|i: int, j: int| 0 <= i < j < init.len() implies (#[trigger] init[i]).0 != (
        #[trigger] init[j]).0 by {
            assert(rows[i].0 != rows[j].0);
        }
        lemma_kept_unique(init, keep);
        let before = kept(init, keep);
        let new = kept(rows, keep);
        assert forall|i: int, j: int| 0 <= i < j < new.len() implies (#[trigger] new[i]).0 != (
        #[trigger] new[j]).0 by {
            if j == before.len() {
                assert(before.contains(before[i]));
                lemma_kept_contains(init, keep, before[i]);
                let k = choose|k: int| 0 <= k < init.len() && init[k] == before[i];
                assert(rows[k].0 != rows[rows.len() - 1].0);
            } else {
                assert(before[i].0 != before[j].0);
            }
        }
    }
}

/// Once the last connection of a uid is gone, nothing of it is left: no device, no question,
/// no camera connection, no token that starts a cast, no session on the connection.
pub proof fn the_gone_leave_nothing(st: State, conn: u64, i: int, session: u64)
    requires
        wf(st),
        get(st.conns, conn) is Some,
        !connected(del(st.conns, conn), get(st.conns, conn)->0.uid),
        0 <= i < on_gone(st, conn).state.consents.len(),
    ensures
        ({
            let uid = get(st.conns, conn)->0.uid;
            let after = on_gone(st, conn).state;
            &&& get(after.devices, uid as u64) is None
            &&& get(after.camera_remotes, uid as u64) is None
            &&& after.consents[i].1.uid != uid
            &&& !has_key(after.sessions, (conn, session))
            &&& !has_key(after.conns, conn)
        }),
{
    let c = get(st.conns, conn)->0;
    let ids = sessions_of(st.sessions, conn);
    lemma_close_all_keeps(Turn::start(st), conn, ids);
    let a = Turn::start(st).close_all(conn, ids);
    going_keeps_order(st, conn);
    del_then_get(a.state.conns, conn, conn);
    let keep = |row: (Seq<char>, ConsentView)| row.1.uid != c.uid;
    let left = kept(a.state.consents, keep);
    let w = State {
        conns: del(a.state.conns, conn),
        asks: asks_without(a.state.asks, leaves(conn, None)),
        ..a.state
    };
    let d = Turn { state: State { consents: left, ..w }, acts: a.acts };
    lemma_kept_unique(a.state.consents, keep);
    lemma_without_keeps(a.state, conn, None);
    let f = d.forget(c.uid).state;
    assert(on_gone(st, conn).state == f);
    lemma_forgets(d, c.uid);
    lemma_kept_contains(a.state.consents, keep, left[i]);
    assert(left.contains(left[i]));
    if has_key(a.state.sessions, (conn, session)) {
        assert(has_key(st.sessions, (conn, session)));
        lemma_at(st.sessions, (conn, session));
        lemma_sessions_of(st.sessions, conn, at(st.sessions, (conn, session)));
    }
}

proof fn lemma_withdraw_only_asks(t: Turn, ids: Seq<u64>)
    ensures
        t.withdraw(ids).state == (State { asks: t.withdraw(ids).state.asks, ..t.state }),
    decreases ids.len(),
{
    if ids.len() > 0 {
        lemma_withdraw_only_asks(t, ids.drop_last());
    }
}

proof fn lemma_forgets(t: Turn, uid: u32)
    requires
        unique(t.state.devices),
        unique(t.state.camera_remotes),
    ensures
        get(t.forget(uid).state.devices, uid as u64) is None,
        get(t.forget(uid).state.camera_remotes, uid as u64) is None,
        t.forget(uid).state.consents == t.state.consents,
        t.forget(uid).state.sessions == t.state.sessions,
        t.forget(uid).state.conns == t.state.conns,
{
    del_then_get(t.state.devices, uid as u64, uid as u64);
    del_then_get(t.state.camera_remotes, uid as u64, uid as u64);
    let a = if has_key(t.state.devices, uid as u64) {
        (Turn { state: State { devices: del(t.state.devices, uid as u64), ..t.state }, ..t }).show()
    } else {
        t
    };
    lemma_withdraw_only_asks(a, device_asks(a.state.asks, uid));
}

/// What the compositor says leaves everything in order.
pub proof fn the_compositor_keeps_order(st: State, msg: FromCompositor)
    requires
        wf(st),
    ensures
        wf(on_compositor(st, msg).state),
{
    let t = Turn::start(st);
    match msg {
        FromCompositor::Outputs(outputs) => {
            lemma_repick_keeps(
                Turn { state: State { outputs: outputs@, ..st }, ..t },
                st.asks,
            );
        },
        FromCompositor::Windows(windows) => {
            lemma_repick_keeps(
                Turn { state: State { windows: windows@, ..st }, ..t },
                st.asks,
            );
        },
        FromCompositor::Started { cast, node_id, .. } => {
            if let Some(live) = get(st.casts, cast) {
                let key = (live.conn, live.session);
                if has_key(st.conns, live.conn) {
                    if let Some(s) = get(st.sessions, key) {
                        lemma_sessions_put(st, key, SessionView { node: Some(node_id), ..s });
                    }
                }
            }
        },
        FromCompositor::Stopped { cast } => {
            if let Some(live) = get(st.casts, cast) {
                lemma_casts_del(st, cast);
                lemma_close_keeps(
                    Turn { state: State { casts: del(st.casts, cast), ..st }, ..t },
                    live.conn,
                    live.session,
                    true,
                );
            }
        },
        FromCompositor::Revoke => {
            let uids = st.devices.map_values(|row: (u64, HeldView)| row.0);
            assert forall|i: int| 0 <= i < uids.len() implies (#[trigger] uids[i]) <= u32::MAX by {
                assert(st.devices[i].0 <= u32::MAX);
            }
            lemma_revoke_keeps(t, uids);
        },
        _ => {},
    }
}

/// What the shell answers leaves everything in order.
pub proof fn answering_keeps_order(st: State, resp: Response<Seq<char>>, who: Option<Seq<char>>)
    requires
        wf(st),
        st.next_id < u64::MAX,
    ensures
        wf(on_shell(st, resp, who).state),
{
    let t = Turn::start(st);
    if let Some(id) = crate::shell::ask::answered(resp) {
        if let Some(asking) = get(st.asks, id) {
            lemma_asks_del(st, id);
            let a = Turn { state: State { asks: del(st.asks, id), ..st }, ..t };
            match asking {
                Asking::Pick { conn, session, .. } => {
                    lemma_sessions_del(a.state, (conn, session));
                    if let Response::Picked { key, .. } = resp {
                        if let Some(source) = source_of(key) {
                            lemma_start_keeps(a, conn, session, source);
                        }
                    }
                },
                Asking::Device { uid, device, waiting } => {
                    lemma_grant_keeps(a, uid, device, waiting, who);
                    lemma_tell_all_keeps(a.act(Act::Answered { uid, device }), waiting, false);
                },
            }
        }
    }
}

/// What PipeWire asks, and how a connection went, leave everything in order.
pub proof fn pipewire_keeps_order(
    st: State,
    uid: u32,
    device: Device,
    who: Option<(Seq<char>, bool)>,
    conn: u64,
    req: u64,
    what: RemoteFor,
    made: Result<u32, Seq<char>>,
)
    requires
        wf(st),
        st.next_id < u64::MAX,
    ensures
        wf(on_pw_asked(st, uid, device, who).state),
        wf(on_remote(st, conn, req, what, made).state),
        wf(Turn::start(st).forget(uid).state),
{
    let t = Turn::start(st);
    if let Some((name, camera)) = who {
        lemma_grant_keeps(t, uid, device, Seq::empty(), Some(name));
        lemma_ask_keeps(t, name, uid, device, None);
    }
    lemma_forget_keeps(t, uid);
    if let Ok(client) = made {
        if let Some(c) = get(st.conns, conn) {
            match what {
                RemoteFor::Session { session, .. } => {
                    if let Some(s) = get(st.sessions, (conn, session)) {
                        lemma_sessions_put(
                            st,
                            (conn, session),
                            SessionView { remotes: s.remotes.push(client), ..s },
                        );
                    }
                },
                RemoteFor::Camera => {
                    let had = match get(st.camera_remotes, c.uid as u64) {
                        Some(clients) => clients,
                        None => Seq::empty(),
                    };
                    put_keeps_unique(st.camera_remotes, c.uid as u64, had.push(client));
                    lemma_each_put(
                        st.camera_remotes,
                        c.uid as u64,
                        had.push(client),
                        |k: u64, c: Seq<u32>| k <= u32::MAX,
                    );
                },
            }
        }
    }
}

/// A device is the person's to give: an app is allowed one it was not by their yes to the
/// question for that device of that uid, and by nothing else the shell says.
pub proof fn only_a_yes_allows(
    st: State,
    resp: Response<Seq<char>>,
    who: Option<Seq<char>>,
    uid: u32,
    device: Device,
)
    requires
        wf(st),
        st.next_id < u64::MAX,
        !allowed(st.devices, uid, device),
    ensures
        allowed(on_shell(st, resp, who).state.devices, uid, device) <==> (resp is Yes && match get(
            st.asks,
            resp->Yes_id,
        ) {
            Some(a) => is_asked(a, uid, device),
            None => false,
        }),
{
    let t = Turn::start(st);
    if let Some(id) = crate::shell::ask::answered(resp) {
        if let Some(asking) = get(st.asks, id) {
            lemma_asks_del(st, id);
            let a = Turn { state: State { asks: del(st.asks, id), ..st }, ..t };
            match asking {
                Asking::Device { uid: u, device: d, waiting } => {
                    lemma_grant_keeps(a, u, d, waiting, who);
                    lemma_tell_all_keeps(
                        a.act(Act::Answered { uid: u, device: d }),
                        waiting,
                        false,
                    );
                },
                _ => {},
            }
        }
    }
}

/// Nothing an app says allows it a device but a standing camera of its manifest.
pub proof fn apps_do_not_help_themselves(
    st: State,
    conn: u64,
    msg: ToCast,
    standing: bool,
    cameras: bool,
    uid: u32,
    device: Device,
)
    requires
        wf(st),
        st.next_id < u64::MAX,
        !allowed(st.devices, uid, device),
        allowed(on_app(st, conn, msg, standing, cameras).state.devices, uid, device),
    ensures
        standing,
        device == Device::Camera,
        msg is Camera,
        get(st.conns, conn) is Some,
        get(st.conns, conn)->0.uid == uid,
{
    let t = Turn::start(st);
    if let Some(c) = get(st.conns, conn) {
        match msg {
            ToCast::Camera { req } => {
                lemma_grant_keeps(t, c.uid, Device::Camera, seq![(conn, req)], None);
                lemma_ask_keeps(t, c.app, c.uid, Device::Camera, Some((conn, req)));
            },
            _ => {},
        }
    }
}

/// Closing a session whose source was not picked yet undoes asking for it: the question comes
/// down, and all but the numbers given is as before.
pub proof fn closing_undoes_asking(st: State, conn: u64, msg: ToCast, standing: bool, cameras: bool)
    requires
        wf(st),
        st.next_id < u64::MAX,
        msg is Cast,
        get(st.conns, conn) is Some,
        !has_key(st.sessions, (conn, msg->Cast_session)),
        standing_source(st, view_opt(msg->again), get(st.conns, conn)->0) is None,
    ensures
        ({
            let asked = on_app(st, conn, msg, standing, cameras).state;
            let closed = on_app(
                asked,
                conn,
                ToCast::CastClose { session: msg->Cast_session },
                standing,
                cameras,
            );
            &&& closed.state == (State { next_id: st.next_id + 1, ..st })
            &&& closed.acts == seq![
                DoneView::Ask(
                    crate::shell::ask::AskedView::Cancel { id: (st.next_id + 1) as u64 },
                ),
            ]
        }),
{
    let key = (conn, msg->Cast_session);
    let id = (st.next_id + 1) as u64;
    let asked = on_app(st, conn, msg, standing, cameras).state;
    lemma_at(st.sessions, key);
    assert(!has_key(st.asks, id)) by {
        lemma_at(st.asks, id);
        if has_key(st.asks, id) {
            assert(st.asks[at(st.asks, id)].0 == id);
        }
    }
    lemma_at(st.asks, id);
    let s = asked.sessions.last().1;
    assert(asked.sessions == st.sessions.push((key, s)));
    lemma_last_at(st.sessions, key, s);
    let a = asked.asks.last().1;
    assert(asked.asks == st.asks.push((id, a)));
    lemma_last_at(st.asks, id, a);
    let closed = on_app(
        asked,
        conn,
        ToCast::CastClose { session: msg->Cast_session },
        standing,
        cameras,
    );
    assert(s.ask == Some(id) && s.cast is None && s.remotes.len() == 0);
    assert(closed.acts =~= seq![
        DoneView::Ask(crate::shell::ask::AskedView::Cancel { id }),
    ]);
}

/// A row added under a new key is the one that is taken away again.
proof fn lemma_last_at<K, V>(rows: Seq<(K, V)>, k: K, v: V)
    requires
        !has_key(rows, k),
    ensures
        at(rows.push((k, v)), k) == rows.len(),
        get(rows.push((k, v)), k) == Some(v),
        del(rows.push((k, v)), k) == rows,
{
    let new = rows.push((k, v));
    lemma_at(rows, k);
    assert forall|j: int| 0 <= j < rows.len() implies (#[trigger] new[j]).0 != k by {
        assert(rows[j].0 != k);
    }
    lemma_at_is(new, k, rows.len() as int);
    assert(new.remove(rows.len() as int) =~= rows);
}

} // verus!
