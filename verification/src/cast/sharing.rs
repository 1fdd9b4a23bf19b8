//! What asking, picking, streaming and closing come to: what the person is shown, what the
//! compositor is told, and what the app hears.
use vstd::prelude::*;

use super::compositor::{FromCompositor, Output, ToCompositor, Window};
use super::state::{
    allowed, app_named, asked_at, choices, has_source, holders, is_asked, is_on, kinds, leaves,
    name_of, on_app, on_compositor, on_gone, on_pw_asked, on_remote, on_shell, pick_request,
    screen_choice, screen_choices, sessions_of, source_of, waiting_session, window_choice, Act,
    Asking, AskingView, ConnView, ConsentView, DoneView, HeldView, LiveView, RemoteFor, SessionView,
    State, Turn,
};
use super::wire::{Cursor, FromCast, Source, ToCast};
use crate::assoc::{del, get, has_key, put, put_leaves_others, put_then_get};
use crate::pw::Device;
use crate::shell::ask::{Choice, Request, Response};
use crate::text::{decimal, decimal_int, joined, quoted, unsigned};
use crate::views::lemma_kept_contains;

verus! {

/// An output that is on, as something to pick.
pub open spec fn shows_output(c: Choice<Seq<char>>, o: Output) -> bool {
    &&& o.width != 0 && o.height != 0
    &&& c.key == "screen:"@ + o.name@
    &&& c.name == o.name@
    &&& c.detail == o.make@ + " "@ + o.model@ + "  "@ + decimal_int(o.width as int) + "x"@
        + decimal_int(o.height as int)
}

/// A window as something to pick.
pub open spec fn shows_window(c: Choice<Seq<char>>, w: Window) -> bool {
    &&& c.key == "window:"@ + decimal(w.id as nat)
    &&& c.name == w.app@
    &&& c.detail == w.title@
}

/// Something to pick stands for one of the outputs.
pub open spec fn is_an_output(c: Choice<Seq<char>>, outputs: Seq<Output>) -> bool {
    exists|i: int| 0 <= i < outputs.len() && shows_output(c, #[trigger] outputs[i])
}

/// Something to pick stands for one of the windows.
pub open spec fn is_a_window(c: Choice<Seq<char>>, windows: Seq<Window>) -> bool {
    exists|i: int| 0 <= i < windows.len() && shows_window(c, #[trigger] windows[i])
}

/// A window is among the things to pick.
pub open spec fn lists_window(list: Seq<Choice<Seq<char>>>, w: Window) -> bool {
    exists|k: int| 0 <= k < list.len() && shows_window(#[trigger] list[k], w)
}

/// What there is to pick from: where screens are asked for, every output that is on, whether or
/// not windows are asked for too; where windows are, every window, whether or not screens are;
/// and nothing else.
pub open spec fn lists_what_there_is(
    list: Seq<Choice<Seq<char>>>,
    outputs: Seq<Output>,
    windows: Seq<Window>,
    screens: bool,
    also_windows: bool,
) -> bool {
    &&& screens ==> forall|i: int|
        0 <= i < outputs.len() && (#[trigger] outputs[i]).width != 0 && outputs[i].height != 0
            ==> exists|k: int|
            0 <= k < list.len() && shows_output(#[trigger] list[k], outputs[i])
    &&& also_windows ==> forall|i: int|
        0 <= i < windows.len() ==> lists_window(list, #[trigger] windows[i])
    &&& forall|k: int|
        0 <= k < list.len() ==> (screens && is_an_output(#[trigger] list[k], outputs)) || (
        also_windows && is_a_window(list[k], windows))
}

proof fn lemma_screens(outputs: Seq<Output>)
    ensures
        forall|i: int|
            0 <= i < outputs.len() && (#[trigger] outputs[i]).width != 0 && outputs[i].height != 0
                ==> exists|k: int|
                0 <= k < screen_choices(outputs).len() && shows_output(
                    #[trigger] screen_choices(outputs)[k],
                    outputs[i],
                ),
        forall|k: int|
            0 <= k < screen_choices(outputs).len() ==> is_an_output(
                #[trigger] screen_choices(outputs)[k],
                outputs,
            ),
        screen_choices(outputs).len() <= outputs.len(),
    decreases outputs.len(),
{
    if outputs.len() > 0 {
        let front = outputs.drop_last();
        let before = screen_choices(front);
        let now = screen_choices(outputs);
        lemma_screens(front);
        let n = outputs.len() - 1;
        assert forall|i: int|
            0 <= i < outputs.len() && (#[trigger] outputs[i]).width != 0 && outputs[i].height
                != 0 implies exists|k: int|
            0 <= k < now.len() && shows_output(#[trigger] now[k], outputs[i]) by {
            if i < n {
                assert(front[i] == outputs[i]);
                let k = choose|k: int|
                    0 <= k < before.len() && shows_output(#[trigger] before[k], front[i]);
                assert(now[k] == before[k]);
            } else {
                assert(now[before.len() as int] == screen_choice(outputs[i]));
                assert(shows_output(now[before.len() as int], outputs[i]));
            }
        }
        assert forall|k: int| 0 <= k < now.len() implies is_an_output(#[trigger] now[k], outputs) by {
            if k < before.len() {
                assert(now[k] == before[k]);
                assert(is_an_output(before[k], front));
                let i = choose|i: int|
                    0 <= i < front.len() && shows_output(before[k], #[trigger] front[i]);
                assert(front[i] == outputs[i]);
            } else {
                assert(shows_output(now[k], outputs[n]));
            }
        }
    }
}

proof fn lemma_choices(st: State, screens: bool, windows: bool)
    ensures
        lists_what_there_is(
            choices(st, screens, windows),
            st.outputs,
            st.windows,
            screens,
            windows,
        ),
{
    let list = choices(st, screens, windows);
    lemma_screens(st.outputs);
    let some = screen_choices(st.outputs);
    let n: int = if screens { some.len() as int } else { 0 };
    if screens {
        assert forall|i: int|
            0 <= i < st.outputs.len() && (#[trigger] st.outputs[i]).width != 0
                && st.outputs[i].height != 0 implies exists|k: int|
            0 <= k < list.len() && shows_output(#[trigger] list[k], st.outputs[i]) by {
            let k = choose|k: int|
                0 <= k < some.len() && shows_output(#[trigger] some[k], st.outputs[i]);
            assert(list[k] == some[k]);
        }
    }
    if windows {
        assert forall|i: int| 0 <= i < st.windows.len() implies lists_window(
            list,
            #[trigger] st.windows[i],
        ) by {
            assert(list[n + i] == window_choice(st.windows[i]));
            assert(shows_window(list[n + i], st.windows[i]));
        }
    }
    assert forall|k: int| 0 <= k < list.len() implies (screens && is_an_output(
        #[trigger] list[k],
        st.outputs,
    )) || (windows && is_a_window(list[k], st.windows)) by {
        if k < n {
            assert(list[k] == some[k]);
        } else {
            assert(list[k] == window_choice(st.windows[k - n]));
            assert(shows_window(list[k], st.windows[k - n]));
        }
    }
}

/// The question a cast comes to: put in the app's name, under the number it waits for, with
/// what there is to pick from.
pub open spec fn asks_to_pick(
    act: DoneView,
    st: State,
    id: u64,
    c: ConnView,
    screens: bool,
    windows: bool,
) -> bool {
    &&& act is Ask
    &&& act->Ask_0 is Pick
    &&& act->Ask_0->Pick_id == id
    &&& act->Ask_0->Pick_app == c.app
    &&& act->Ask_0->Pick_uid == c.uid
    &&& act->Ask_0->Pick_what == "see your screen"@
    &&& act->Ask_0->Pick_note
        == "what it may see, until you stop it (Mod+Shift+Esc stops them all)"@
    &&& lists_what_there_is(
        act->Ask_0->choices,
        st.outputs,
        st.windows,
        screens,
        windows,
    )
}

/// An app that asks for a cast without a token has the person asked, under a new number, with
/// every output that is on where it takes screens and every window where it takes windows; the
/// compositor is asked for both lists anew; and the session waits for that answer.
pub proof fn a_cast_is_asked_about(
    st: State,
    conn: u64,
    c: ConnView,
    req: u64,
    session: u64,
    cursor: Cursor,
    screens: bool,
    windows: bool,
    standing: bool,
    cameras: bool,
    other: (u64, u64),
)
    requires
        get(st.conns, conn) == Some(c),
        !has_key(st.sessions, (conn, session)),
        st.next_id < u64::MAX,
    ensures
        ({
            let msg = ToCast::Cast { req, session, cursor, screens, windows, again: None };
            let r = on_app(st, conn, msg, standing, cameras);
            let id = (st.next_id + 1) as u64;
            &&& r.acts.len() == 3
            &&& r.acts[0] == DoneView::Tell(ToCompositor::Outputs)
            &&& r.acts[1] == DoneView::Tell(ToCompositor::Windows)
            &&& asks_to_pick(r.acts[2], st, id, c, screens, windows)
            &&& get(r.state.asks, id) == Some(
                AskingView::Pick { conn, session, screens, windows },
            )
            &&& get(r.state.sessions, (conn, session)) == Some(
                SessionView {
                    req,
                    cursor,
                    ask: Some(id),
                    cast: None,
                    node: None,
                    remotes: Seq::empty(),
                },
            )
            &&& other != (conn, session) ==> get(r.state.sessions, other) == get(
                st.sessions,
                other,
            )
            &&& r.state.casts == st.casts
            &&& r.state.consents == st.consents
            &&& r.state.devices == st.devices
            &&& r.state.next_id == st.next_id + 1
        }),
{
    let id = (st.next_id + 1) as u64;
    lemma_choices(st, screens, windows);
    put_then_get(st.asks, id, Asking::Pick { conn, session, screens, windows });
    let s = SessionView {
        req,
        cursor,
        ask: Some(id),
        cast: None,
        node: None,
        remotes: Seq::empty(),
    };
    put_then_get(st.sessions, (conn, session), s);
    if other != (conn, session) {
        put_leaves_others(st.sessions, (conn, session), s, other);
    }
}

/// A session that is there already is not asked about again: the request fails, and nothing
/// changes.
pub proof fn a_session_is_asked_about_once(
    st: State,
    conn: u64,
    msg: ToCast,
    standing: bool,
    cameras: bool,
)
    requires
        has_key(st.conns, conn),
        msg is Cast,
        has_key(st.sessions, (conn, msg->Cast_session)),
    ensures
        on_app(st, conn, msg, standing, cameras).state == st,
        on_app(st, conn, msg, standing, cameras).acts == seq![
            DoneView::Send {
                conn,
                msg: FromCast::Failed {
                    req: msg->Cast_req,
                    reason: "the session was started already"@,
                },
            },
        ],
{
}

/// A token that the app was given starts the same source again with nobody asked, where the
/// source is still there: an output that is on, or a window.
pub proof fn a_token_starts_without_asking(
    st: State,
    conn: u64,
    c: ConnView,
    req: u64,
    session: u64,
    cursor: Cursor,
    screens: bool,
    windows: bool,
    token: String,
    k: ConsentView,
    i: int,
)
    requires
        get(st.conns, conn) == Some(c),
        !has_key(st.sessions, (conn, session)),
        st.next_id < u64::MAX,
        get(st.consents, token@) == Some(k),
        k.app == c.app,
        k.uid == c.uid,
        match k.source {
            Source::Screen(name) => 0 <= i < st.outputs.len() && st.outputs[i].name@ == name
                && st.outputs[i].width != 0 && st.outputs[i].height != 0,
            Source::Window(id) => 0 <= i < st.windows.len() && st.windows[i].id == id,
        },
    ensures
        ({
            let msg = ToCast::Cast { req, session, cursor, screens, windows, again: Some(token) };
            let r = on_app(st, conn, msg, false, false);
            let cast = (st.next_id + 1) as u64;
            &&& r.acts == seq![
                DoneView::Tell(ToCompositor::Outputs),
                DoneView::Tell(ToCompositor::Windows),
                DoneView::Tell(ToCompositor::Start { cast, source: k.source, cursor }),
            ]
            &&& r.state.asks == st.asks
            &&& r.state.next_id == st.next_id + 1
            &&& get(r.state.casts, cast) == Some(
                LiveView {
                    conn,
                    session,
                    app: c.app,
                    uid: c.uid,
                    source: k.source,
                    token: token@,
                },
            )
            &&& get(r.state.sessions, (conn, session)) == Some(
                SessionView {
                    req,
                    cursor,
                    ask: None,
                    cast: Some(cast),
                    node: None,
                    remotes: Seq::empty(),
                },
            )
        }),
{
    let cast = (st.next_id + 1) as u64;
    match k.source {
        Source::Screen(name) => {
            assert(is_on(st.outputs[i]));
        },
        Source::Window(id) => {
            assert(st.windows[i].id == id);
        },
    }
    assert(has_source(st, k.source));
    put_then_get(
        st.casts,
        cast,
        LiveView { conn, session, app: c.app, uid: c.uid, source: k.source, token: token@ },
    );
    put_then_get(
        st.sessions,
        (conn, session),
        SessionView {
            req,
            cursor,
            ask: None,
            cast: Some(cast),
            node: None,
            remotes: Seq::empty(),
        },
    );
}

/// What the person picked is started, as the session wants the pointer, under a new number and
/// with a new token for the app; the question is answered. A source that has gone meanwhile
/// fails the request.
pub proof fn the_picked_is_started(
    st: State,
    id: u64,
    key: Seq<char>,
    source: Source<Seq<char>>,
    conn: u64,
    session: u64,
    screens: bool,
    windows: bool,
    c: ConnView,
    s: SessionView,
)
    requires
        get(st.asks, id) == Some(AskingView::Pick { conn, session, screens, windows }),
        get(st.conns, conn) == Some(c),
        get(st.sessions, (conn, session)) == Some(s),
        st.next_id < u64::MAX,
        key == match source {
            Source::Screen(name) => "screen:"@ + name,
            Source::Window(id) => "window:"@ + decimal(id as nat),
        },
    ensures
        ({
            let r = on_shell(st, Response::Picked { id, key }, None);
            let there = match source {
                Source::Screen(name) => exists|i: int|
                    0 <= i < st.outputs.len() && (#[trigger] st.outputs[i]).name@ == name
                        && st.outputs[i].width != 0 && st.outputs[i].height != 0,
                Source::Window(id) => exists|i: int|
                    0 <= i < st.windows.len() && (#[trigger] st.windows[i]).id == id,
            };
            let cast = (st.next_id + 1) as u64;
            let token = "drv"@ + decimal((st.next_token + 1) as nat);
            &&& r.state.asks == del(st.asks, id)
            &&& there ==> {
                &&& r.acts == seq![
                    DoneView::Tell(ToCompositor::Start { cast, source, cursor: s.cursor }),
                ]
                &&& get(r.state.casts, cast) == Some(
                    LiveView { conn, session, app: c.app, uid: c.uid, source, token },
                )
                &&& get(r.state.consents, token) == Some(
                    ConsentView { app: c.app, uid: c.uid, source },
                )
                &&& get(r.state.sessions, (conn, session)) == Some(
                    SessionView { ask: None, cast: Some(cast), ..s },
                )
                &&& r.state.next_token == st.next_token + 1
                &&& r.state.next_id == st.next_id + 1
            }
            &&& !there ==> {
                &&& r.acts == seq![
                    DoneView::Send {
                        conn,
                        msg: FromCast::Failed { req: s.req, reason: "that source is gone"@ },
                    },
                ]
                &&& r.state.sessions == del(st.sessions, (conn, session))
                &&& r.state.casts == st.casts
                &&& r.state.consents == st.consents
            }
        }),
{
    match source {
        Source::Screen(name) => {
            super::laws::keys_come_back(name, 0);
        },
        Source::Window(w) => {
            super::laws::keys_come_back(Seq::empty(), w);
        },
    }
    let cast = (st.next_id + 1) as u64;
    let token = "drv"@ + decimal((st.next_token + 1) as nat);
    put_then_get(
        st.casts,
        cast,
        LiveView { conn, session, app: c.app, uid: c.uid, source, token },
    );
    put_then_get(st.consents, token, ConsentView { app: c.app, uid: c.uid, source });
    put_then_get(
        st.sessions,
        (conn, session),
        SessionView { ask: None, cast: Some(cast), ..s },
    );
    if let Source::Screen(name) = source {
        assert(forall|i: int|
            0 <= i < st.outputs.len() ==> is_on(#[trigger] st.outputs[i]) == (st.outputs[i].width
                != 0 && st.outputs[i].height != 0));
    }
}

/// A question for a cast that is answered in any other way ends its session, and the app hears
/// that it was refused.
pub proof fn a_refused_pick_is_cancelled(
    st: State,
    resp: Response<Seq<char>>,
    id: u64,
    conn: u64,
    session: u64,
    screens: bool,
    windows: bool,
    s: SessionView,
)
    requires
        resp == (Response::<Seq<char>>::Cancelled { id }) || resp == (Response::<Seq<char>>::Yes {
            id,
        }),
        get(st.asks, id) == Some(AskingView::Pick { conn, session, screens, windows }),
        has_key(st.conns, conn),
        get(st.sessions, (conn, session)) == Some(s),
    ensures
        ({
            let r = on_shell(st, resp, None);
            &&& r.acts == seq![DoneView::Send { conn, msg: FromCast::Cancelled { req: s.req } }]
            &&& r.state.sessions == del(st.sessions, (conn, session))
            &&& r.state.asks == del(st.asks, id)
            &&& r.state.casts == st.casts
            &&& r.state.consents == st.consents
            &&& r.state.next_token == st.next_token
        }),
{
}

/// A cast that streams is told to the app that asked, with its node, its size, what it shows
/// and the token for it; and the session remembers the node. A cast that nobody waits for is
/// stopped.
pub proof fn a_stream_is_told_to_its_app(
    st: State,
    cast: u64,
    node_id: u32,
    width: i32,
    height: i32,
    live: LiveView,
    s: SessionView,
)
    ensures
        ({
            let r = on_compositor(st, FromCompositor::Started { cast, node_id, width, height });
            &&& get(st.casts, cast) == Some(live) && has_key(st.conns, live.conn) && get(
                st.sessions,
                (live.conn, live.session),
            ) == Some(s) ==> {
                &&& r.acts == seq![
                    DoneView::Send {
                        conn: live.conn,
                        msg: FromCast::Cast {
                            req: s.req,
                            node_id,
                            source: live.source,
                            width,
                            height,
                            token: live.token,
                        },
                    },
                ]
                &&& get(r.state.sessions, (live.conn, live.session)) == Some(
                    SessionView { node: Some(node_id), ..s },
                )
                &&& r.state.casts == st.casts
            }
            &&& get(st.casts, cast) is None ==> r.state == st && r.acts == seq![
                DoneView::Tell(ToCompositor::Stop { cast }),
            ]
        }),
{
    if get(st.casts, cast) == Some(live) {
        put_then_get(
            st.sessions,
            (live.conn, live.session),
            SessionView { node: Some(node_id), ..s },
        );
    }
}

/// Closing a session takes its question down, stops its cast and cuts each of its connections;
/// the app hears it only where the compositor ended it.
pub proof fn closing_ends_everything_of_a_session(
    t: Turn,
    conn: u64,
    session: u64,
    s: SessionView,
    tell: bool,
    i: int,
)
    requires
        has_key(t.state.conns, conn),
        get(t.state.sessions, (conn, session)) == Some(s),
    ensures
        ({
            let r = t.close(conn, session, tell);
            let told = r.acts.skip(t.acts.len() as int);
            &&& r.acts.take(t.acts.len() as int) == t.acts
            &&& r.state.sessions == del(t.state.sessions, (conn, session))
            &&& s.ask is Some ==> told.contains(DoneView::Ask(Request::Cancel { id: s.ask->0 }))
                && r.state.asks == del(t.state.asks, s.ask->0)
            &&& s.ask is None ==> r.state.asks == t.state.asks
            &&& s.cast is Some && has_key(t.state.casts, s.cast->0) ==> told.contains(
                DoneView::Tell(ToCompositor::Stop { cast: s.cast->0 }),
            ) && r.state.casts == del(t.state.casts, s.cast->0)
            &&& s.cast is None ==> r.state.casts == t.state.casts
            &&& 0 <= i < s.remotes.len() ==> told.contains(
                DoneView::Drop { client: s.remotes[i] },
            )
            &&& told.contains(DoneView::Send { conn, msg: FromCast::CastClosed { session } })
                <==> tell
            &&& r.state.conns == t.state.conns
            &&& r.state.consents == t.state.consents
            &&& r.state.devices == t.state.devices
        }),
{
    let r = t.close(conn, session, tell);
    let n = t.acts.len() as int;
    let told = r.acts.skip(n);
    let a: int = if s.ask is Some { 1 } else { 0 };
    let stops = s.cast is Some && has_key(t.state.casts, s.cast->0);
    let b: int = if stops { 1 } else { 0 };
    let drops = s.remotes.map_values(|client: u32| DoneView::Drop { client });
    assert(r.acts.take(n) =~= t.acts);
    if s.ask is Some {
        assert(told[0] == DoneView::Ask(Request::Cancel { id: s.ask->0 }));
    }
    if stops {
        assert(told[a] == DoneView::Tell(ToCompositor::Stop { cast: s.cast->0 }));
    }
    assert forall|j: int| 0 <= j < s.remotes.len() implies #[trigger] told[a + b + j]
        == (DoneView::Drop { client: s.remotes[j] }) by {
        assert(drops[j] == (DoneView::Drop { client: s.remotes[j] }));
    }
    let end = DoneView::Send { conn, msg: FromCast::CastClosed { session } };
    if 0 <= i < s.remotes.len() {
        assert(told[a + b + i] == (DoneView::Drop { client: s.remotes[i] }));
    }
    if tell {
        assert(told[a + b + s.remotes.len()] == end);
    } else if told.contains(end) {
        let k = choose|k: int| 0 <= k < told.len() && told[k] == end;
        if k >= a + b {
            assert(told[a + b + (k - a - b)] is Drop);
        }
    }
}

/// An app that closes a session has it closed and hears nothing more of it; a cast that the
/// compositor stopped is over, and its app is told.
pub proof fn either_side_may_close(
    st: State,
    conn: u64,
    session: u64,
    cast: u64,
    live: LiveView,
    standing: bool,
    cameras: bool,
)
    requires
        has_key(st.conns, conn),
    ensures
        on_app(st, conn, ToCast::CastClose { session }, standing, cameras) == Turn::start(
            st,
        ).close(conn, session, false),
        get(st.casts, cast) is None ==> on_compositor(st, FromCompositor::Stopped { cast })
            == Turn::start(st),
        get(st.casts, cast) == Some(live) ==> on_compositor(st, FromCompositor::Stopped { cast })
            == Turn::start(State { casts: del(st.casts, cast), ..st }).close(
            live.conn,
            live.session,
            true,
        ),
{
}

/// A connection that sees a session's node is made only where it streams, and is marked with
/// that node; one that sees the cameras only where the camera was allowed.
pub proof fn connections_see_what_was_allowed(
    st: State,
    conn: u64,
    c: ConnView,
    req: u64,
    session: u64,
    standing: bool,
    cameras: bool,
)
    requires
        get(st.conns, conn) == Some(c),
    ensures
        ({
            let r = on_app(st, conn, ToCast::CastRemote { req, session }, standing, cameras);
            let s = get(st.sessions, (conn, session));
            &&& r.state == st
            &&& s is Some && s->0.node is Some ==> r.acts == seq![
                DoneView::Remote {
                    conn,
                    req,
                    what: RemoteFor::Session { session, node: s->0.node->0 },
                    mark: "node:"@ + decimal(s->0.node->0 as nat),
                },
            ]
            &&& s is None || s->0.node is None ==> r.acts == seq![
                DoneView::Send {
                    conn,
                    msg: FromCast::Failed { req, reason: "the session is not streaming"@ },
                },
            ]
        }),
        ({
            let r = on_app(st, conn, ToCast::CameraRemote { req }, standing, cameras);
            let h = get(st.devices, c.uid as u64);
            let may = h is Some && h->0.devices.contains(Device::Camera);
            &&& r.state == st
            &&& may ==> r.acts == seq![
                DoneView::Remote { conn, req, what: RemoteFor::Camera, mark: "camera"@ },
            ]
            &&& !may ==> r.acts == seq![
                DoneView::Send {
                    conn,
                    msg: FromCast::Failed { req, reason: "the camera was not allowed"@ },
                },
            ]
        }),
        on_app(st, conn, ToCast::CameraPresent { req }, standing, cameras) == (Turn {
            state: st,
            acts: seq![DoneView::Send { conn, msg: FromCast::Present { req, present: cameras } }],
        }),
{
}

/// A connection that was made goes to the app and is remembered with its session, or with its
/// uid for the cameras; where the app or the session has gone it is dropped again, and what
/// could not be made is said.
pub proof fn connections_are_handed_over(
    st: State,
    conn: u64,
    c: ConnView,
    req: u64,
    session: u64,
    node: u32,
    s: SessionView,
    client: u32,
    e: Seq<char>,
)
    requires
        get(st.conns, conn) == Some(c),
        get(st.sessions, (conn, session)) == Some(s),
    ensures
        ({
            let r = on_remote(st, conn, req, RemoteFor::Session { session, node }, Ok(client));
            &&& r.acts == seq![DoneView::SendRemote { conn, req }]
            &&& get(r.state.sessions, (conn, session)) == Some(
                SessionView { remotes: s.remotes.push(client), ..s },
            )
        }),
        ({
            let r = on_remote(st, conn, req, RemoteFor::Camera, Ok(client));
            &&& r.acts == seq![DoneView::SendRemote { conn, req }]
            &&& get(r.state.camera_remotes, c.uid as u64) is Some
            &&& get(r.state.camera_remotes, c.uid as u64)->0.contains(client)
            &&& get(st.camera_remotes, c.uid as u64) is Some ==> get(
                r.state.camera_remotes,
                c.uid as u64,
            )->0 == get(st.camera_remotes, c.uid as u64)->0.push(client)
        }),
        on_remote(st, conn, req, RemoteFor::Camera, Err(e)) == (Turn {
            state: st,
            acts: seq![DoneView::Send { conn, msg: FromCast::Failed { req, reason: e } }],
        }),
        forall|gone: u64, what: RemoteFor|
            !has_key(st.conns, gone) ==> #[trigger] on_remote(st, gone, req, what, Ok(client)) == (
            Turn { state: st, acts: seq![DoneView::Drop { client }] }),
{
    put_then_get(
        st.sessions,
        (conn, session),
        SessionView { remotes: s.remotes.push(client), ..s },
    );
    let had = match get(st.camera_remotes, c.uid as u64) {
        Some(clients) => clients,
        None => Seq::empty(),
    };
    put_then_get(st.camera_remotes, c.uid as u64, had.push(client));
    assert(had.push(client)[had.len() as int] == client);
}

/// A device that was granted is held by its uid from then on, besides what it held; what it may
/// capture is written, PipeWire's question answered, the indicator brought up to date, and
/// everyone who waited is told, each under their own request.
pub proof fn a_grant_is_held_and_told(
    t: Turn,
    uid: u32,
    device: Device,
    waiting: Seq<(u64, u64)>,
    who: Option<Seq<char>>,
    other: Device,
    i: int,
)
    ensures
        ({
            let r = t.grant(uid, device, waiting, who);
            let n = t.acts.len() as int;
            let before = get(t.state.devices, uid as u64);
            let now = get(r.state.devices, uid as u64);
            &&& now is Some
            &&& now->0.devices.contains(device)
            &&& now->0.devices.contains(other) <==> other == device || (before is Some
                && before->0.devices.contains(other))
            &&& before is Some ==> now->0.app == before->0.app
            &&& r.acts.len() >= n + 3
            &&& r.acts.take(n) == t.acts
            &&& r.acts[n] == (DoneView::Write {
                uid,
                kinds: joined(
                    Seq::new(
                        now->0.devices.len(),
                        |k: int|
                            if now->0.devices[k] == Device::Camera {
                                "camera"@
                            } else {
                                "mic"@
                            },
                    ),
                    " "@,
                ),
            })
            &&& r.acts[n + 1] == (DoneView::Answered { uid, device })
            &&& r.acts[n + 2] is Tell
            &&& r.acts[n + 2]->Tell_0 is Devices
            &&& 0 <= i < waiting.len() && has_key(t.state.conns, waiting[i].0) ==> r.acts.contains(
                DoneView::Send {
                    conn: waiting[i].0,
                    msg: FromCast::Granted { req: waiting[i].1 },
                },
            )
            &&& r.state.asks == t.state.asks
            &&& r.state.sessions == t.state.sessions
        }),
{
    let before = get(t.state.devices, uid as u64);
    let had = match before {
        Some(h) => h.devices,
        None => Seq::empty(),
    };
    let held = if had.contains(device) { had } else { had.push(device) };
    let app = match before {
        Some(h) => h.app,
        None => app_named(t.state.conns, uid, who),
    };
    put_then_get(t.state.devices, uid as u64, HeldView { app, devices: held });
    vstd::seq_lib::lemma_seq_contains_after_push(had, device, device);
    vstd::seq_lib::lemma_seq_contains_after_push(had, device, other);
    assert(held.map_values(|d: Device| crate::pw::kind_of(d)) =~= Seq::new(
        held.len(),
        |k: int|
            if held[k] == Device::Camera {
                "camera"@
            } else {
                "mic"@
            },
    ));
    let devices = put(t.state.devices, uid as u64, HeldView { app, devices: held });
    let said = (Turn { state: State { devices, ..t.state }, ..t }).act(
        Act::Write { uid, kinds: kinds(held) },
    ).act(Act::Answered { uid, device }).show();
    lemma_tell_all(said, waiting, true, i);
    let r = t.grant(uid, device, waiting, who);
    assert(r.acts.take(t.acts.len() as int) =~= t.acts);
    assert forall|k: int| 0 <= k < said.acts.len() implies #[trigger] r.acts[k] == said.acts[k] by {
        assert(r.acts.take(said.acts.len() as int)[k] == said.acts[k]);
    }
    let n = t.acts.len() as int;
    assert(r.acts[n] == said.acts[n]);
    assert(r.acts[n + 1] == said.acts[n + 1]);
    assert(r.acts[n + 2] == said.acts[n + 2]);
    assert forall|k: int| 0 <= k < n implies r.acts[k] == t.acts[k] by {
        assert(r.acts[k] == said.acts[k]);
    }
}

proof fn lemma_tell_all(t: Turn, waiting: Seq<(u64, u64)>, granted: bool, i: int)
    ensures
        t.tell_all(waiting, granted).state == t.state,
        t.tell_all(waiting, granted).acts.len() >= t.acts.len(),
        t.tell_all(waiting, granted).acts.take(t.acts.len() as int) == t.acts,
        0 <= i < waiting.len() && has_key(t.state.conns, waiting[i].0) ==> t.tell_all(
            waiting,
            granted,
        ).acts.contains(
            DoneView::Send {
                conn: waiting[i].0,
                msg: if granted {
                    FromCast::Granted { req: waiting[i].1 }
                } else {
                    FromCast::Cancelled { req: waiting[i].1 }
                },
            },
        ),
    decreases waiting.len(),
{
    if waiting.len() == 0 {
        assert(t.acts.take(t.acts.len() as int) =~= t.acts);
    } else {
        let front = waiting.drop_last();
        lemma_tell_all(t, front, granted, i);
        let before = t.tell_all(front, granted).acts;
        let now = t.tell_all(waiting, granted).acts;
        assert(now.take(t.acts.len() as int) =~= before.take(t.acts.len() as int));
        if 0 <= i < waiting.len() && has_key(t.state.conns, waiting[i].0) {
            let said = DoneView::Send {
                conn: waiting[i].0,
                msg: if granted {
                    FromCast::Granted { req: waiting[i].1 }
                } else {
                    FromCast::Cancelled { req: waiting[i].1 }
                },
            };
            if i < front.len() {
                assert(front[i] == waiting[i]);
                let k = choose|k: int| 0 <= k < before.len() && before[k] == said;
                assert(now[k] == said);
            } else {
                assert(now[before.len() as int] == said);
            }
        }
    }
}

/// A device that is refused, in whatever way, is not held: PipeWire's question is answered, and
/// everyone who waited hears the refusal.
pub proof fn a_refusal_is_told(
    st: State,
    resp: Response<Seq<char>>,
    id: u64,
    uid: u32,
    device: Device,
    waiting: Seq<(u64, u64)>,
    who: Option<Seq<char>>,
    i: int,
)
    requires
        resp == (Response::<Seq<char>>::Cancelled { id }),
        get(st.asks, id) == Some(AskingView::Device { uid, device, waiting }),
    ensures
        ({
            let r = on_shell(st, resp, who);
            &&& r.state.devices == st.devices
            &&& r.state.asks == del(st.asks, id)
            &&& r.acts.len() > 0
            &&& r.acts[0] == (DoneView::Answered { uid, device })
            &&& 0 <= i < waiting.len() && has_key(st.conns, waiting[i].0) ==> r.acts.contains(
                DoneView::Send {
                    conn: waiting[i].0,
                    msg: FromCast::Cancelled { req: waiting[i].1 },
                },
            )
        }),
{
    let a = Turn::start(State { asks: del(st.asks, id), ..st }).act(
        Act::Answered { uid, device },
    );
    lemma_tell_all(a, waiting, false, i);
    let r = on_shell(st, resp, who);
    assert(r.acts.take(1)[0] == a.acts[0]);
}

/// A yes is a grant of what was asked for, to who was asked about.
pub proof fn a_yes_is_a_grant(
    st: State,
    id: u64,
    uid: u32,
    device: Device,
    waiting: Seq<(u64, u64)>,
    who: Option<Seq<char>>,
)
    requires
        get(st.asks, id) == Some(AskingView::Device { uid, device, waiting }),
    ensures
        on_shell(st, Response::Yes { id }, who) == Turn::start(
            State { asks: del(st.asks, id), ..st },
        ).grant(uid, device, waiting, who),
{
}

/// An answer to a question that is not up changes nothing.
pub proof fn only_questions_are_answered(st: State, id: u64, key: Seq<char>, who: Option<Seq<char>>)
    requires
        !has_key(st.asks, id),
    ensures
        on_shell(st, Response::Yes { id }, who) == Turn::start(st),
        on_shell(st, Response::Cancelled { id }, who) == Turn::start(st),
        on_shell(st, Response::Picked { id, key }, who) == Turn::start(st),
        on_shell(st, Response::Secret { id, secret: key }, who) == Turn::start(st),
{
}

/// The camera is asked for once: where it is held it is granted, where the manifest grants it
/// nobody is asked, where the question is up one more waits for its answer, and else the person
/// is asked, in the app's name, for that device.
pub proof fn the_camera_is_asked_for_once(
    st: State,
    conn: u64,
    c: ConnView,
    req: u64,
    standing: bool,
    cameras: bool,
)
    requires
        get(st.conns, conn) == Some(c),
        st.next_id < u64::MAX,
    ensures
        ({
            let r = on_app(st, conn, ToCast::Camera { req }, standing, cameras);
            let h = get(st.devices, c.uid as u64);
            let held = h is Some && h->0.devices.contains(Device::Camera);
            let up = exists|i: int|
                0 <= i < st.asks.len() && (#[trigger] st.asks[i]).1 is Device
                    && st.asks[i].1->Device_uid == c.uid && st.asks[i].1->device == Device::Camera;
            let id = (st.next_id + 1) as u64;
            &&& held ==> r.state == st && r.acts == seq![
                DoneView::Send { conn, msg: FromCast::Granted { req } },
            ]
            &&& !held && standing ==> r == Turn::start(st).grant(
                c.uid,
                Device::Camera,
                seq![(conn, req)],
                None,
            )
            &&& !held && !standing && up ==> r.acts.len() == 0 && r.state.next_id == st.next_id
                && exists|i: int|
                0 <= i < r.state.asks.len() && (#[trigger] r.state.asks[i]).1 is Device
                    && r.state.asks[i].1->Device_uid == c.uid && r.state.asks[i].1->device
                    == Device::Camera && r.state.asks[i].1->waiting.contains((conn, req))
            &&& !held && !standing && !up ==> {
                &&& r.acts == seq![
                    DoneView::Ask(
                        Request::Confirm {
                            id,
                            app: c.app,
                            uid: c.uid,
                            what: "use your camera"@,
                            note:
                                "until it exits or you revoke it (Mod+Shift+Esc revokes everything)"@,
                        },
                    ),
                ]
                &&& get(r.state.asks, id) == Some(
                    AskingView::Device {
                        uid: c.uid,
                        device: Device::Camera,
                        waiting: seq![(conn, req)],
                    },
                )
                &&& r.state.devices == st.devices
            }
        }),
{
    let r = on_app(st, conn, ToCast::Camera { req }, standing, cameras);
    let i = asked_at(st.asks, c.uid, Device::Camera);
    lemma_asked_at(st.asks, c.uid, Device::Camera);
    reveal_strlit("use your ");
    reveal_strlit("camera");
    reveal_strlit("use your camera");
    assert("use your "@ + "camera"@ =~= "use your camera"@);
    let id = (st.next_id + 1) as u64;
    put_then_get(
        st.asks,
        id,
        Asking::Device { uid: c.uid, device: Device::Camera, waiting: seq![(conn, req)] },
    );
    if i < st.asks.len() && !allowed(st.devices, c.uid, Device::Camera) && !standing {
        let waiting = st.asks[i].1->waiting;
        assert(waiting.push((conn, req))[waiting.len() as int] == (conn, req));
        assert(r.state.asks[i].1->waiting.contains((conn, req)));
        assert(is_asked(st.asks[i].1, c.uid, Device::Camera));
    }
}

proof fn lemma_asked_at(asks: Seq<(u64, AskingView)>, uid: u32, device: Device)
    ensures
        0 <= asked_at(asks, uid, device) <= asks.len(),
        asked_at(asks, uid, device) < asks.len() ==> is_asked(
            asks[asked_at(asks, uid, device)].1,
            uid,
            device,
        ),
        forall|j: int|
            0 <= j < asked_at(asks, uid, device) ==> !is_asked((#[trigger] asks[j]).1, uid, device),
    decreases asks.len(),
{
    if asks.len() > 0 && !is_asked(asks[0].1, uid, device) {
        let rest = asks.skip(1);
        lemma_asked_at(rest, uid, device);
        let n = asked_at(rest, uid, device);
        if n < rest.len() {
            assert(rest[n] == asks[n + 1]);
        }
        assert forall|j: int| 0 <= j < n + 1 implies !is_asked(
            (#[trigger] asks[j]).1,
            uid,
            device,
        ) by {
            if j > 0 {
                assert(rest[j - 1] == asks[j]);
            }
        }
    }
}

/// A stream that waits for a device at PipeWire: one that is no app's is answered at once with
/// nothing granted; an app with a standing camera is granted it; for anything else the person
/// is asked, by the device's name.
pub proof fn streams_wait_for_the_person(
    st: State,
    uid: u32,
    device: Device,
    name: Seq<char>,
    camera: bool,
)
    requires
        st.next_id < u64::MAX,
    ensures
        on_pw_asked(st, uid, device, None) == (Turn {
            state: st,
            acts: seq![DoneView::Answered { uid, device }],
        }),
        device == Device::Camera && camera ==> on_pw_asked(st, uid, device, Some((name, camera)))
            == Turn::start(st).grant(uid, device, Seq::empty(), Some(name)),
        !(device == Device::Camera && camera) ==> {
            let r = on_pw_asked(st, uid, device, Some((name, camera)));
            let h = get(st.devices, uid as u64);
            let held = h is Some && h->0.devices.contains(device);
            let up = exists|i: int|
                0 <= i < st.asks.len() && (#[trigger] st.asks[i]).1 is Device
                    && st.asks[i].1->Device_uid == uid && st.asks[i].1->device == device;
            &&& r.state.devices == st.devices
            &&& held ==> r.acts == seq![DoneView::Answered { uid, device }]
            &&& !held && up ==> r.acts.len() == 0 && r.state == st
            &&& !held && !up ==> r.acts == seq![
                DoneView::Ask(
                    Request::Confirm {
                        id: (st.next_id + 1) as u64,
                        app: name,
                        uid,
                        what: if device == Device::Camera {
                            "use your camera"@
                        } else {
                            "use your microphone"@
                        },
                        note: "until it exits or you revoke it (Mod+Shift+Esc revokes everything)"@,
                    },
                ),
            ]
        },
{
    lemma_asked_at(st.asks, uid, device);
    reveal_strlit("use your ");
    reveal_strlit("camera");
    reveal_strlit("microphone");
    reveal_strlit("use your camera");
    reveal_strlit("use your microphone");
    assert("use your "@ + "camera"@ =~= "use your camera"@);
    assert("use your "@ + "microphone"@ =~= "use your microphone"@);
    let i = asked_at(st.asks, uid, device);
    if i < st.asks.len() {
        assert(is_asked(st.asks[i].1, uid, device));
    }
}

/// New lists of outputs or windows are put to everyone who is asked to pick: each question that
/// is up is asked again under its number, with what there is now and for what its app takes.
pub proof fn new_lists_are_put_to_everyone(
    st: State,
    msg: FromCompositor,
    i: int,
    conn: u64,
    session: u64,
    screens: bool,
    windows: bool,
    c: ConnView,
)
    requires
        msg is Outputs || msg is Windows,
        0 <= i < st.asks.len(),
        st.asks[i].1 == (AskingView::Pick { conn, session, screens, windows }),
        get(st.conns, conn) == Some(c),
    ensures
        ({
            let r = on_compositor(st, msg);
            &&& msg is Outputs ==> r.state == (State { outputs: msg->Outputs_0@, ..st })
            &&& msg is Windows ==> r.state == (State { windows: msg->Windows_0@, ..st })
            &&& exists|k: int|
                0 <= k < r.acts.len() && asks_to_pick(
                    #[trigger] r.acts[k],
                    r.state,
                    st.asks[i].0,
                    c,
                    screens,
                    windows,
                )
        }),
{
    let t = Turn::start(
        match msg {
            FromCompositor::Outputs(outputs) => State { outputs: outputs@, ..st },
            FromCompositor::Windows(windows) => State { windows: windows@, ..st },
            _ => st,
        },
    );
    lemma_repick(t, st.asks, i, conn, session, screens, windows, c);
    let r = on_compositor(st, msg);
    assert(r == t.repick(st.asks));
    let k = choose|k: int|
        0 <= k < t.repick(st.asks).acts.len() && asks_to_pick(
            #[trigger] t.repick(st.asks).acts[k],
            t.state,
            st.asks[i].0,
            c,
            screens,
            windows,
        );
    assert(asks_to_pick(r.acts[k], r.state, st.asks[i].0, c, screens, windows));
}

proof fn lemma_repick(
    t: Turn,
    asks: Seq<(u64, AskingView)>,
    i: int,
    conn: u64,
    session: u64,
    screens: bool,
    windows: bool,
    c: ConnView,
)
    requires
        0 <= i < asks.len(),
        asks[i].1 == (AskingView::Pick { conn, session, screens, windows }),
        get(t.state.conns, conn) == Some(c),
    ensures
        t.repick(asks).state == t.state,
        exists|k: int|
            0 <= k < t.repick(asks).acts.len() && asks_to_pick(
                #[trigger] t.repick(asks).acts[k],
                t.state,
                asks[i].0,
                c,
                screens,
                windows,
            ),
    decreases asks.len(),
{
    let front = asks.drop_last();
    let before = t.repick(front).acts;
    let now = t.repick(asks).acts;
    lemma_repick_state(t, front);
    if i < front.len() {
        assert(front[i] == asks[i]);
        lemma_repick(t, front, i, conn, session, screens, windows, c);
        let k = choose|k: int|
            0 <= k < before.len() && asks_to_pick(
                #[trigger] before[k],
                t.state,
                asks[i].0,
                c,
                screens,
                windows,
            );
        assert(now[k] == before[k]);
    } else {
        lemma_choices(t.state, screens, windows);
        let k = before.len() as int;
        assert(now[k] == DoneView::Ask(
            pick_request(t.state, asks[i].0, c.app, c.uid, screens, windows),
        ));
        assert(asks_to_pick(now[k], t.state, asks[i].0, c, screens, windows));
    }
}

proof fn lemma_repick_state(t: Turn, asks: Seq<(u64, AskingView)>)
    ensures
        t.repick(asks).state == t.state,
    decreases asks.len(),
{
    if asks.len() > 0 {
        lemma_repick_state(t, asks.drop_last());
    }
}

/// A request that is withdrawn while the person is asked has its session closed; where it waits
/// for a device only that app's request leaves, and the question stays up.
pub proof fn a_withdrawn_request_leaves(
    st: State,
    conn: u64,
    req: u64,
    standing: bool,
    cameras: bool,
    i: int,
    w: (u64, u64),
)
    requires
        has_key(st.conns, conn),
        forall|k: int|
            0 <= k < st.sessions.len() ==> !(((#[trigger] st.sessions[k]).0).0 == conn
                && st.sessions[k].1.req == req && st.sessions[k].1.ask is Some),
        0 <= i < st.asks.len(),
    ensures
        ({
            let r = on_app(st, conn, ToCast::Cancel { req }, standing, cameras);
            &&& r.acts.len() == 0
            &&& r.state.sessions == st.sessions
            &&& r.state.asks.len() == st.asks.len()
            &&& r.state.asks[i].0 == st.asks[i].0
            &&& st.asks[i].1 is Pick ==> r.state.asks[i] == st.asks[i]
            &&& st.asks[i].1 is Device ==> {
                &&& r.state.asks[i].1 is Device
                &&& r.state.asks[i].1->Device_uid == st.asks[i].1->Device_uid
                &&& r.state.asks[i].1->device == st.asks[i].1->device
                &&& r.state.asks[i].1->waiting.contains(w) <==> st.asks[i].1->waiting.contains(w)
                    && w != (conn, req)
            }
        }),
{
    lemma_waits_not(st.sessions, conn, req);
    if st.asks[i].1 is Device {
        let gone = leaves(conn, Some(req));
        lemma_kept_contains(st.asks[i].1->waiting, |w: (u64, u64)| !gone(w), w);
    }
}

proof fn lemma_waits_not(sessions: Seq<((u64, u64), SessionView)>, conn: u64, req: u64)
    requires
        forall|k: int|
            0 <= k < sessions.len() ==> !(((#[trigger] sessions[k]).0).0 == conn
                && sessions[k].1.req == req && sessions[k].1.ask is Some),
    ensures
        waiting_session(sessions, conn, req) is None,
    decreases sessions.len(),
{
    if sessions.len() > 0 {
        assert(!((sessions[0].0).0 == conn && sessions[0].1.req == req && sessions[0].1.ask
            is Some));
        let rest = sessions.skip(1);
        assert forall|k: int| 0 <= k < rest.len() implies !(((#[trigger] rest[k]).0).0 == conn
            && rest[k].1.req == req && rest[k].1.ask is Some) by {
            assert(rest[k] == sessions[k + 1]);
        }
        lemma_waits_not(rest, conn, req);
    }
}

/// A request that waits on the person for a session, and is withdrawn, closes that session.
pub proof fn a_withdrawn_cast_is_closed(
    st: State,
    conn: u64,
    req: u64,
    standing: bool,
    cameras: bool,
    i: int,
)
    requires
        has_key(st.conns, conn),
        0 <= i < st.sessions.len(),
        (st.sessions[i].0).0 == conn,
        st.sessions[i].1.req == req,
        st.sessions[i].1.ask is Some,
        forall|k: int|
            0 <= k < i ==> !(((#[trigger] st.sessions[k]).0).0 == conn && st.sessions[k].1.req
                == req && st.sessions[k].1.ask is Some),
    ensures
        on_app(st, conn, ToCast::Cancel { req }, standing, cameras) == Turn::start(st).close(
            conn,
            (st.sessions[i].0).1,
            false,
        ),
{
    lemma_waits_at(st.sessions, conn, req, i);
}

proof fn lemma_waits_at(sessions: Seq<((u64, u64), SessionView)>, conn: u64, req: u64, i: int)
    requires
        0 <= i < sessions.len(),
        (sessions[i].0).0 == conn,
        sessions[i].1.req == req,
        sessions[i].1.ask is Some,
        forall|k: int|
            0 <= k < i ==> !(((#[trigger] sessions[k]).0).0 == conn && sessions[k].1.req == req
                && sessions[k].1.ask is Some),
    ensures
        waiting_session(sessions, conn, req) == Some((sessions[i].0).1),
    decreases sessions.len(),
{
    if i > 0 {
        assert(!((sessions[0].0).0 == conn && sessions[0].1.req == req && sessions[0].1.ask
            is Some));
        let rest = sessions.skip(1);
        assert(rest[i - 1] == sessions[i]);
        assert forall|k: int| 0 <= k < i - 1 implies !(((#[trigger] rest[k]).0).0 == conn
            && rest[k].1.req == req && rest[k].1.ask is Some) by {
            assert(rest[k] == sessions[k + 1]);
        }
        lemma_waits_at(rest, conn, req, i - 1);
    }
}

/// The name shown of a uid that holds a device: its first connection's app, else what was said
/// of it, else its number.
pub proof fn holders_are_named(conns: Seq<(u64, ConnView)>, uid: u32, who: Option<Seq<char>>, i: int)
    ensures
        0 <= i < conns.len() && conns[i].1.uid == uid && (forall|j: int|
            0 <= j < i ==> (#[trigger] conns[j]).1.uid != uid) ==> app_named(conns, uid, who)
            == conns[i].1.app,
        (forall|j: int| 0 <= j < conns.len() ==> (#[trigger] conns[j]).1.uid != uid) ==> app_named(
            conns,
            uid,
            who,
        ) == if who is Some {
            who->0
        } else {
            "uid "@ + decimal(uid as nat)
        },
    decreases conns.len(),
{
    if conns.len() > 0 {
        let rest = conns.skip(1);
        holders_are_named(rest, uid, who, i - 1);
        if 0 < i < conns.len() && conns[i].1.uid == uid && forall|j: int|
            0 <= j < i ==> (#[trigger] conns[j]).1.uid != uid {
            assert(conns[0].1.uid != uid);
            assert(rest[i - 1] == conns[i]);
            assert forall|j: int| 0 <= j < i - 1 implies (#[trigger] rest[j]).1.uid != uid by {
                assert(rest[j] == conns[j + 1]);
            }
        }
        if forall|j: int| 0 <= j < conns.len() ==> (#[trigger] conns[j]).1.uid != uid {
            assert(conns[0].1.uid != uid);
            assert forall|j: int| 0 <= j < rest.len() implies (#[trigger] rest[j]).1.uid != uid by {
                assert(rest[j] == conns[j + 1]);
            }
        }
    }
}

/// The kill switch takes each device back at PipeWire and cuts each camera connection of who
/// held one.
pub proof fn the_kill_switch_reaches_everyone(st: State, i: int)
    requires
        0 <= i < st.devices.len(),
    ensures
        on_compositor(st, FromCompositor::Revoke).acts.contains(
            DoneView::Write { uid: st.devices[i].0 as u32, kinds: Seq::empty() },
        ),
        on_compositor(st, FromCompositor::Revoke).acts.last() is Tell,
        on_compositor(st, FromCompositor::Revoke).acts.last()->Tell_0 is Devices,
{
    let uids = st.devices.map_values(|row: (u64, HeldView)| row.0);
    lemma_revoke_writes(Turn::start(st), uids, i);
    let t = Turn::start(st).revoke(uids);
    let r = on_compositor(st, FromCompositor::Revoke);
    let act = DoneView::Write { uid: st.devices[i].0 as u32, kinds: Seq::empty() };
    let k = choose|k: int| 0 <= k < t.acts.len() && t.acts[k] == act;
    assert(r.acts[k] == act);
}

proof fn lemma_revoke_writes(t: Turn, uids: Seq<u64>, i: int)
    requires
        0 <= i < uids.len(),
    ensures
        t.revoke(uids).acts.contains(DoneView::Write { uid: uids[i] as u32, kinds: Seq::empty() }),
    decreases uids.len(),
{
    let front = uids.drop_last();
    let before = t.revoke(front);
    let uid = uids.last() as u32;
    let act = DoneView::Write { uid: uids[i] as u32, kinds: Seq::empty() };
    let now = t.revoke(uids);
    if i < front.len() {
        lemma_revoke_writes(t, front, i);
        let k = choose|k: int| 0 <= k < before.acts.len() && before.acts[k] == act;
        assert(now.acts[k] == act);
    } else {
        assert(now.acts[before.acts.len() as int] == act);
    }
}

/// The indicator is told who holds the microphone and who the camera.
pub proof fn the_indicator_is_told_of_both(t: Turn)
    ensures
        t.show() == (Turn {
            acts: t.acts.push(
                DoneView::Tell(
                    ToCompositor::Devices {
                        mic: holders(t.state.devices, Device::Microphone),
                        camera: holders(t.state.devices, Device::Camera),
                    },
                ),
            ),
            ..t
        }),
        name_of(Device::Microphone) == "microphone"@,
        name_of(Device::Camera) == "camera"@,
{
}

/// A key names a screen or a window by what stands in front of it, and any other key nothing.
pub proof fn other_keys_name_nothing(key: Seq<char>, rest: Seq<char>)
    ensures
        !(key.len() >= 7 && (key.take(7) == "screen:"@ || key.take(7) == "window:"@)) ==> source_of(
            key,
        ) is None,
        unsigned(rest, u64::MAX as nat) is None ==> source_of("window:"@ + rest) is None,
{
    reveal_strlit("screen:");
    reveal_strlit("window:");
    crate::text::errors_say_what_failed(Seq::empty(), Seq::empty(), key, "screen:"@);
    crate::text::errors_say_what_failed(Seq::empty(), Seq::empty(), key, "window:"@);
    let w = "window:"@ + rest;
    crate::text::errors_say_what_failed(Seq::empty(), Seq::empty(), rest, "window:"@);
    crate::text::errors_say_what_failed(Seq::empty(), Seq::empty(), w, "screen:"@);
    assert(w.take(7)[0] == 'w');
    assert("screen:"@[0] == 's');
}

/// A pick that names nothing fails the request and says what was picked.
pub proof fn a_strange_pick_fails(
    st: State,
    id: u64,
    key: Seq<char>,
    conn: u64,
    session: u64,
    screens: bool,
    windows: bool,
    s: SessionView,
)
    requires
        get(st.asks, id) == Some(AskingView::Pick { conn, session, screens, windows }),
        has_key(st.conns, conn),
        get(st.sessions, (conn, session)) == Some(s),
        source_of(key) is None,
    ensures
        ({
            let r = on_shell(st, Response::Picked { id, key }, None);
            &&& r.acts == seq![
                DoneView::Send {
                    conn,
                    msg: FromCast::Failed {
                        req: s.req,
                        reason: "the shell picked "@ + quoted(key),
                    },
                },
            ]
            &&& r.state.sessions == del(st.sessions, (conn, session))
            &&& r.state.casts == st.casts
        }),
{
}

/// The sessions of a connection are those that are kept under it.
pub proof fn sessions_are_their_connections(
    sessions: Seq<((u64, u64), SessionView)>,
    conn: u64,
    session: u64,
)
    ensures
        sessions_of(sessions, conn).contains(session) <==> exists|i: int|
            0 <= i < sessions.len() && (#[trigger] sessions[i]).0 == (conn, session),
    decreases sessions.len(),
{
    if sessions.len() > 0 {
        let front = sessions.drop_last();
        let last = sessions.last();
        sessions_are_their_connections(front, conn, session);
        vstd::seq_lib::lemma_seq_contains_after_push(
            sessions_of(front, conn),
            (last.0).1,
            session,
        );
        if exists|i: int| 0 <= i < front.len() && (#[trigger] front[i]).0 == (conn, session) {
            let i = choose|i: int|
                0 <= i < front.len() && (#[trigger] front[i]).0 == (conn, session);
            assert(sessions[i] == front[i]);
        }
        if exists|i: int| 0 <= i < sessions.len() && (#[trigger] sessions[i]).0 == (conn, session) {
            let i = choose|i: int|
                0 <= i < sessions.len() && (#[trigger] sessions[i]).0 == (conn, session);
            if i < front.len() {
                assert(sessions[i] == front[i]);
            }
        }
        if last.0 == (conn, session) {
            assert(sessions[sessions.len() - 1].0 == (conn, session));
        }
    }
}

proof fn lemma_close_keeps_devices(t: Turn, conn: u64, sessions: Seq<u64>)
    ensures
        t.close_all(conn, sessions).state.devices == t.state.devices,
        t.close_all(conn, sessions).state.consents == t.state.consents,
        t.close_all(conn, sessions).state.camera_remotes == t.state.camera_remotes,
        t.close_all(conn, sessions).state.conns == t.state.conns,
    decreases sessions.len(),
{
    if sessions.len() > 0 {
        lemma_close_keeps_devices(t, conn, sessions.drop_last());
    }
}

/// While another connection of its uid is there, a connection that goes takes no device, no
/// token and no camera connection with it.
pub proof fn the_last_connection_takes_everything(st: State, conn: u64, c: ConnView, i: int)
    requires
        get(st.conns, conn) == Some(c),
        0 <= i < del(st.conns, conn).len(),
        del(st.conns, conn)[i].1.uid == c.uid,
    ensures
        on_gone(st, conn).state.devices == st.devices,
        on_gone(st, conn).state.consents == st.consents,
        on_gone(st, conn).state.camera_remotes == st.camera_remotes,
        on_gone(st, conn).state.conns == del(st.conns, conn),
{
    let ids = sessions_of(st.sessions, conn);
    lemma_close_keeps_devices(Turn::start(st), conn, ids);
    assert(super::state::connected(del(st.conns, conn), c.uid));
}

/// A uid that is forgotten is forgotten at PipeWire too: the last thing done is to say so; each
/// of its camera connections is cut, and where it held a device the indicator is told.
pub proof fn the_forgotten_is_forgotten_everywhere(t: Turn, uid: u32, clients: Seq<u32>, i: int)
    ensures
        ({
            let r = t.forget(uid);
            let n = r.acts.len() as int;
            &&& r.acts.len() > t.acts.len()
            &&& r.acts.last() == (DoneView::Forget { uid })
            &&& get(t.state.camera_remotes, uid as u64) == Some(clients) && 0 <= i < clients.len()
                ==> r.acts.contains(DoneView::Drop { client: clients[i] })
            &&& get(t.state.camera_remotes, uid as u64) == Some(clients)
                ==> r.state.camera_remotes == del(t.state.camera_remotes, uid as u64)
        }),
{
    let a = if has_key(t.state.devices, uid as u64) {
        (Turn {
            state: State { devices: del(t.state.devices, uid as u64), ..t.state },
            ..t
        }).show()
    } else {
        t
    };
    let ids = super::state::device_asks(a.state.asks, uid);
    lemma_withdraw_keeps(a, ids);
    let b = a.withdraw(ids);
    let r = t.forget(uid);
    if get(t.state.camera_remotes, uid as u64) == Some(clients) && 0 <= i < clients.len() {
        let drops = clients.map_values(|client: u32| DoneView::Drop { client });
        assert(drops[i] == (DoneView::Drop { client: clients[i] }));
        assert(r.acts[b.acts.len() + i] == drops[i]);
    }
}

proof fn lemma_withdraw_keeps(t: Turn, ids: Seq<u64>)
    ensures
        t.withdraw(ids).state.camera_remotes == t.state.camera_remotes,
        t.withdraw(ids).state.devices == t.state.devices,
        t.withdraw(ids).acts.len() == t.acts.len() + ids.len(),
        t.withdraw(ids).acts.take(t.acts.len() as int) == t.acts,
    decreases ids.len(),
{
    let n = t.acts.len() as int;
    if ids.len() == 0 {
        assert(t.acts.take(n) =~= t.acts);
    } else {
        lemma_withdraw_keeps(t, ids.drop_last());
        assert(t.withdraw(ids).acts.take(n) =~= t.withdraw(ids.drop_last()).acts.take(n));
    }
}

/// Questions that are withdrawn come down at the shell, each by its number.
pub proof fn withdrawn_questions_come_down(t: Turn, ids: Seq<u64>, i: int)
    requires
        0 <= i < ids.len(),
    ensures
        t.withdraw(ids).acts[t.acts.len() + i] == DoneView::Ask(Request::Cancel { id: ids[i] }),
    decreases ids.len(),
{
    lemma_withdraw_keeps(t, ids.drop_last());
    if i < ids.len() - 1 {
        withdrawn_questions_come_down(t, ids.drop_last(), i);
    }
}

/// A connection that was made for a session that has gone is dropped.
pub proof fn a_late_connection_is_dropped(
    st: State,
    conn: u64,
    req: u64,
    session: u64,
    node: u32,
    client: u32,
)
    requires
        has_key(st.conns, conn),
        !has_key(st.sessions, (conn, session)),
    ensures
        on_remote(st, conn, req, RemoteFor::Session { session, node }, Ok(client)) == (Turn {
            state: st,
            acts: seq![DoneView::Drop { client }],
        }),
{
}

/// A uid that held nothing is named by its connection, by what was said of it, or by its number
/// once it holds a device.
pub proof fn a_new_holder_is_named(
    t: Turn,
    uid: u32,
    device: Device,
    waiting: Seq<(u64, u64)>,
    who: Option<Seq<char>>,
)
    requires
        get(t.state.devices, uid as u64) is None,
    ensures
        get(t.grant(uid, device, waiting, who).state.devices, uid as u64) == Some(
            HeldView { app: app_named(t.state.conns, uid, who), devices: seq![device] },
        ),
{
    let held = Seq::<Device>::empty().push(device);
    assert(held =~= seq![device]);
    let row = HeldView { app: app_named(t.state.conns, uid, who), devices: held };
    put_then_get(t.state.devices, uid as u64, row);
    let devices = put(t.state.devices, uid as u64, row);
    let said = (Turn { state: State { devices, ..t.state }, ..t }).act(
        Act::Write { uid, kinds: kinds(held) },
    ).act(Act::Answered { uid, device }).show();
    lemma_tell_all(said, waiting, true, 0);
}

/// Who is not connected asks nothing; a second hello, and the compositor's, say nothing; and a
/// connection that is not there leaves nothing when it goes.
pub proof fn strangers_change_nothing(
    st: State,
    conn: u64,
    msg: ToCast,
    version: u32,
    standing: bool,
    cameras: bool,
)
    ensures
        !has_key(st.conns, conn) ==> on_app(st, conn, msg, standing, cameras) == Turn::start(st),
        !has_key(st.conns, conn) ==> on_gone(st, conn) == Turn::start(st),
        on_app(st, conn, ToCast::Hello { version }, standing, cameras) == Turn::start(st),
        on_compositor(st, FromCompositor::Hello { version }) == Turn::start(st),
{
}

/// A cast whose app or session has gone is stopped as soon as it streams.
pub proof fn a_stream_for_nobody_is_stopped(
    st: State,
    cast: u64,
    node_id: u32,
    width: i32,
    height: i32,
    live: LiveView,
)
    requires
        get(st.casts, cast) == Some(live),
        !has_key(st.conns, live.conn) || !has_key(st.sessions, (live.conn, live.session)),
    ensures
        on_compositor(st, FromCompositor::Started { cast, node_id, width, height }) == (Turn {
            state: st,
            acts: seq![DoneView::Tell(ToCompositor::Stop { cast })],
        }),
{
}

} // verus!
