//! Everything drv-cast knows, and what each thing that happens comes to. One owner holds the
//! state and hears everything; what it does is a list of acts, in order.
use vstd::prelude::*;
use vstd::string::*;

use super::compositor::{FromCompositor, Output, ToCompositor, Window};
use super::wire::{Cursor, FromCast, Source, ToCast};
use crate::assoc::{del, find, get, has_key, holds, put, set_row, take_row, value};
use crate::order::{is_before, text_before, text_order_is_total};
use crate::pw::{kind, kind_of, Device};
use crate::shell::ask::{Asked, AskedView, Choice, Request, Response};
use crate::text::{
    after_prefix, chars_of, decimal, decimal_int, join, joined, number, number_int, quote, quoted,
    read_unsigned, same_text, string_of, strip_front, unsigned,
};
use crate::views::{group_views, kept, lemma_kept_step, view_opt, views};

verus! {

/// What the person calls a device.
pub open spec fn name_of(device: Device) -> Seq<char> {
    match device {
        Device::Microphone => "microphone"@,
        Device::Camera => "camera"@,
    }
}

/// What the person calls a device.
pub fn device_name(device: Device) -> (r: &'static str)
    ensures
        r@ == name_of(device),
{
    match device {
        Device::Microphone => "microphone",
        Device::Camera => "camera",
    }
}

/// An app's connection.
#[derive(Debug)]
pub struct Conn {
    pub app: String,
    pub uid: u32,
}

pub struct ConnView {
    pub app: Seq<char>,
    pub uid: u32,
}

impl View for Conn {
    type V = ConnView;

    open spec fn view(&self) -> ConnView {
        ConnView { app: self.app@, uid: self.uid }
    }
}

/// A session of an app.
#[derive(Debug)]
pub struct Session {
    /// The `Cast` request, answered when the stream is up.
    pub req: u64,
    pub cursor: Cursor,
    /// The shell's question, while the person has not picked.
    pub ask: Option<u64>,
    /// Our id for the cast at the compositor, once consented.
    pub cast: Option<u64>,
    pub node: Option<u32>,
    /// PipeWire clients of remotes handed out for it.
    pub remotes: Vec<u32>,
}

pub struct SessionView {
    pub req: u64,
    pub cursor: Cursor,
    pub ask: Option<u64>,
    pub cast: Option<u64>,
    pub node: Option<u32>,
    pub remotes: Seq<u32>,
}

impl View for Session {
    type V = SessionView;

    open spec fn view(&self) -> SessionView {
        SessionView {
            req: self.req,
            cursor: self.cursor,
            ask: self.ask,
            cast: self.cast,
            node: self.node,
            remotes: self.remotes@,
        }
    }
}

/// A cast the person consented to, until the compositor says it stopped.
#[derive(Debug)]
pub struct Live {
    pub conn: u64,
    pub session: u64,
    pub app: String,
    pub uid: u32,
    pub source: Source<String>,
    pub token: String,
}

pub struct LiveView {
    pub conn: u64,
    pub session: u64,
    pub app: Seq<char>,
    pub uid: u32,
    pub source: Source<Seq<char>>,
    pub token: Seq<char>,
}

impl View for Live {
    type V = LiveView;

    open spec fn view(&self) -> LiveView {
        LiveView {
            conn: self.conn,
            session: self.session,
            app: self.app@,
            uid: self.uid,
            source: self.source@,
            token: self.token@,
        }
    }
}

/// A source the person let an app share, good for that app until it is gone.
#[derive(Debug)]
pub struct Consent {
    pub app: String,
    pub uid: u32,
    pub source: Source<String>,
}

pub struct ConsentView {
    pub app: Seq<char>,
    pub uid: u32,
    pub source: Source<Seq<char>>,
}

impl View for Consent {
    type V = ConsentView;

    open spec fn view(&self) -> ConsentView {
        ConsentView { app: self.app@, uid: self.uid, source: self.source@ }
    }
}

/// A question up at the shell. `W` is who waits, by connection and request.
#[derive(Debug)]
pub enum Asking<W> {
    Pick { conn: u64, session: u64, screens: bool, windows: bool },
    Device { uid: u32, device: Device, waiting: W },
}

pub type AskingView = Asking<Seq<(u64, u64)>>;

impl View for Asking<Vec<(u64, u64)>> {
    type V = AskingView;

    open spec fn view(&self) -> AskingView {
        match *self {
            Asking::Pick { conn, session, screens, windows } => Asking::Pick {
                conn,
                session,
                screens,
                windows,
            },
            Asking::Device { uid, device, waiting } => Asking::Device {
                uid,
                device,
                waiting: waiting@,
            },
        }
    }
}

/// What a user holds, under the app's name.
#[derive(Debug)]
pub struct Held {
    pub app: String,
    pub devices: Vec<Device>,
}

pub struct HeldView {
    pub app: Seq<char>,
    pub devices: Seq<Device>,
}

impl View for Held {
    type V = HeldView;

    open spec fn view(&self) -> HeldView {
        HeldView { app: self.app@, devices: self.devices@ }
    }
}

/// Everything drv-cast knows.
#[derive(Debug)]
pub struct Cast {
    pub conns: Vec<(u64, Conn)>,
    /// The apps' sessions, by connection and the app's number for it.
    pub sessions: Vec<((u64, u64), Session)>,
    /// What the compositor last said it has.
    pub outputs: Vec<Output>,
    pub windows: Vec<Window>,
    /// Ids for casts at the compositor and questions at the shell.
    pub next_id: u64,
    pub asks: Vec<(u64, Asking<Vec<(u64, u64)>>)>,
    pub casts: Vec<(u64, Live)>,
    /// What was consented to, by token.
    pub consents: Vec<(String, Consent)>,
    /// Devices the person allowed, by uid.
    pub devices: Vec<(u64, Held)>,
    /// Camera remotes handed out, by uid: their PipeWire clients.
    pub camera_remotes: Vec<(u64, Vec<u32>)>,
    pub next_token: u64,
}

/// Everything drv-cast knows, by value.
pub struct State {
    pub conns: Seq<(u64, ConnView)>,
    pub sessions: Seq<((u64, u64), SessionView)>,
    pub outputs: Seq<Output>,
    pub windows: Seq<Window>,
    pub next_id: nat,
    pub asks: Seq<(u64, AskingView)>,
    pub casts: Seq<(u64, LiveView)>,
    pub consents: Seq<(Seq<char>, ConsentView)>,
    pub devices: Seq<(u64, HeldView)>,
    pub camera_remotes: Seq<(u64, Seq<u32>)>,
    pub next_token: nat,
}

impl View for Cast {
    type V = State;

    open spec fn view(&self) -> State {
        State {
            conns: views(self.conns@),
            sessions: views(self.sessions@),
            outputs: self.outputs@,
            windows: self.windows@,
            next_id: self.next_id as nat,
            asks: views(self.asks@),
            casts: views(self.casts@),
            consents: views(self.consents@),
            devices: views(self.devices@),
            camera_remotes: views(self.camera_remotes@),
            next_token: self.next_token as nat,
        }
    }
}

/// What a connection handed to an app is for.
#[derive(Clone, Copy, Debug, PartialEq, Eq, Structural)]
pub enum RemoteFor {
    /// A session's node.
    Session { session: u64, node: u32 },
    Camera,
}

/// What is done, in order. `T` is text, `L` a list of texts, `C` a list of choices.
#[derive(Debug)]
pub enum Act<T, L, C> {
    /// To the compositor.
    Tell(ToCompositor<T, L>),
    /// To the shell.
    Ask(Request<T, C>),
    /// To an app.
    Send { conn: u64, msg: FromCast<T> },
    /// To an app, with the connection's fd.
    SendRemote { conn: u64, req: u64 },
    /// What a user may capture now.
    Write { uid: u32, kinds: T },
    /// PipeWire's question is answered.
    Answered { uid: u32, device: Device },
    /// Everything of a user goes at PipeWire.
    Forget { uid: u32 },
    /// Disconnect a remote.
    Drop { client: u32 },
    /// Make a connection for an app, and mark what it may reach.
    Remote { conn: u64, req: u64, what: RemoteFor, mark: T },
}

pub type Done = Act<String, Vec<String>, Vec<Choice<String>>>;

pub type DoneView = Act<Seq<char>, Seq<Seq<char>>, Seq<Choice<Seq<char>>>>;

impl View for Act<String, Vec<String>, Vec<Choice<String>>> {
    type V = DoneView;

    open spec fn view(&self) -> DoneView {
        match *self {
            Act::Tell(msg) => Act::Tell(msg@),
            Act::Ask(req) => Act::Ask(req@),
            Act::Send { conn, msg } => Act::Send { conn, msg: msg@ },
            Act::SendRemote { conn, req } => Act::SendRemote { conn, req },
            Act::Write { uid, kinds } => Act::Write { uid, kinds: kinds@ },
            Act::Answered { uid, device } => Act::Answered { uid, device },
            Act::Forget { uid } => Act::Forget { uid },
            Act::Drop { client } => Act::Drop { client },
            Act::Remote { conn, req, what, mark } => Act::Remote { conn, req, what, mark: mark@ },
        }
    }
}

/// What something comes to: the state after it, and what is done.
pub struct Turn {
    pub state: State,
    pub acts: Seq<DoneView>,
}

impl Turn {
    /// Nothing done yet.
    pub open spec fn start(state: State) -> Turn {
        Turn { state, acts: Seq::empty() }
    }

    /// One thing more is done.
    pub open spec fn act(self, act: DoneView) -> Turn {
        Turn { acts: self.acts.push(act), ..self }
    }

    /// An app is told something, if it is still there.
    pub open spec fn send(self, conn: u64, msg: FromCast<Seq<char>>) -> Turn {
        if has_key(self.state.conns, conn) {
            self.act(Act::Send { conn, msg })
        } else {
            self
        }
    }

    /// A request fails.
    pub open spec fn fail(self, conn: u64, req: u64, reason: Seq<char>) -> Turn {
        self.send(conn, FromCast::Failed { req, reason })
    }

    /// Remotes are disconnected.
    pub open spec fn drops(self, clients: Seq<u32>) -> Turn {
        Turn {
            acts: self.acts + clients.map_values(|client: u32| DoneView::Drop { client }),
            ..self
        }
    }

    /// The next id.
    pub open spec fn id(self) -> u64 {
        (self.state.next_id + 1) as u64
    }

    /// The session ends on our side: its question comes down, its cast stops, its remotes are
    /// cut; the app hears of it where it is to be told.
    pub open spec fn close(self, conn: u64, session: u64, tell: bool) -> Turn {
        let key = (conn, session);
        if !has_key(self.state.conns, conn) {
            self
        } else {
            match get(self.state.sessions, key) {
                None => self,
                Some(s) => {
                    let a = Turn {
                        state: State { sessions: del(self.state.sessions, key), ..self.state },
                        ..self
                    };
                    let b = match s.ask {
                        Some(id) => (Turn {
                            state: State { asks: del(a.state.asks, id), ..a.state },
                            ..a
                        }).act(Act::Ask(Request::Cancel { id })),
                        None => a,
                    };
                    let c = match s.cast {
                        Some(cast) => if has_key(b.state.casts, cast) {
                            (Turn {
                                state: State { casts: del(b.state.casts, cast), ..b.state },
                                ..b
                            }).act(Act::Tell(ToCompositor::Stop { cast }))
                        } else {
                            b
                        },
                        None => b,
                    };
                    let d = c.drops(s.remotes);
                    if tell {
                        d.send(conn, FromCast::CastClosed { session })
                    } else {
                        d
                    }
                },
            }
        }
    }

    /// Several sessions of an app end.
    pub open spec fn close_all(self, conn: u64, sessions: Seq<u64>) -> Turn
        decreases sessions.len(),
    {
        if sessions.len() == 0 {
            self
        } else {
            self.close_all(conn, sessions.drop_last()).close(conn, sessions.last(), false)
        }
    }

    /// The indicator follows who holds what.
    pub open spec fn show(self) -> Turn {
        self.act(
            Act::Tell(
                ToCompositor::Devices {
                    mic: holders(self.state.devices, Device::Microphone),
                    camera: holders(self.state.devices, Device::Camera),
                },
            ),
        )
    }

    /// Everyone who waits hears the same.
    pub open spec fn tell_all(self, waiting: Seq<(u64, u64)>, granted: bool) -> Turn
        decreases waiting.len(),
    {
        if waiting.len() == 0 {
            self
        } else {
            let (conn, req) = waiting.last();
            self.tell_all(waiting.drop_last(), granted).send(
                conn,
                if granted {
                    FromCast::Granted { req }
                } else {
                    FromCast::Cancelled { req }
                },
            )
        }
    }

    /// The person said yes (or the manifest did): the grant is written, shown, and everyone
    /// waiting hears it. `who` is the app's name where it has no connection here.
    pub open spec fn grant(self, uid: u32, device: Device, waiting: Seq<(u64, u64)>, who: Option<
        Seq<char>,
    >) -> Turn {
        let before = get(self.state.devices, uid as u64);
        let app = match before {
            Some(h) => h.app,
            None => app_named(self.state.conns, uid, who),
        };
        let had = match before {
            Some(h) => h.devices,
            None => Seq::empty(),
        };
        let held = if had.contains(device) {
            had
        } else {
            had.push(device)
        };
        let devices = put(self.state.devices, uid as u64, HeldView { app, devices: held });
        (Turn { state: State { devices, ..self.state }, ..self }).act(
            Act::Write { uid, kinds: kinds(held) },
        ).act(Act::Answered { uid, device }).show().tell_all(waiting, true)
    }

    /// One question per uid and device at a time; who waits hears the answer.
    pub open spec fn ask_device(self, app: Seq<char>, uid: u32, device: Device, waiter: Option<
        (u64, u64),
    >) -> Turn {
        if allowed(self.state.devices, uid, device) {
            let told = self.act(Act::Answered { uid, device });
            match waiter {
                Some((conn, req)) => told.send(conn, FromCast::Granted { req }),
                None => told,
            }
        } else {
            let i = asked_at(self.state.asks, uid, device);
            if i < self.state.asks.len() {
                match waiter {
                    Some(w) => Turn {
                        state: State {
                            asks: self.state.asks.update(
                                i,
                                (self.state.asks[i].0, joined_by(self.state.asks[i].1, w)),
                            ),
                            ..self.state
                        },
                        ..self
                    },
                    None => self,
                }
            } else {
                let id = self.id();
                let waiting = match waiter {
                    Some(w) => seq![w],
                    None => Seq::empty(),
                };
                (Turn {
                    state: State {
                        next_id: self.state.next_id + 1,
                        asks: put(self.state.asks, id, Asking::Device { uid, device, waiting }),
                        ..self.state
                    },
                    ..self
                }).act(
                    Act::Ask(
                        Request::Confirm {
                            id,
                            app,
                            uid,
                            what: "use your "@ + name_of(device),
                            note:
                                "until it exits or you revoke it (Mod+Shift+Esc revokes everything)"@,
                        },
                    ),
                )
            }
        }
    }

    /// Questions are withdrawn.
    pub open spec fn withdraw(self, ids: Seq<u64>) -> Turn
        decreases ids.len(),
    {
        if ids.len() == 0 {
            self
        } else {
            let t = self.withdraw(ids.drop_last());
            (Turn { state: State { asks: del(t.state.asks, ids.last()), ..t.state }, ..t }).act(
                Act::Ask(Request::Cancel { id: ids.last() }),
            )
        }
    }

    /// The uid is gone: its grants end, its questions come down, its camera remotes are cut.
    pub open spec fn forget(self, uid: u32) -> Turn {
        let a = if has_key(self.state.devices, uid as u64) {
            (Turn {
                state: State { devices: del(self.state.devices, uid as u64), ..self.state },
                ..self
            }).show()
        } else {
            self
        };
        let b = a.withdraw(device_asks(a.state.asks, uid));
        b.cut_cameras(uid).act(Act::Forget { uid })
    }

    /// The camera remotes of a uid are cut.
    pub open spec fn cut_cameras(self, uid: u32) -> Turn {
        match get(self.state.camera_remotes, uid as u64) {
            Some(clients) => (Turn {
                state: State {
                    camera_remotes: del(self.state.camera_remotes, uid as u64),
                    ..self.state
                },
                ..self
            }).drops(clients),
            None => self,
        }
    }

    /// The devices of these uids are revoked.
    pub open spec fn revoke(self, uids: Seq<u64>) -> Turn
        decreases uids.len(),
    {
        if uids.len() == 0 {
            self
        } else {
            let t = self.revoke(uids.drop_last());
            let uid = uids.last() as u32;
            (Turn { state: State { devices: del(t.state.devices, uid as u64), ..t.state }, ..t }).act(
                Act::Write { uid, kinds: Seq::empty() },
            ).cut_cameras(uid)
        }
    }

    /// The person picked a source: the compositor starts the cast.
    pub open spec fn start_cast(self, conn: u64, session: u64, source: Source<Seq<char>>) -> Turn {
        let key = (conn, session);
        match (get(self.state.conns, conn), get(self.state.sessions, key)) {
            (Some(c), Some(s)) => if !has_source(self.state, source) {
                (Turn {
                    state: State { sessions: del(self.state.sessions, key), ..self.state },
                    ..self
                }).fail(conn, s.req, "that source is gone"@)
            } else {
                let token = "drv"@ + decimal((self.state.next_token + 1) as nat);
                let cast = self.id();
                (Turn {
                    state: State {
                        next_token: self.state.next_token + 1,
                        next_id: self.state.next_id + 1,
                        sessions: put(
                            self.state.sessions,
                            key,
                            SessionView { ask: None, cast: Some(cast), ..s },
                        ),
                        consents: put(
                            self.state.consents,
                            token,
                            ConsentView { app: c.app, uid: c.uid, source },
                        ),
                        casts: put(
                            self.state.casts,
                            cast,
                            LiveView { conn, session, app: c.app, uid: c.uid, source, token },
                        ),
                        ..self.state
                    },
                    ..self
                }).act(Act::Tell(ToCompositor::Start { cast, source, cursor: s.cursor }))
            },
            _ => self,
        }
    }

    /// Every cast question shows the new lists, in turn.
    pub open spec fn repick(self, asks: Seq<(u64, AskingView)>) -> Turn
        decreases asks.len(),
    {
        if asks.len() == 0 {
            self
        } else {
            let t = self.repick(asks.drop_last());
            let (id, asking) = asks.last();
            match asking {
                Asking::Pick { conn, screens, windows, .. } => match get(t.state.conns, conn) {
                    Some(c) => t.act(
                        Act::Ask(pick_request(t.state, id, c.app, c.uid, screens, windows)),
                    ),
                    None => t,
                },
                _ => t,
            }
        }
    }
}

/// The person allowed a uid a device.
pub open spec fn allowed(devices: Seq<(u64, HeldView)>, uid: u32, device: Device) -> bool {
    match get(devices, uid as u64) {
        Some(h) => h.devices.contains(device),
        None => false,
    }
}

/// The devices as the metadata has them.
pub open spec fn kinds(devices: Seq<Device>) -> Seq<char> {
    joined(devices.map_values(|d: Device| kind_of(d)), " "@)
}

/// Where the question for a device is; past the end where it is not up.
pub open spec fn asked_at(asks: Seq<(u64, AskingView)>, uid: u32, device: Device) -> int
    decreases asks.len(),
{
    if asks.len() == 0 {
        0
    } else if is_asked(asks[0].1, uid, device) {
        0
    } else {
        1 + asked_at(asks.skip(1), uid, device)
    }
}

/// The question is for this device of this uid.
pub open spec fn is_asked(asking: AskingView, uid: u32, device: Device) -> bool {
    match asking {
        Asking::Device { uid: u, device: d, .. } => u == uid && d == device,
        _ => false,
    }
}

/// One more waits for the answer.
pub open spec fn joined_by(asking: AskingView, w: (u64, u64)) -> AskingView {
    match asking {
        Asking::Device { uid, device, waiting } => Asking::Device {
            uid,
            device,
            waiting: waiting.push(w),
        },
        _ => asking,
    }
}

/// Those who pass no longer wait.
pub open spec fn waiting_without(asking: AskingView, gone: spec_fn((u64, u64)) -> bool) -> AskingView {
    match asking {
        Asking::Device { uid, device, waiting } => Asking::Device {
            uid,
            device,
            waiting: kept(waiting, |w: (u64, u64)| !gone(w)),
        },
        _ => asking,
    }
}

/// Those who pass no longer wait for any answer.
pub open spec fn asks_without(asks: Seq<(u64, AskingView)>, gone: spec_fn((u64, u64)) -> bool) -> Seq<
    (u64, AskingView),
> {
    asks.map_values(|row: (u64, AskingView)| (row.0, waiting_without(row.1, gone)))
}

/// The questions for devices of a uid.
pub open spec fn device_asks(asks: Seq<(u64, AskingView)>, uid: u32) -> Seq<u64>
    decreases asks.len(),
{
    if asks.len() == 0 {
        Seq::empty()
    } else {
        let before = device_asks(asks.drop_last(), uid);
        if is_of(asks.last().1, uid) {
            before.push(asks.last().0)
        } else {
            before
        }
    }
}

/// The question is for a device of this uid.
pub open spec fn is_of(asking: AskingView, uid: u32) -> bool {
    match asking {
        Asking::Device { uid: u, .. } => u == uid,
        _ => false,
    }
}

/// A uid of some connection.
pub open spec fn connected(conns: Seq<(u64, ConnView)>, uid: u32) -> bool {
    exists|i: int| 0 <= i < conns.len() && (#[trigger] conns[i]).1.uid == uid
}

/// The name of a uid's app: by its first connection, by what is said of it, or by its number.
pub open spec fn app_named(conns: Seq<(u64, ConnView)>, uid: u32, who: Option<Seq<char>>) -> Seq<
    char,
>
    decreases conns.len(),
{
    if conns.len() == 0 {
        match who {
            Some(name) => name,
            None => "uid "@ + decimal(uid as nat),
        }
    } else if conns[0].1.uid == uid {
        conns[0].1.app
    } else {
        app_named(conns.skip(1), uid, who)
    }
}

/// A name put among names in order, once.
pub open spec fn with_name(list: Seq<Seq<char>>, name: Seq<char>) -> Seq<Seq<char>>
    decreases list.len(),
{
    if list.len() == 0 {
        seq![name]
    } else if list[0] == name {
        list
    } else if text_before(name, list[0]) {
        seq![name] + list
    } else {
        seq![list[0]] + with_name(list.skip(1), name)
    }
}

/// The names of the apps that hold a device, in order, each once.
pub open spec fn holders(devices: Seq<(u64, HeldView)>, device: Device) -> Seq<Seq<char>>
    decreases devices.len(),
{
    if devices.len() == 0 {
        Seq::empty()
    } else {
        let before = holders(devices.drop_last(), device);
        if devices.last().1.devices.contains(device) {
            with_name(before, devices.last().1.app)
        } else {
            before
        }
    }
}

/// An output that is on.
pub open spec fn is_on(o: Output) -> bool {
    o.width != 0 && o.height != 0
}

/// The compositor still has a source.
pub open spec fn has_source(st: State, source: Source<Seq<char>>) -> bool {
    match source {
        Source::Screen(name) => exists|i: int|
            0 <= i < st.outputs.len() && (#[trigger] st.outputs[i]).name@ == name && is_on(
                st.outputs[i],
            ),
        Source::Window(id) => exists|i: int|
            0 <= i < st.windows.len() && (#[trigger] st.windows[i]).id == id,
    }
}

/// A screen to pick.
pub open spec fn screen_choice(o: Output) -> Choice<Seq<char>> {
    Choice {
        key: "screen:"@ + o.name@,
        name: o.name@,
        detail: o.make@ + " "@ + o.model@ + "  "@ + decimal_int(o.width as int) + "x"@
            + decimal_int(o.height as int),
    }
}

/// A window to pick: the app's name is the compositor's word, the title the window's own.
pub open spec fn window_choice(w: Window) -> Choice<Seq<char>> {
    Choice { key: "window:"@ + decimal(w.id as nat), name: w.app@, detail: w.title@ }
}

/// The screens that are on, to pick from.
pub open spec fn screen_choices(outputs: Seq<Output>) -> Seq<Choice<Seq<char>>>
    decreases outputs.len(),
{
    if outputs.len() == 0 {
        Seq::empty()
    } else {
        let before = screen_choices(outputs.drop_last());
        if is_on(outputs.last()) {
            before.push(screen_choice(outputs.last()))
        } else {
            before
        }
    }
}

/// What there is to pick from.
pub open spec fn choices(st: State, screens: bool, windows: bool) -> Seq<Choice<Seq<char>>> {
    (if screens {
        screen_choices(st.outputs)
    } else {
        Seq::empty()
    }) + (if windows {
        st.windows.map_values(|w: Window| window_choice(w))
    } else {
        Seq::empty()
    })
}

/// The question for a cast.
pub open spec fn pick_request(st: State, id: u64, app: Seq<char>, uid: u32, screens: bool, windows: bool) -> AskedView {
    Request::Pick {
        id,
        app,
        uid,
        what: "see your screen"@,
        note: "what it may see, until you stop it (Mod+Shift+Esc stops them all)"@,
        choices: choices(st, screens, windows),
    }
}

/// The source a key names.
pub open spec fn source_of(key: Seq<char>) -> Option<Source<Seq<char>>> {
    match after_prefix(key, "screen:"@) {
        Some(name) => Some(Source::Screen(name)),
        None => match after_prefix(key, "window:"@) {
            Some(id) => match unsigned(id, u64::MAX as nat) {
                Some(n) => Some(Source::Window(n as u64)),
                None => None,
            },
            None => None,
        },
    }
}

/// A token stands for what was consented to, for the app and uid it was given to.
pub open spec fn standing_source(st: State, again: Option<Seq<char>>, c: ConnView) -> Option<
    Source<Seq<char>>,
> {
    match again {
        None => None,
        Some(token) => match get(st.consents, token) {
            None => None,
            Some(k) => if k.app == c.app && k.uid == c.uid && has_source(st, k.source) {
                Some(k.source)
            } else {
                None
            },
        },
    }
}

/// The sessions of a connection.
pub open spec fn sessions_of(sessions: Seq<((u64, u64), SessionView)>, conn: u64) -> Seq<u64>
    decreases sessions.len(),
{
    if sessions.len() == 0 {
        Seq::empty()
    } else {
        let before = sessions_of(sessions.drop_last(), conn);
        if (sessions.last().0).0 == conn {
            before.push((sessions.last().0).1)
        } else {
            before
        }
    }
}

/// The first session of a connection that waits on the person for this request.
pub open spec fn waiting_session(
    sessions: Seq<((u64, u64), SessionView)>,
    conn: u64,
    req: u64,
) -> Option<u64>
    decreases sessions.len(),
{
    if sessions.len() == 0 {
        None
    } else if (sessions[0].0).0 == conn && sessions[0].1.req == req && sessions[0].1.ask is Some {
        Some((sessions[0].0).1)
    } else {
        waiting_session(sessions.skip(1), conn, req)
    }
}

/// What an app asks for comes to. `standing` is whether the manifest grants it the camera,
/// `cameras` whether there is one.
pub open spec fn on_app(st: State, conn: u64, msg: ToCast, standing: bool, cameras: bool) -> Turn {
    let t = Turn::start(st);
    match get(st.conns, conn) {
        None => t,
        Some(c) => match msg {
            ToCast::Hello { .. } => t,
            ToCast::Cast { req, session, cursor, screens, windows, again } => {
                let key = (conn, session);
                if has_key(st.sessions, key) {
                    t.fail(conn, req, "the session was started already"@)
                } else {
                    let told = t.act(Act::Tell(ToCompositor::Outputs)).act(
                        Act::Tell(ToCompositor::Windows),
                    );
                    let id = t.id();
                    let s = SessionView {
                        req,
                        cursor,
                        ask: None,
                        cast: None,
                        node: None,
                        remotes: Seq::empty(),
                    };
                    match standing_source(st, view_opt(again), c) {
                        Some(source) => (Turn {
                            state: State {
                                next_id: st.next_id + 1,
                                sessions: put(
                                    st.sessions,
                                    key,
                                    SessionView { cast: Some(id), ..s },
                                ),
                                casts: put(
                                    st.casts,
                                    id,
                                    LiveView {
                                        conn,
                                        session,
                                        app: c.app,
                                        uid: c.uid,
                                        source,
                                        token: again->0@,
                                    },
                                ),
                                ..st
                            },
                            ..told
                        }).act(Act::Tell(ToCompositor::Start { cast: id, source, cursor })),
                        None => (Turn {
                            state: State {
                                next_id: st.next_id + 1,
                                sessions: put(
                                    st.sessions,
                                    key,
                                    SessionView { ask: Some(id), ..s },
                                ),
                                asks: put(
                                    st.asks,
                                    id,
                                    Asking::Pick { conn, session, screens, windows },
                                ),
                                ..st
                            },
                            ..told
                        }).act(
                            Act::Ask(pick_request(st, id, c.app, c.uid, screens, windows)),
                        ),
                    }
                }
            },
            ToCast::CastRemote { req, session } => match get(st.sessions, (conn, session)) {
                Some(s) => match s.node {
                    Some(node) => t.act(
                        Act::Remote {
                            conn,
                            req,
                            what: RemoteFor::Session { session, node },
                            mark: "node:"@ + decimal(node as nat),
                        },
                    ),
                    None => t.fail(conn, req, "the session is not streaming"@),
                },
                None => t.fail(conn, req, "the session is not streaming"@),
            },
            ToCast::CastClose { session } => t.close(conn, session, false),
            ToCast::Camera { req } => if allowed(st.devices, c.uid, Device::Camera) {
                t.send(conn, FromCast::Granted { req })
            } else if standing {
                t.grant(c.uid, Device::Camera, seq![(conn, req)], None)
            } else {
                t.ask_device(c.app, c.uid, Device::Camera, Some((conn, req)))
            },
            ToCast::CameraRemote { req } => if allowed(st.devices, c.uid, Device::Camera) {
                t.act(
                    Act::Remote { conn, req, what: RemoteFor::Camera, mark: "camera"@ },
                )
            } else {
                t.fail(conn, req, "the camera was not allowed"@)
            },
            ToCast::CameraPresent { req } => t.send(
                conn,
                FromCast::Present { req, present: cameras },
            ),
            ToCast::Cancel { req } => match waiting_session(st.sessions, conn, req) {
                Some(session) => t.close(conn, session, false),
                None => Turn {
                    state: State {
                        asks: asks_without(st.asks, leaves(conn, Some(req))),
                        ..st
                    },
                    ..t
                },
            },
        },
    }
}

/// An app's connection went away.
pub open spec fn on_gone(st: State, conn: u64) -> Turn {
    match get(st.conns, conn) {
        None => Turn::start(st),
        Some(c) => {
            let a = Turn::start(st).close_all(conn, sessions_of(st.sessions, conn));
            let b = Turn {
                state: State {
                    conns: del(a.state.conns, conn),
                    asks: asks_without(a.state.asks, leaves(conn, None)),
                    ..a.state
                },
                ..a
            };
            if connected(b.state.conns, c.uid) {
                b
            } else {
                (Turn {
                    state: State {
                        consents: kept(
                            b.state.consents,
                            |row: (Seq<char>, ConsentView)| row.1.uid != c.uid,
                        ),
                        ..b.state
                    },
                    ..b
                }).forget(c.uid)
            }
        },
    }
}

/// What the compositor says comes to.
pub open spec fn on_compositor(st: State, msg: FromCompositor) -> Turn {
    let t = Turn::start(st);
    match msg {
        FromCompositor::Hello { .. } => t,
        FromCompositor::Outputs(outputs) => (Turn {
            state: State { outputs: outputs@, ..st },
            ..t
        }).repick(st.asks),
        FromCompositor::Windows(windows) => (Turn {
            state: State { windows: windows@, ..st },
            ..t
        }).repick(st.asks),
        FromCompositor::Started { cast, node_id, width, height } => match get(st.casts, cast) {
            None => t.act(Act::Tell(ToCompositor::Stop { cast })),
            Some(live) => {
                let key = (live.conn, live.session);
                match (get(st.conns, live.conn), get(st.sessions, key)) {
                    (Some(_), Some(s)) => (Turn {
                        state: State {
                            sessions: put(
                                st.sessions,
                                key,
                                SessionView { node: Some(node_id), ..s },
                            ),
                            ..st
                        },
                        ..t
                    }).send(
                        live.conn,
                        FromCast::Cast {
                            req: s.req,
                            node_id,
                            source: live.source,
                            width,
                            height,
                            token: live.token,
                        },
                    ),
                    _ => t.act(Act::Tell(ToCompositor::Stop { cast })),
                }
            },
        },
        FromCompositor::Stopped { cast } => match get(st.casts, cast) {
            None => t,
            Some(live) => (Turn {
                state: State { casts: del(st.casts, cast), ..st },
                ..t
            }).close(live.conn, live.session, true),
        },
        FromCompositor::Revoke => t.revoke(
            st.devices.map_values(|row: (u64, HeldView)| row.0),
        ).show(),
    }
}

/// The session of a question ends unpicked: the request, if it was still there.
pub open spec fn unpicked(t: Turn, conn: u64, session: u64) -> (Turn, Option<u64>) {
    if has_key(t.state.conns, conn) {
        match get(t.state.sessions, (conn, session)) {
            Some(s) => (
                Turn {
                    state: State { sessions: del(t.state.sessions, (conn, session)), ..t.state },
                    ..t
                },
                Some(s.req),
            ),
            None => (t, None),
        }
    } else {
        (t, None)
    }
}

/// What the shell answers comes to. `who` is the name of the app a device is for, where it has
/// no connection here.
pub open spec fn on_shell(st: State, resp: Response<Seq<char>>, who: Option<Seq<char>>) -> Turn {
    let t = Turn::start(st);
    match crate::shell::ask::answered(resp) {
        None => t,
        Some(id) => match get(st.asks, id) {
            None => t,
            Some(asking) => {
                let a = Turn { state: State { asks: del(st.asks, id), ..st }, ..t };
                match asking {
                    Asking::Pick { conn, session, .. } => match resp {
                        Response::Picked { key, .. } => match source_of(key) {
                            Some(source) => a.start_cast(conn, session, source),
                            None => {
                                let (b, req) = unpicked(a, conn, session);
                                match req {
                                    Some(req) => b.fail(
                                        conn,
                                        req,
                                        "the shell picked "@ + quoted(key),
                                    ),
                                    None => b,
                                }
                            },
                        },
                        _ => {
                            let (b, req) = unpicked(a, conn, session);
                            match req {
                                Some(req) => b.send(conn, FromCast::Cancelled { req }),
                                None => b,
                            }
                        },
                    },
                    Asking::Device { uid, device, waiting } => match resp {
                        Response::Yes { .. } => a.grant(uid, device, waiting, who),
                        _ => a.act(Act::Answered { uid, device }).tell_all(waiting, false),
                    },
                }
            },
        },
    }
}

/// WirePlumber has a stream of a uid waiting on a device. `who` is the app's name and whether
/// the manifest grants it the camera, where the uid is an app.
pub open spec fn on_pw_asked(st: State, uid: u32, device: Device, who: Option<(Seq<char>, bool)>) -> Turn {
    let t = Turn::start(st);
    match who {
        None => t.act(Act::Answered { uid, device }),
        Some((name, camera)) => if device == Device::Camera && camera {
            t.grant(uid, device, Seq::empty(), Some(name))
        } else {
            t.ask_device(name, uid, device, None)
        },
    }
}

/// A connection was made for an app as a PipeWire client, or could not be.
pub open spec fn on_remote(st: State, conn: u64, req: u64, what: RemoteFor, made: Result<
    u32,
    Seq<char>,
>) -> Turn {
    let t = Turn::start(st);
    match made {
        Err(e) => t.fail(conn, req, e),
        Ok(client) => match get(st.conns, conn) {
            None => t.act(Act::Drop { client }),
            Some(c) => match what {
                RemoteFor::Session { session, .. } => match get(st.sessions, (conn, session)) {
                    None => t.act(Act::Drop { client }),
                    Some(s) => (Turn {
                        state: State {
                            sessions: put(
                                st.sessions,
                                (conn, session),
                                SessionView { remotes: s.remotes.push(client), ..s },
                            ),
                            ..st
                        },
                        ..t
                    }).act(Act::SendRemote { conn, req }),
                },
                RemoteFor::Camera => {
                    let had = match get(st.camera_remotes, c.uid as u64) {
                        Some(clients) => clients,
                        None => Seq::empty(),
                    };
                    (Turn {
                        state: State {
                            camera_remotes: put(
                                st.camera_remotes,
                                c.uid as u64,
                                had.push(client),
                            ),
                            ..st
                        },
                        ..t
                    }).act(Act::SendRemote { conn, req })
                },
            },
        },
    }
}

/// The state with what was done so far.
pub open spec fn turn(cast: Cast, out: Vec<Done>) -> Turn {
    Turn { state: cast@, acts: views(out@) }
}

/// How making a connection went, by value.
pub open spec fn made_view(made: Result<u32, String>) -> Result<u32, Seq<char>> {
    match made {
        Ok(client) => Ok(client),
        Err(e) => Err(e@),
    }
}

/// A device is among those held.
fn holds_device(devices: &Vec<Device>, device: Device) -> (r: bool)
    ensures
        r == devices@.contains(device),
{
    let mut i: usize = 0;
    while i < devices.len()
        invariant
            i <= devices@.len(),
            forall|j: int| 0 <= j < i ==> devices@[j] != device,
        decreases devices@.len() - i,
    {
        if devices[i] == device {
            return true;
        }
        i = i + 1;
    }
    false
}

/// The devices as the metadata has them.
fn kinds_of(devices: &Vec<Device>) -> (r: String)
    ensures
        r@ == kinds(devices@),
{
    broadcast use group_views;

    let mut names: Vec<String> = Vec::new();
    let ghost all = devices@.map_values(|d: Device| kind_of(d));
    let mut i: usize = 0;
    while i < devices.len()
        invariant
            i <= devices@.len(),
            all == devices@.map_values(|d: Device| kind_of(d)),
            views(names@) == all.take(i as int),
        decreases devices@.len() - i,
    {
        broadcast use group_views;

        names.push(kind(devices[i]).to_owned());
        assert(all.take(i + 1) =~= all.take(i as int).push(all[i as int]));
        i = i + 1;
    }
    assert(all.take(i as int) =~= all);
    join(&names, " ")
}

proof fn lemma_with_name(list: Seq<Seq<char>>, name: Seq<char>, i: int)
    requires
        0 <= i <= list.len(),
        forall|j: int| 0 <= j < i ==> text_before(#[trigger] list[j], name),
        i < list.len() ==> !text_before(list[i], name),
    ensures
        with_name(list, name) == if i < list.len() && list[i] == name {
            list
        } else {
            list.insert(i, name)
        },
    decreases i,
{
    if i == 0 {
        if list.len() > 0 {
            text_order_is_total(list[0], name);
        }
        assert(list.insert(0, name) =~= seq![name] + list);
    } else {
        text_order_is_total(list[0], name);
        let rest = list.skip(1);
        assert forall|j: int| 0 <= j < i - 1 implies text_before(#[trigger] rest[j], name) by {
            assert(rest[j] == list[j + 1]);
        }
        lemma_with_name(rest, name, i - 1);
        assert(text_before(list[0], name));
        if i < list.len() && list[i] == name {
            assert(seq![list[0]] + rest =~= list);
        } else {
            assert(seq![list[0]] + rest.insert(i - 1, name) =~= list.insert(i, name));
        }
    }
}

/// Puts a name among names in order, once.
fn add_name(list: &mut Vec<String>, name: &String)
    ensures
        views(final(list)@) == with_name(views(old(list)@), name@),
{
    broadcast use group_views;

    let chars = chars_of(name.as_str());
    let ghost all = views(list@);
    let mut i: usize = 0;
    while i < list.len() && is_before(&chars_of(list[i].as_str()), &chars)
        invariant
            i <= list@.len(),
            chars@ == name@,
            all == views(list@),
            forall|j: int| 0 <= j < i ==> text_before(#[trigger] all[j], name@),
        ensures
            i <= list@.len(),
            forall|j: int| 0 <= j < i ==> text_before(#[trigger] all[j], name@),
            i < list@.len() ==> !text_before(all[i as int], name@),
        decreases list@.len() - i,
    {
        i = i + 1;
    }
    proof {
        lemma_with_name(all, name@, i as int);
    }
    if i < list.len() && same_text(list[i].as_str(), name.as_str()) {
        return;
    }
    list.insert(i, name.clone());
    assert(views(list@) =~= all.insert(i as int, name@));
}

/// The names of the apps that hold a device.
fn holders_of(devices: &Vec<(u64, Held)>, device: Device) -> (r: Vec<String>)
    ensures
        views(r@) == holders(views(devices@), device),
{
    broadcast use group_views;

    let mut names: Vec<String> = Vec::new();
    let ghost all = views(devices@);
    let mut i: usize = 0;
    assert(all.take(0) =~= Seq::empty());
    while i < devices.len()
        invariant
            i <= devices@.len(),
            all == views(devices@),
            views(names@) == holders(all.take(i as int), device),
        decreases devices@.len() - i,
    {
        broadcast use group_views;

        assert(all.take(i + 1).drop_last() =~= all.take(i as int));
        assert(all[i as int] == devices@[i as int]@);
        if holds_device(&devices[i].1.devices, device) {
            add_name(&mut names, &devices[i].1.app);
        }
        i = i + 1;
    }
    assert(all.take(i as int) =~= all);
    names
}

/// The name of a uid's app.
fn name_app(conns: &Vec<(u64, Conn)>, uid: u32, who: Option<String>) -> (r: String)
    ensures
        r@ == app_named(views(conns@), uid, view_opt(who)),
{
    broadcast use group_views;

    let ghost all = views(conns@);
    let mut i: usize = 0;
    assert(all.skip(0) =~= all);
    while i < conns.len()
        invariant
            i <= conns@.len(),
            all == views(conns@),
            app_named(all, uid, view_opt(who)) == app_named(all.skip(i as int), uid, view_opt(who)),
        decreases conns@.len() - i,
    {
        assert(all.skip(i as int)[0] == conns@[i as int]@);
        assert(all.skip(i as int).skip(1) =~= all.skip(i + 1));
        if conns[i].1.uid == uid {
            return conns[i].1.app.clone();
        }
        i = i + 1;
    }
    match who {
        Some(name) => name,
        None => {
            let mut r = "uid ".to_owned();
            r.append(number(uid as u64).as_str());
            r
        },
    }
}

/// Whether a uid has a connection.
fn has_conn(conns: &Vec<(u64, Conn)>, uid: u32) -> (r: bool)
    ensures
        r == connected(views(conns@), uid),
{
    broadcast use group_views;

    let ghost all = views(conns@);
    let mut i: usize = 0;
    while i < conns.len()
        invariant
            i <= conns@.len(),
            all == views(conns@),
            forall|j: int| 0 <= j < i ==> (#[trigger] all[j]).1.uid != uid,
        decreases conns@.len() - i,
    {
        assert(all[i as int] == conns@[i as int]@);
        if conns[i].1.uid == uid {
            return true;
        }
        i = i + 1;
    }
    false
}

proof fn lemma_asked_at(asks: Seq<(u64, AskingView)>, uid: u32, device: Device, i: int)
    requires
        0 <= i <= asks.len(),
        forall|j: int| 0 <= j < i ==> !is_asked((#[trigger] asks[j]).1, uid, device),
        i < asks.len() ==> is_asked(asks[i].1, uid, device),
    ensures
        asked_at(asks, uid, device) == i,
    decreases i,
{
    if i > 0 {
        assert(!is_asked(asks[0].1, uid, device));
        assert forall|j: int| 0 <= j < i - 1 implies !is_asked(
            (#[trigger] asks.skip(1)[j]).1,
            uid,
            device,
        ) by {
            assert(asks.skip(1)[j] == asks[j + 1]);
        }
        lemma_asked_at(asks.skip(1), uid, device, i - 1);
    }
}

/// Where the question for a device is.
fn find_asked(asks: &Vec<(u64, Asking<Vec<(u64, u64)>>)>, uid: u32, device: Device) -> (r: usize)
    ensures
        r == asked_at(views(asks@), uid, device),
        r <= asks@.len(),
        r < asks@.len() ==> is_asked(asks@[r as int].1@, uid, device),
{
    broadcast use group_views;

    let ghost all = views(asks@);
    let mut i: usize = 0;
    while i < asks.len()
        invariant
            i <= asks@.len(),
            all == views(asks@),
            forall|j: int| 0 <= j < i ==> !is_asked((#[trigger] all[j]).1, uid, device),
        decreases asks@.len() - i,
    {
        assert(all[i as int] == asks@[i as int]@);
        let up = match &asks[i].1 {
            Asking::Device { uid: u, device: d, .. } => *u == uid && *d == device,
            _ => false,
        };
        if up {
            proof {
                lemma_asked_at(all, uid, device, i as int);
            }
            return i;
        }
        i = i + 1;
    }
    proof {
        lemma_asked_at(all, uid, device, i as int);
    }
    i
}

/// The questions for devices of a uid.
fn asks_of(asks: &Vec<(u64, Asking<Vec<(u64, u64)>>)>, uid: u32) -> (r: Vec<u64>)
    ensures
        r@ == device_asks(views(asks@), uid),
{
    broadcast use group_views;

    let ghost all = views(asks@);
    let mut ids: Vec<u64> = Vec::new();
    let mut i: usize = 0;
    assert(all.take(0) =~= Seq::empty());
    while i < asks.len()
        invariant
            i <= asks@.len(),
            all == views(asks@),
            ids@ == device_asks(all.take(i as int), uid),
        decreases asks@.len() - i,
    {
        assert(all.take(i + 1).drop_last() =~= all.take(i as int));
        assert(all[i as int] == asks@[i as int]@);
        let of = match &asks[i].1 {
            Asking::Device { uid: u, .. } => *u == uid,
            _ => false,
        };
        if of {
            ids.push(asks[i].0);
        }
        i = i + 1;
    }
    assert(all.take(i as int) =~= all);
    ids
}

/// The sessions of a connection.
fn sessions_on(sessions: &Vec<((u64, u64), Session)>, conn: u64) -> (r: Vec<u64>)
    ensures
        r@ == sessions_of(views(sessions@), conn),
{
    broadcast use group_views;

    let ghost all = views(sessions@);
    let mut ids: Vec<u64> = Vec::new();
    let mut i: usize = 0;
    assert(all.take(0) =~= Seq::empty());
    while i < sessions.len()
        invariant
            i <= sessions@.len(),
            all == views(sessions@),
            ids@ == sessions_of(all.take(i as int), conn),
        decreases sessions@.len() - i,
    {
        assert(all.take(i + 1).drop_last() =~= all.take(i as int));
        assert(all[i as int] == sessions@[i as int]@);
        if (sessions[i].0).0 == conn {
            ids.push((sessions[i].0).1);
        }
        i = i + 1;
    }
    assert(all.take(i as int) =~= all);
    ids
}

/// The first session of a connection that waits on the person for a request.
fn find_waiting(sessions: &Vec<((u64, u64), Session)>, conn: u64, req: u64) -> (r: Option<u64>)
    ensures
        r == waiting_session(views(sessions@), conn, req),
{
    broadcast use group_views;

    let ghost all = views(sessions@);
    let mut i: usize = 0;
    assert(all.skip(0) =~= all);
    while i < sessions.len()
        invariant
            i <= sessions@.len(),
            all == views(sessions@),
            waiting_session(all, conn, req) == waiting_session(all.skip(i as int), conn, req),
        decreases sessions@.len() - i,
    {
        assert(all.skip(i as int)[0] == sessions@[i as int]@);
        assert(all.skip(i as int).skip(1) =~= all.skip(i + 1));
        if (sessions[i].0).0 == conn && sessions[i].1.req == req && sessions[i].1.ask.is_some() {
            return Some((sessions[i].0).1);
        }
        i = i + 1;
    }
    None
}

/// The waiting, without those of a connection, or without one request of it.
fn unwait(waiting: &Vec<(u64, u64)>, conn: u64, req: Option<u64>) -> (r: Vec<(u64, u64)>)
    ensures
        r@ == kept(waiting@, |w: (u64, u64)| !leaves(conn, req)(w)),
{
    let ghost stays = |w: (u64, u64)| !leaves(conn, req)(w);
    let mut r: Vec<(u64, u64)> = Vec::new();
    let mut i: usize = 0;
    assert(waiting@.take(0) =~= Seq::empty());
    while i < waiting.len()
        invariant
            i <= waiting@.len(),
            stays == (|w: (u64, u64)| !leaves(conn, req)(w)),
            r@ == kept(waiting@.take(i as int), stays),
        decreases waiting@.len() - i,
    {
        proof {
            lemma_kept_step(waiting@, stays, i as int);
        }
        let (k, q) = waiting[i];
        let goes = k == conn && (match req {
            None => true,
            Some(req) => q == req,
        });
        if !goes {
            r.push((k, q));
        }
        i = i + 1;
    }
    assert(waiting@.take(i as int) =~= waiting@);
    r
}

/// Those of a connection, or one request of it.
pub open spec fn leaves(conn: u64, req: Option<u64>) -> spec_fn((u64, u64)) -> bool {
    |w: (u64, u64)|
        w.0 == conn && match req {
            None => true,
            Some(req) => w.1 == req,
        }
}

/// The shell's question for a screen.
fn screen_row(o: &Output) -> (r: Choice<String>)
    ensures
        r@ == screen_choice(*o),
{
    let mut key = "screen:".to_owned();
    key.append(o.name.as_str());
    let mut detail = o.make.clone();
    detail.append(" ");
    detail.append(o.model.as_str());
    detail.append("  ");
    detail.append(number_int(o.width as i64).as_str());
    detail.append("x");
    detail.append(number_int(o.height as i64).as_str());
    Choice { key, name: o.name.clone(), detail }
}

/// The shell's question for a window.
fn window_row(w: &Window) -> (r: Choice<String>)
    ensures
        r@ == window_choice(*w),
{
    let mut key = "window:".to_owned();
    key.append(number(w.id).as_str());
    Choice { key, name: w.app.clone(), detail: w.title.clone() }
}

/// The source a key names.
pub fn parse_key(key: &str) -> (r: Option<Source<String>>)
    ensures
        view_opt(r) == source_of(key@),
{
    let chars = chars_of(key);
    if let Some(name) = strip_front(&chars, "screen:") {
        assert(name@.subrange(0, name@.len() as int) =~= name@);
        return Some(Source::Screen(string_of(&name, 0, name.len())));
    }
    match strip_front(&chars, "window:") {
        Some(id) => match read_unsigned(&id, u64::MAX) {
            Some(n) => Some(Source::Window(n)),
            None => None,
        },
        None => None,
    }
}

impl Cast {
    /// Nothing known yet.
    pub fn new() -> (r: Cast)
        ensures
            r@ == (State {
                conns: Seq::empty(),
                sessions: Seq::empty(),
                outputs: Seq::empty(),
                windows: Seq::empty(),
                next_id: 0,
                asks: Seq::empty(),
                casts: Seq::empty(),
                consents: Seq::empty(),
                devices: Seq::empty(),
                camera_remotes: Seq::empty(),
                next_token: 0,
            }),
    {
        broadcast use group_views;

        Cast {
            conns: Vec::new(),
            sessions: Vec::new(),
            outputs: Vec::new(),
            windows: Vec::new(),
            next_id: 0,
            asks: Vec::new(),
            casts: Vec::new(),
            consents: Vec::new(),
            devices: Vec::new(),
            camera_remotes: Vec::new(),
            next_token: 0,
        }
    }

    /// An app is told something, if it is still there.
    fn send(&self, out: &mut Vec<Done>, conn: u64, msg: FromCast<String>)
        ensures
            turn(*self, *final(out)) == turn(*self, *old(out)).send(conn, msg@),
    {
        broadcast use group_views;

        if holds(&self.conns, &conn) {
            out.push(Act::Send { conn, msg });
        }
    }

    /// A request fails.
    fn fail(&self, out: &mut Vec<Done>, conn: u64, req: u64, reason: &str)
        ensures
            turn(*self, *final(out)) == turn(*self, *old(out)).fail(conn, req, reason@),
    {
        self.send(out, conn, FromCast::Failed { req, reason: reason.to_owned() });
    }

    /// Remotes are disconnected.
    fn drops(&self, out: &mut Vec<Done>, clients: &Vec<u32>)
        ensures
            turn(*self, *final(out)) == turn(*self, *old(out)).drops(clients@),
    {
        broadcast use group_views;

        let ghost start = views(out@);
        let ghost all = clients@.map_values(|client: u32| DoneView::Drop { client });
        let mut i: usize = 0;
        assert(start + all.take(0) =~= start);
        while i < clients.len()
            invariant
                i <= clients@.len(),
                all == clients@.map_values(|client: u32| DoneView::Drop { client }),
                views(out@) == start + all.take(i as int),
            decreases clients@.len() - i,
        {
            broadcast use group_views;

            out.push(Act::Drop { client: clients[i] });
            assert(start + all.take(i + 1) =~= (start + all.take(i as int)).push(all[i as int]));
            i = i + 1;
        }
        assert(all.take(i as int) =~= all);
    }

    /// The person allowed a uid a device.
    fn has(&self, uid: u32, device: Device) -> (r: bool)
        ensures
            r == allowed(self@.devices, uid, device),
    {
        match value(&self.devices, &(uid as u64)) {
            Some(h) => holds_device(&h.devices, device),
            None => false,
        }
    }

    /// The indicator follows who holds what.
    fn show_devices(&self, out: &mut Vec<Done>)
        ensures
            turn(*self, *final(out)) == turn(*self, *old(out)).show(),
    {
        broadcast use group_views;

        let mic = holders_of(&self.devices, Device::Microphone);
        let camera = holders_of(&self.devices, Device::Camera);
        out.push(Act::Tell(ToCompositor::Devices { mic, camera }));
    }

    /// Whether the compositor still has a source.
    fn has_source(&self, source: &Source<String>) -> (r: bool)
        ensures
            r == has_source(self@, source@),
    {
        match source {
            Source::Screen(name) => {
                let mut i: usize = 0;
                while i < self.outputs.len()
                    invariant
                        i <= self.outputs@.len(),
                        source@ == Source::<Seq<char>>::Screen(name@),
                        forall|j: int|
                            0 <= j < i ==> !((#[trigger] self.outputs@[j]).name@ == name@ && is_on(
                                self.outputs@[j],
                            )),
                    decreases self.outputs@.len() - i,
                {
                    let o = &self.outputs[i];
                    if same_text(o.name.as_str(), name.as_str()) && o.width != 0 && o.height != 0 {
                        assert(self@.outputs[i as int].name@ == name@);
                        return true;
                    }
                    i = i + 1;
                }
                false
            },
            Source::Window(id) => {
                let mut i: usize = 0;
                while i < self.windows.len()
                    invariant
                        i <= self.windows@.len(),
                        source@ == Source::<Seq<char>>::Window(*id),
                        forall|j: int| 0 <= j < i ==> (#[trigger] self.windows@[j]).id != *id,
                    decreases self.windows@.len() - i,
                {
                    if self.windows[i].id == *id {
                        assert(self@.windows[i as int].id == *id);
                        return true;
                    }
                    i = i + 1;
                }
                false
            },
        }
    }

    /// The screens and windows there are, to pick from.
    fn choices(&self, screens: bool, windows: bool) -> (r: Vec<Choice<String>>)
        ensures
            views(r@) == choices(self@, screens, windows),
    {
        broadcast use group_views;

        let mut list: Vec<Choice<String>> = Vec::new();
        let ghost outputs = self.outputs@;
        if screens {
            let mut i: usize = 0;
            assert(outputs.take(0) =~= Seq::empty());
            while i < self.outputs.len()
                invariant
                    i <= outputs.len(),
                    outputs == self.outputs@,
                    views(list@) == screen_choices(outputs.take(i as int)),
                decreases outputs.len() - i,
            {
                broadcast use group_views;

                assert(outputs.take(i + 1).drop_last() =~= outputs.take(i as int));
                let o = &self.outputs[i];
                if o.width != 0 && o.height != 0 {
                    list.push(screen_row(o));
                }
                i = i + 1;
            }
            assert(outputs.take(i as int) =~= outputs);
        }
        let ghost start = views(list@);
        let ghost all = self.windows@.map_values(|w: Window| window_choice(w));
        if windows {
            let mut i: usize = 0;
            assert(start + all.take(0) =~= start);
            while i < self.windows.len()
                invariant
                    i <= self.windows@.len(),
                    all == self.windows@.map_values(|w: Window| window_choice(w)),
                    views(list@) == start + all.take(i as int),
                decreases self.windows@.len() - i,
            {
                broadcast use group_views;

                list.push(window_row(&self.windows[i]));
                assert(start + all.take(i + 1) =~= (start + all.take(i as int)).push(
                    all[i as int],
                ));
                i = i + 1;
            }
            assert(all.take(i as int) =~= all);
        }
        assert(views(list@) =~= choices(self@, screens, windows));
        list
    }

    /// The question for a cast.
    fn pick(&self, id: u64, app: &str, uid: u32, screens: bool, windows: bool) -> (r: Asked)
        ensures
            r@ == pick_request(self@, id, app@, uid, screens, windows),
    {
        let choices = self.choices(screens, windows);
        Request::Pick {
            id,
            app: app.to_owned(),
            uid,
            what: "see your screen".to_owned(),
            note: "what it may see, until you stop it (Mod+Shift+Esc stops them all)".to_owned(),
            choices,
        }
    }

    /// The session ends on our side.
    fn close_session(&mut self, out: &mut Vec<Done>, conn: u64, session: u64, tell: bool)
        ensures
            turn(*final(self), *final(out)) == turn(*old(self), *old(out)).close(
                conn,
                session,
                tell,
            ),
    {
        broadcast use group_views;

        if !holds(&self.conns, &conn) {
            return;
        }
        let s = match take_row(&mut self.sessions, &(conn, session)) {
            Some(s) => s,
            None => return,
        };
        if let Some(id) = s.ask {
            let _ = take_row(&mut self.asks, &id);
            out.push(Act::Ask(Request::Cancel { id }));
        }
        if let Some(cast) = s.cast {
            if let Some(_) = take_row(&mut self.casts, &cast) {
                out.push(Act::Tell(ToCompositor::Stop { cast }));
            }
        }
        self.drops(out, &s.remotes);
        if tell {
            self.send(out, conn, FromCast::CastClosed { session });
        }
    }

    /// Everyone who waits hears the same.
    fn tell_all(&self, out: &mut Vec<Done>, waiting: &Vec<(u64, u64)>, granted: bool)
        ensures
            turn(*self, *final(out)) == turn(*self, *old(out)).tell_all(waiting@, granted),
    {
        let ghost start = turn(*self, *out);
        let mut i: usize = 0;
        assert(waiting@.take(0) =~= Seq::empty());
        while i < waiting.len()
            invariant
                i <= waiting@.len(),
                turn(*self, *out) == start.tell_all(waiting@.take(i as int), granted),
            decreases waiting@.len() - i,
        {
            assert(waiting@.take(i + 1).drop_last() =~= waiting@.take(i as int));
            let (conn, req) = waiting[i];
            let msg = if granted {
                FromCast::Granted { req }
            } else {
                FromCast::Cancelled { req }
            };
            self.send(out, conn, msg);
            i = i + 1;
        }
        assert(waiting@.take(i as int) =~= waiting@);
    }

    /// The person said yes, or the manifest did.
    fn grant_device(
        &mut self,
        out: &mut Vec<Done>,
        uid: u32,
        device: Device,
        waiting: &Vec<(u64, u64)>,
        who: Option<String>,
    )
        ensures
            turn(*final(self), *final(out)) == turn(*old(self), *old(out)).grant(
                uid,
                device,
                waiting@,
                view_opt(who),
            ),
    {
        broadcast use group_views;

        let i = find(&self.devices, &(uid as u64));
        let written = if i < self.devices.len() {
            assert(views(self.devices@)[i as int] == self.devices@[i as int]@);
            if !holds_device(&self.devices[i].1.devices, device) {
                self.devices[i].1.devices.push(device);
            }
            kinds_of(&self.devices[i].1.devices)
        } else {
            let app = name_app(&self.conns, uid, who);
            let devices = vec![device];
            assert(devices@ =~= Seq::<Device>::empty().push(device));
            let written = kinds_of(&devices);
            self.devices.push((uid as u64, Held { app, devices }));
            written
        };
        assert(self@.devices =~= turn(*old(self), *old(out)).grant(
            uid,
            device,
            Seq::empty(),
            view_opt(who),
        ).state.devices);
        out.push(Act::Write { uid, kinds: written });
        out.push(Act::Answered { uid, device });
        self.show_devices(out);
        self.tell_all(out, waiting, true);
    }

    /// One question per uid and device at a time.
    fn ask_device(
        &mut self,
        out: &mut Vec<Done>,
        app: String,
        uid: u32,
        device: Device,
        waiter: Option<(u64, u64)>,
    )
        requires
            old(self).next_id < u64::MAX,
        ensures
            turn(*final(self), *final(out)) == turn(*old(self), *old(out)).ask_device(
                app@,
                uid,
                device,
                waiter,
            ),
    {
        broadcast use group_views;

        if self.has(uid, device) {
            out.push(Act::Answered { uid, device });
            if let Some((conn, req)) = waiter {
                self.send(out, conn, FromCast::Granted { req });
            }
            return;
        }
        let i = find_asked(&self.asks, uid, device);
        if i < self.asks.len() {
            if let Some(w) = waiter {
                assert(views(self.asks@)[i as int] == self.asks@[i as int]@);
                match &mut self.asks[i].1 {
                    Asking::Device { waiting, .. } => waiting.push(w),
                    Asking::Pick { .. } => {},
                }
                assert(self.asks@[i as int].1@ == joined_by(old(self).asks@[i as int].1@, w));
                assert(views(self.asks@) =~= views(old(self).asks@).update(
                    i as int,
                    self.asks@[i as int]@,
                ));
            }
            return;
        }
        self.next_id = self.next_id + 1;
        let id = self.next_id;
        let mut waiting: Vec<(u64, u64)> = Vec::new();
        if let Some(w) = waiter {
            waiting.push(w);
        }
        assert(waiting@ =~= match waiter {
            Some(w) => seq![w],
            None => Seq::empty(),
        });
        set_row(&mut self.asks, id, Asking::Device { uid, device, waiting });
        let mut what = "use your ".to_owned();
        what.append(device_name(device));
        out.push(
            Act::Ask(
                Request::Confirm {
                    id,
                    app,
                    uid,
                    what,
                    note:
                        "until it exits or you revoke it (Mod+Shift+Esc revokes everything)".to_owned(),
                },
            ),
        );
    }

    /// The camera remotes of a uid are cut.
    fn cut_cameras(&mut self, out: &mut Vec<Done>, uid: u32)
        ensures
            turn(*final(self), *final(out)) == turn(*old(self), *old(out)).cut_cameras(uid),
    {
        if let Some(clients) = take_row(&mut self.camera_remotes, &(uid as u64)) {
            self.drops(out, &clients);
        }
    }

    /// The uid is gone.
    fn forget_devices(&mut self, out: &mut Vec<Done>, uid: u32)
        ensures
            turn(*final(self), *final(out)) == turn(*old(self), *old(out)).forget(uid),
    {
        broadcast use group_views;

        if let Some(_) = take_row(&mut self.devices, &(uid as u64)) {
            self.show_devices(out);
        }
        let ids = asks_of(&self.asks, uid);
        let ghost start = turn(*self, *out);
        let mut i: usize = 0;
        assert(ids@.take(0) =~= Seq::empty());
        while i < ids.len()
            invariant
                i <= ids@.len(),
                turn(*self, *out) == start.withdraw(ids@.take(i as int)),
            decreases ids@.len() - i,
        {
            broadcast use group_views;

            assert(ids@.take(i + 1).drop_last() =~= ids@.take(i as int));
            let _ = take_row(&mut self.asks, &ids[i]);
            out.push(Act::Ask(Request::Cancel { id: ids[i] }));
            i = i + 1;
        }
        assert(ids@.take(i as int) =~= ids@);
        self.cut_cameras(out, uid);
        out.push(Act::Forget { uid });
    }

    /// No question has these waiting any more: all of a connection, or one request of it.
    fn stop_waiting(&mut self, conn: u64, req: Option<u64>)
        ensures
            final(self)@ == (State {
                asks: asks_without(old(self)@.asks, leaves(conn, req)),
                ..old(self)@
            }),
    {
        broadcast use group_views;

        let ghost before = views(self.asks@);
        let ghost goal = asks_without(before, leaves(conn, req));
        let mut i: usize = 0;
        while i < self.asks.len()
            invariant
                i <= self.asks@.len(),
                self.asks@.len() == before.len(),
                goal == asks_without(before, leaves(conn, req)),
                self@ == (State { asks: self@.asks, ..old(self)@ }),
                forall|j: int| 0 <= j < i ==> (#[trigger] self.asks@[j])@ == goal[j],
                forall|j: int| i <= j < before.len() ==> (#[trigger] self.asks@[j])@ == before[j],
            decreases before.len() - i,
        {
            let ghost was = self.asks@;
            assert(was[i as int]@ == before[i as int]);
            match &mut self.asks[i].1 {
                Asking::Device { waiting, .. } => {
                    let left = unwait(waiting, conn, req);
                    *waiting = left;
                },
                Asking::Pick { .. } => {},
            }
            assert(self.asks@[i as int]@ == goal[i as int]);
            assert forall|j: int| 0 <= j < i implies (#[trigger] self.asks@[j])@ == goal[j] by {
                assert(was[j]@ == goal[j]);
            }
            assert forall|j: int| i < j < before.len() implies (#[trigger] self.asks@[j])@
                == before[j] by {
                assert(was[j]@ == before[j]);
            }
            i = i + 1;
        }
        assert(views(self.asks@) =~= goal);
    }

    /// The person picked a source.
    fn start_cast(&mut self, out: &mut Vec<Done>, conn: u64, session: u64, source: Source<String>)
        requires
            old(self).next_id < u64::MAX,
            old(self).next_token < u64::MAX,
        ensures
            turn(*final(self), *final(out)) == turn(*old(self), *old(out)).start_cast(
                conn,
                session,
                source@,
            ),
    {
        broadcast use group_views;

        let (app, uid) = match value(&self.conns, &conn) {
            Some(c) => (c.app.clone(), c.uid),
            None => return,
        };
        let i = find(&self.sessions, &(conn, session));
        if i >= self.sessions.len() {
            return;
        }
        assert(views(self.sessions@)[i as int] == self.sessions@[i as int]@);
        if !self.has_source(&source) {
            let req = self.sessions[i].1.req;
            let _ = take_row(&mut self.sessions, &(conn, session));
            self.fail(out, conn, req, "that source is gone");
            return;
        }
        self.next_token = self.next_token + 1;
        let mut token = "drv".to_owned();
        token.append(number(self.next_token).as_str());
        self.next_id = self.next_id + 1;
        let cast = self.next_id;
        let cursor = self.sessions[i].1.cursor;
        self.sessions[i].1.ask = None;
        self.sessions[i].1.cast = Some(cast);
        assert(self@.sessions =~= put(
            old(self)@.sessions,
            (conn, session),
            SessionView {
                ask: None,
                cast: Some(cast),
                ..get(old(self)@.sessions, (conn, session))->0
            },
        ));
        set_row(
            &mut self.consents,
            token.clone(),
            Consent { app: app.clone(), uid, source: source.copy() },
        );
        set_row(
            &mut self.casts,
            cast,
            Live { conn, session, app, uid, source: source.copy(), token },
        );
        out.push(Act::Tell(ToCompositor::Start { cast, source, cursor }));
    }

    /// Every cast question shows the new lists.
    fn repick(&self, out: &mut Vec<Done>)
        ensures
            turn(*self, *final(out)) == turn(*self, *old(out)).repick(self@.asks),
    {
        broadcast use group_views;

        let ghost start = turn(*self, *out);
        let ghost all = self@.asks;
        let mut i: usize = 0;
        assert(all.take(0) =~= Seq::empty());
        while i < self.asks.len()
            invariant
                i <= self.asks@.len(),
                all == views(self.asks@),
                turn(*self, *out) == start.repick(all.take(i as int)),
            decreases self.asks@.len() - i,
        {
            broadcast use group_views;

            assert(all.take(i + 1).drop_last() =~= all.take(i as int));
            assert(all[i as int] == self.asks@[i as int]@);
            match &self.asks[i].1 {
                Asking::Pick { conn, screens, windows, .. } => match value(&self.conns, conn) {
                    Some(c) => {
                        let req = self.pick(
                            self.asks[i].0,
                            c.app.as_str(),
                            c.uid,
                            *screens,
                            *windows,
                        );
                        out.push(Act::Ask(req));
                    },
                    None => {},
                },
                _ => {},
            }
            i = i + 1;
        }
        assert(all.take(i as int) =~= all);
    }

    /// The session of a question ends unpicked: the request, if it was still there.
    fn unpick(&mut self, conn: u64, session: u64) -> (r: Option<u64>)
        ensures
            forall|acts: Seq<DoneView>|
                (Turn { state: final(self)@, acts }, r) == #[trigger] unpicked(
                    Turn { state: old(self)@, acts },
                    conn,
                    session,
                ),
    {
        if !holds(&self.conns, &conn) {
            return None;
        }
        match take_row(&mut self.sessions, &(conn, session)) {
            Some(s) => Some(s.req),
            None => None,
        }
    }

    /// An app connected.
    pub fn connected(&mut self, conn: u64, app: String, uid: u32)
        ensures
            final(self)@ == (State {
                conns: put(old(self)@.conns, conn, ConnView { app: app@, uid }),
                ..old(self)@
            }),
    {
        set_row(&mut self.conns, conn, Conn { app, uid });
    }

    /// What an app asks for comes to. `standing` is whether the manifest grants it the camera,
    /// `cameras` whether there is one.
    pub fn app(&mut self, conn: u64, msg: ToCast, standing: bool, cameras: bool) -> (out: Vec<Done>)
        requires
            old(self).next_id < u64::MAX,
        ensures
            turn(*final(self), out) == on_app(old(self)@, conn, msg, standing, cameras),
    {
        broadcast use group_views;

        let mut out: Vec<Done> = Vec::new();
        let (app, uid) = match value(&self.conns, &conn) {
            Some(c) => (c.app.clone(), c.uid),
            None => return out,
        };
        match msg {
            ToCast::Hello { .. } => {},
            ToCast::Cast { req, session, cursor, screens, windows, again } => {
                self.cast(&mut out, conn, app, uid, req, session, cursor, screens, windows, again);
            },
            ToCast::CastRemote { req, session } => {
                let node = match value(&self.sessions, &(conn, session)) {
                    Some(s) => s.node,
                    None => None,
                };
                match node {
                    Some(node) => {
                        let mut mark = "node:".to_owned();
                        mark.append(number(node as u64).as_str());
                        out.push(
                            Act::Remote {
                                conn,
                                req,
                                what: RemoteFor::Session { session, node },
                                mark,
                            },
                        );
                    },
                    None => self.fail(&mut out, conn, req, "the session is not streaming"),
                }
            },
            ToCast::CastClose { session } => self.close_session(&mut out, conn, session, false),
            ToCast::Camera { req } => if self.has(uid, Device::Camera) {
                self.send(&mut out, conn, FromCast::Granted { req });
            } else if standing {
                let waiting = vec![(conn, req)];
                assert(waiting@ =~= seq![(conn, req)]);
                self.grant_device(&mut out, uid, Device::Camera, &waiting, None);
            } else {
                self.ask_device(&mut out, app, uid, Device::Camera, Some((conn, req)));
            },
            ToCast::CameraRemote { req } => if self.has(uid, Device::Camera) {
                out.push(
                    Act::Remote { conn, req, what: RemoteFor::Camera, mark: "camera".to_owned() },
                );
            } else {
                self.fail(&mut out, conn, req, "the camera was not allowed");
            },
            ToCast::CameraPresent { req } => self.send(
                &mut out,
                conn,
                FromCast::Present { req, present: cameras },
            ),
            ToCast::Cancel { req } => match find_waiting(&self.sessions, conn, req) {
                Some(session) => self.close_session(&mut out, conn, session, false),
                None => {
                    self.stop_waiting(conn, Some(req));
                },
            },
        }
        out
    }

    /// An app asks to share a screen or a window.
    fn cast(
        &mut self,
        out: &mut Vec<Done>,
        conn: u64,
        app: String,
        uid: u32,
        req: u64,
        session: u64,
        cursor: Cursor,
        screens: bool,
        windows: bool,
        again: Option<String>,
    )
        requires
            old(self).next_id < u64::MAX,
            get(old(self)@.conns, conn) == Some(ConnView { app: app@, uid }),
            old(out)@.len() == 0,
        ensures
            forall|standing: bool, cameras: bool|
                turn(*final(self), *final(out)) == #[trigger] on_app(
                    old(self)@,
                    conn,
                    ToCast::Cast { req, session, cursor, screens, windows, again },
                    standing,
                    cameras,
                ),
    {
        broadcast use group_views;

        assert(out@ =~= Seq::empty());
        if holds(&self.sessions, &(conn, session)) {
            self.fail(out, conn, req, "the session was started already");
            return;
        }
        out.push(Act::Tell(ToCompositor::Outputs));
        out.push(Act::Tell(ToCompositor::Windows));
        let ghost c = ConnView { app: app@, uid };
        let source: Option<Source<String>> = match &again {
            None => None,
            Some(token) => match value(&self.consents, token) {
                None => None,
                Some(k) => if same_text(k.app.as_str(), app.as_str()) && k.uid == uid
                    && self.has_source(&k.source) {
                    Some(k.source.copy())
                } else {
                    None
                },
            },
        };
        assert(view_opt(source) == standing_source(self@, view_opt(again), c));
        self.next_id = self.next_id + 1;
        let id = self.next_id;
        match (source, again) {
            (Some(source), Some(token)) => {
                set_row(
                    &mut self.casts,
                    id,
                    Live { conn, session, app, uid, source: source.copy(), token },
                );
                out.push(Act::Tell(ToCompositor::Start { cast: id, source, cursor }));
                set_row(
                    &mut self.sessions,
                    (conn, session),
                    Session {
                        req,
                        cursor,
                        ask: None,
                        cast: Some(id),
                        node: None,
                        remotes: Vec::new(),
                    },
                );
            },
            _ => {
                let asked = self.pick(id, app.as_str(), uid, screens, windows);
                set_row(
                    &mut self.sessions,
                    (conn, session),
                    Session {
                        req,
                        cursor,
                        ask: Some(id),
                        cast: None,
                        node: None,
                        remotes: Vec::new(),
                    },
                );
                set_row(&mut self.asks, id, Asking::Pick { conn, session, screens, windows });
                out.push(Act::Ask(asked));
            },
        }
    }

    /// An app's connection went away: its sessions end, its questions come down, and if it was
    /// the last of its uid, what the person allowed it ends too.
    pub fn gone(&mut self, conn: u64) -> (out: Vec<Done>)
        ensures
            turn(*final(self), out) == on_gone(old(self)@, conn),
    {
        broadcast use group_views;

        let mut out: Vec<Done> = Vec::new();
        let uid = match value(&self.conns, &conn) {
            Some(c) => c.uid,
            None => return out,
        };
        let ids = sessions_on(&self.sessions, conn);
        let ghost start = turn(*self, out);
        let mut i: usize = 0;
        assert(ids@.take(0) =~= Seq::empty());
        while i < ids.len()
            invariant
                i <= ids@.len(),
                turn(*self, out) == start.close_all(conn, ids@.take(i as int)),
            decreases ids@.len() - i,
        {
            assert(ids@.take(i + 1).drop_last() =~= ids@.take(i as int));
            self.close_session(&mut out, conn, ids[i], false);
            i = i + 1;
        }
        assert(ids@.take(i as int) =~= ids@);
        let _ = take_row(&mut self.conns, &conn);
        self.stop_waiting(conn, None);
        if !has_conn(&self.conns, uid) {
            self.forget_consents(uid);
            self.forget_devices(&mut out, uid);
        }
        out
    }

    /// What a uid was let share is no longer.
    fn forget_consents(&mut self, uid: u32)
        ensures
            final(self)@ == (State {
                consents: kept(
                    old(self)@.consents,
                    |row: (Seq<char>, ConsentView)| row.1.uid != uid,
                ),
                ..old(self)@
            }),
    {
        broadcast use group_views;

        let ghost all = views(self.consents@);
        let ghost keep = |row: (Seq<char>, ConsentView)| row.1.uid != uid;
        let mut left: Vec<(String, Consent)> = Vec::new();
        let mut i: usize = 0;
        assert(all.take(0) =~= Seq::empty());
        while i < self.consents.len()
            invariant
                i <= self.consents@.len(),
                all == views(self.consents@),
                keep == (|row: (Seq<char>, ConsentView)| row.1.uid != uid),
                views(left@) == kept(all.take(i as int), keep),
            decreases self.consents@.len() - i,
        {
            broadcast use group_views;

            proof {
                lemma_kept_step(all, keep, i as int);
            }
            let (token, k) = &self.consents[i];
            assert(all[i as int] == self.consents@[i as int]@);
            if k.uid != uid {
                left.push(
                    (
                        token.clone(),
                        Consent { app: k.app.clone(), uid: k.uid, source: k.source.copy() },
                    ),
                );
                assert(left@.last()@ == all[i as int]);
            }
            i = i + 1;
        }
        assert(all.take(i as int) =~= all);
        self.consents = left;
    }

    /// What the compositor says comes to.
    pub fn compositor(&mut self, msg: FromCompositor) -> (out: Vec<Done>)
        ensures
            turn(*final(self), out) == on_compositor(old(self)@, msg),
    {
        broadcast use group_views;

        let mut out: Vec<Done> = Vec::new();
        match msg {
            FromCompositor::Hello { .. } => {},
            FromCompositor::Outputs(outputs) => {
                self.outputs = outputs;
                self.repick(&mut out);
            },
            FromCompositor::Windows(windows) => {
                self.windows = windows;
                self.repick(&mut out);
            },
            FromCompositor::Started { cast, node_id, width, height } => {
                let (conn, session, source, token) = match value(&self.casts, &cast) {
                    Some(live) => (
                        live.conn,
                        live.session,
                        live.source.copy(),
                        live.token.clone(),
                    ),
                    None => {
                        out.push(Act::Tell(ToCompositor::Stop { cast }));
                        return out;
                    },
                };
                let i = find(&self.sessions, &(conn, session));
                if holds(&self.conns, &conn) && i < self.sessions.len() {
                    assert(views(self.sessions@)[i as int] == self.sessions@[i as int]@);
                    self.sessions[i].1.node = Some(node_id);
                    let req = self.sessions[i].1.req;
                    self.send(
                        &mut out,
                        conn,
                        FromCast::Cast { req, node_id, source, width, height, token },
                    );
                } else {
                    out.push(Act::Tell(ToCompositor::Stop { cast }));
                }
            },
            FromCompositor::Stopped { cast } => {
                if let Some(live) = take_row(&mut self.casts, &cast) {
                    self.close_session(&mut out, live.conn, live.session, true);
                }
            },
            FromCompositor::Revoke => {
                self.revoke(&mut out);
                self.show_devices(&mut out);
            },
        }
        out
    }

    /// Every device the person allowed is revoked.
    fn revoke(&mut self, out: &mut Vec<Done>)
        ensures
            turn(*final(self), *final(out)) == turn(*old(self), *old(out)).revoke(
                old(self)@.devices.map_values(|row: (u64, HeldView)| row.0),
            ),
    {
        broadcast use group_views;

        let ghost all = self@.devices.map_values(|row: (u64, HeldView)| row.0);
        let mut uids: Vec<u64> = Vec::new();
        let mut i: usize = 0;
        while i < self.devices.len()
            invariant
                i <= self.devices@.len(),
                all == self@.devices.map_values(|row: (u64, HeldView)| row.0),
                uids@ == all.take(i as int),
            decreases self.devices@.len() - i,
        {
            broadcast use group_views;

            assert(all.take(i + 1) =~= all.take(i as int).push(all[i as int]));
            assert(self@.devices[i as int] == self.devices@[i as int]@);
            uids.push(self.devices[i].0);
            i = i + 1;
        }
        assert(all.take(i as int) =~= all);
        let ghost start = turn(*self, *out);
        let mut j: usize = 0;
        assert(uids@.take(0) =~= Seq::empty());
        while j < uids.len()
            invariant
                j <= uids@.len(),
                turn(*self, *out) == start.revoke(uids@.take(j as int)),
            decreases uids@.len() - j,
        {
            broadcast use group_views;

            assert(uids@.take(j + 1).drop_last() =~= uids@.take(j as int));
            let uid = uids[j] as u32;
            let _ = take_row(&mut self.devices, &(uid as u64));
            out.push(Act::Write { uid, kinds: String::new() });
            self.cut_cameras(out, uid);
            j = j + 1;
        }
        assert(uids@.take(j as int) =~= uids@);
    }

    /// What the shell answers comes to. `who` is the name of the app a device is for, where it
    /// has no connection here.
    pub fn shell(&mut self, resp: Response<String>, who: Option<String>) -> (out: Vec<Done>)
        requires
            old(self).next_id < u64::MAX,
            old(self).next_token < u64::MAX,
        ensures
            turn(*final(self), out) == on_shell(old(self)@, resp@, view_opt(who)),
    {
        broadcast use group_views;

        let mut out: Vec<Done> = Vec::new();
        let id = match &resp {
            Response::Hello { .. } => return out,
            Response::Yes { id } => *id,
            Response::Secret { id, .. } => *id,
            Response::Picked { id, .. } => *id,
            Response::Cancelled { id } => *id,
        };
        let asking = match take_row(&mut self.asks, &id) {
            Some(asking) => asking,
            None => return out,
        };
        match asking {
            Asking::Pick { conn, session, .. } => match resp {
                Response::Picked { key, .. } => match parse_key(key.as_str()) {
                    Some(source) => self.start_cast(&mut out, conn, session, source),
                    None => {
                        let req = self.unpick(conn, session);
                        if let Some(req) = req {
                            let mut reason = "the shell picked ".to_owned();
                            reason.append(quote(key.as_str()).as_str());
                            self.fail(&mut out, conn, req, reason.as_str());
                        }
                    },
                },
                _ => {
                    let req = self.unpick(conn, session);
                    if let Some(req) = req {
                        self.send(&mut out, conn, FromCast::Cancelled { req });
                    }
                },
            },
            Asking::Device { uid, device, waiting } => match resp {
                Response::Yes { .. } => self.grant_device(&mut out, uid, device, &waiting, who),
                _ => {
                    out.push(Act::Answered { uid, device });
                    self.tell_all(&mut out, &waiting, false);
                },
            },
        }
        out
    }

    /// WirePlumber has a stream of a uid waiting on a device. `who` is the app's name and
    /// whether the manifest grants it the camera, where the uid is an app.
    pub fn asked(&mut self, uid: u32, device: Device, who: Option<(String, bool)>) -> (out: Vec<Done>)
        requires
            old(self).next_id < u64::MAX,
        ensures
            turn(*final(self), out) == on_pw_asked(
                old(self)@,
                uid,
                device,
                match who {
                    Some((name, camera)) => Some((name@, camera)),
                    None => None,
                },
            ),
    {
        broadcast use group_views;

        let mut out: Vec<Done> = Vec::new();
        match who {
            None => out.push(Act::Answered { uid, device }),
            Some((name, camera)) => if device == Device::Camera && camera {
                let none: Vec<(u64, u64)> = Vec::new();
                self.grant_device(&mut out, uid, device, &none, Some(name));
            } else {
                self.ask_device(&mut out, name, uid, device, None);
            },
        }
        out
    }

    /// The last PipeWire connection of a uid is gone.
    pub fn clients_gone(&mut self, uid: u32) -> (out: Vec<Done>)
        ensures
            turn(*final(self), out) == Turn::start(old(self)@).forget(uid),
    {
        broadcast use group_views;

        let mut out: Vec<Done> = Vec::new();
        self.forget_devices(&mut out, uid);
        out
    }

    /// A connection was made for an app as a PipeWire client, or could not be.
    pub fn remote_made(&mut self, conn: u64, req: u64, what: RemoteFor, made: Result<u32, String>) -> (out: Vec<Done>)
        ensures
            turn(*final(self), out) == on_remote(old(self)@, conn, req, what, made_view(made)),
    {
        broadcast use group_views;

        let mut out: Vec<Done> = Vec::new();
        match made {
            Err(e) => self.fail(&mut out, conn, req, e.as_str()),
            Ok(client) => {
                let uid = match value(&self.conns, &conn) {
                    Some(c) => c.uid,
                    None => {
                        out.push(Act::Drop { client });
                        return out;
                    },
                };
                match what {
                    RemoteFor::Session { session, .. } => {
                        let i = find(&self.sessions, &(conn, session));
                        if i < self.sessions.len() {
                            assert(views(self.sessions@)[i as int] == self.sessions@[i as int]@);
                            self.sessions[i].1.remotes.push(client);
                            out.push(Act::SendRemote { conn, req });
                        } else {
                            out.push(Act::Drop { client });
                        }
                    },
                    RemoteFor::Camera => {
                        let i = find(&self.camera_remotes, &(uid as u64));
                        if i < self.camera_remotes.len() {
                            assert(views(self.camera_remotes@)[i as int]
                                == self.camera_remotes@[i as int]@);
                            self.camera_remotes[i].1.push(client);
                        } else {
                            let clients = vec![client];
                            assert(clients@ =~= Seq::<u32>::empty().push(client));
                            self.camera_remotes.push((uid as u64, clients));
                        }
                        out.push(Act::SendRemote { conn, req });
                    },
                }
            },
        }
        out
    }
}

} // verus!
