//! The app's side of the portals: a D-Bus service on the app's private bus. It answers what it
//! can itself, and turns the rest into requests to the trusted side. Calls come in as plain
//! values; what goes out is a list of replies, signals and requests, in order.
use vstd::prelude::*;
use vstd::string::*;

use crate::bridge::bus::{
    file_uri, handle_of, handle_path, is_object_path, object_path, uri_of, INVALID_PATH,
    NOTIFICATIONS_NAME, NOTIFICATIONS_PATH, PORTAL_PATH,
};
use crate::bridge::wire::{Cursor, Source, ToServer, ToShim};
use crate::names::Names;
use crate::table::{lemma_put, put, Table};
use crate::text::{chars_of, decimal, number, same_text, string_of, strip_front};
use crate::views::{group_views, view_opt, views};

verus! {

pub const FILE_CHOOSER: &'static str = "org.freedesktop.portal.FileChooser";

pub const FILE_CHOOSER_VERSION: u32 = 4;

pub const SCREEN_CAST: &'static str = "org.freedesktop.portal.ScreenCast";

pub const SCREEN_CAST_VERSION: u32 = 4;

pub const REQUEST_IFACE: &'static str = "org.freedesktop.portal.Request";

pub const SESSION_IFACE: &'static str = "org.freedesktop.portal.Session";

pub const PROPERTIES: &'static str = "org.freedesktop.DBus.Properties";

pub const SETTINGS: &'static str = "org.freedesktop.portal.Settings";

pub const SETTINGS_VERSION: u32 = 2;

pub const CAMERA: &'static str = "org.freedesktop.portal.Camera";

pub const CAMERA_VERSION: u32 = 1;

/// `OpenURI` only: version 1 has neither `OpenFile` nor `OpenDirectory`.
pub const OPEN_URI: &'static str = "org.freedesktop.portal.OpenURI";

pub const OPEN_URI_VERSION: u32 = 1;

/// `AvailableSourceTypes`: monitors and windows.
pub const SOURCE_TYPES: u32 = 3;

/// `AvailableCursorModes`: hidden, embedded, metadata.
pub const CURSOR_MODES: u32 = 7;

pub const UNKNOWN_METHOD: &'static str = "org.freedesktop.DBus.Error.UnknownMethod";

pub const UNKNOWN_OBJECT: &'static str = "org.freedesktop.DBus.Error.UnknownObject";

pub const INVALID_ARGS: &'static str = "org.freedesktop.DBus.Error.InvalidArgs";

pub const NOT_FOUND: &'static str = "org.freedesktop.portal.Error.NotFound";

pub const FAILED: &'static str = "org.freedesktop.DBus.Error.Failed";

pub const APPEARANCE: &'static str = "org.freedesktop.appearance";

/// Who stands behind the shim: the bridge, with one line for everything, or the services,
/// each with a line of its own.
#[derive(Clone, Copy, Debug, PartialEq, Eq, Structural)]
pub enum Side {
    Bridge,
    Services,
}

/// Which service a request went to.
#[derive(Clone, Copy, Debug, PartialEq, Eq, Structural)]
pub enum Where {
    Files,
    Cast,
}

/// A screencast session, from `CreateSession` to `Close` or the cast's end.
#[derive(Debug)]
pub struct Session {
    /// Our number for it.
    pub id: u64,
    /// The unique name of the app-side connection that made it: `Closed` goes there.
    pub caller: String,
    pub cursor: Cursor,
    pub screens: bool,
    pub windows: bool,
    /// The app asked for a restore token; it gets one that lasts while it runs.
    pub persist: bool,
    /// The token the app gave back, for the same source with no dialog.
    pub again: Option<String>,
    pub started: bool,
}

/// Who hears an answer. `T` is text.
#[derive(Debug)]
pub enum Waiter<T> {
    Choose { handle: T, caller: T },
    Start { handle: T, caller: T, persist: bool },
    Camera { handle: T, caller: T },
    Open { handle: T, caller: T },
    Remote { to: u64 },
    Notify { to: u64 },
    /// The camera's properties, or one of them.
    CameraProperties { to: u64, property: Option<T> },
}

impl View for Waiter<String> {
    type V = Waiter<Seq<char>>;

    open spec fn view(&self) -> Waiter<Seq<char>> {
        match *self {
            Waiter::Choose { handle, caller } => Waiter::Choose {
                handle: handle@,
                caller: caller@,
            },
            Waiter::Start { handle, caller, persist } => Waiter::Start {
                handle: handle@,
                caller: caller@,
                persist,
            },
            Waiter::Camera { handle, caller } => Waiter::Camera {
                handle: handle@,
                caller: caller@,
            },
            Waiter::Open { handle, caller } => Waiter::Open { handle: handle@, caller: caller@ },
            Waiter::Remote { to } => Waiter::Remote { to },
            Waiter::Notify { to } => Waiter::Notify { to },
            Waiter::CameraProperties { to, property } => Waiter::CameraProperties {
                to,
                property: view_opt(property),
            },
        }
    }
}

/// A call of the app: who makes it, its serial number, and where its reply goes.
#[derive(Debug)]
pub struct Call {
    pub caller: Option<String>,
    pub serial: u32,
    pub ticket: u64,
}

/// The options of a call that matter here, those of the right type.
#[derive(Debug)]
pub struct Options {
    pub handle_token: Option<String>,
    pub session_handle_token: Option<String>,
    pub cursor_mode: Option<u32>,
    pub persist_mode: Option<u32>,
    pub restore_token: Option<String>,
    pub types: Option<u32>,
    pub directory: Option<bool>,
    pub current_name: Option<String>,
}

/// A property's value.
#[derive(Clone, Copy, Debug, PartialEq, Eq, Structural)]
pub enum Prop {
    Number(u32),
    Flag(bool),
}

impl View for Prop {
    type V = Prop;

    open spec fn view(&self) -> Prop {
        *self
    }
}

/// What a reply holds. `T` is text, `L` a list of texts, `P` a list of named values.
#[derive(Debug)]
pub enum Body<T, L, P> {
    Nothing,
    Handle(T),
    Number(u32),
    /// The fd that came with the answer.
    Fd,
    Texts(L),
    /// Who the notification server is.
    Server(T),
    /// A value, in a second variant where it is `nested`.
    Value { value: Prop, nested: bool },
    Values(P),
    /// The settings of one namespace.
    Settings { namespace: T, values: P },
}

/// What a `Response` signal holds.
#[derive(Debug)]
pub enum Results<T, L> {
    Nothing,
    SessionHandle(T),
    Uris(L),
    /// One stream, and the token for the same source again, where it was asked for.
    Stream {
        node_id: u32,
        source_type: u32,
        id: T,
        width: i32,
        height: i32,
        restore: Option<T>,
    },
}

/// What the shim does, in order.
#[derive(Debug)]
pub enum Out<T, L, P> {
    /// The reply to a call.
    Reply { to: u64, body: Body<T, L, P> },
    /// The error a call is answered with.
    Error { to: u64, name: T, text: T },
    /// The portal's `Response` signal on a request handle.
    Response { handle: T, caller: T, code: u32, results: Results<T, L> },
    /// The session's `Closed` signal.
    Closed { path: T, caller: T },
    /// A request whose answer is waited for under its number; one that cannot be sent is
    /// `unsent`.
    Ask { to: u64, msg: ToServer<T> },
    /// A message without an answer; the call waits until it was sent, or could not be.
    Tell { to: u64, msg: ToServer<T> },
    /// A request that waits at a service is withdrawn; the call waits as for `Tell`.
    Withdraw { to: u64, at: Where, req: u64 },
    /// A notification is taken down; the call waits as for `Tell`.
    CloseNote { to: u64, id: u32 },
    /// A URI is opened by its manifest handler; what came of it answers the handle.
    OpenUri { handle: T, caller: T, uri: T },
}

pub type Sent = Out<String, Vec<String>, Vec<(String, Prop)>>;

pub type OutView = Out<Seq<char>, Seq<Seq<char>>, Seq<(Seq<char>, Prop)>>;

pub type BodyView = Body<Seq<char>, Seq<Seq<char>>, Seq<(Seq<char>, Prop)>>;

pub type ResultsView = Results<Seq<char>, Seq<Seq<char>>>;

impl View for Body<String, Vec<String>, Vec<(String, Prop)>> {
    type V = BodyView;

    open spec fn view(&self) -> BodyView {
        match *self {
            Body::Nothing => Body::Nothing,
            Body::Handle(path) => Body::Handle(path@),
            Body::Number(n) => Body::Number(n),
            Body::Fd => Body::Fd,
            Body::Texts(list) => Body::Texts(views(list@)),
            Body::Server(name) => Body::Server(name@),
            Body::Value { value, nested } => Body::Value { value, nested },
            Body::Values(list) => Body::Values(views(list@)),
            Body::Settings { namespace, values } => Body::Settings {
                namespace: namespace@,
                values: views(values@),
            },
        }
    }
}

impl View for Results<String, Vec<String>> {
    type V = ResultsView;

    open spec fn view(&self) -> ResultsView {
        match *self {
            Results::Nothing => Results::Nothing,
            Results::SessionHandle(path) => Results::SessionHandle(path@),
            Results::Uris(list) => Results::Uris(views(list@)),
            Results::Stream { node_id, source_type, id, width, height, restore } => Results::Stream {
                node_id,
                source_type,
                id: id@,
                width,
                height,
                restore: view_opt(restore),
            },
        }
    }
}

impl View for Out<String, Vec<String>, Vec<(String, Prop)>> {
    type V = OutView;

    open spec fn view(&self) -> OutView {
        match *self {
            Out::Reply { to, body } => Out::Reply { to, body: body@ },
            Out::Error { to, name, text } => Out::Error { to, name: name@, text: text@ },
            Out::Response { handle, caller, code, results } => Out::Response {
                handle: handle@,
                caller: caller@,
                code,
                results: results@,
            },
            Out::Closed { path, caller } => Out::Closed { path: path@, caller: caller@ },
            Out::Ask { to, msg } => Out::Ask { to, msg: msg@ },
            Out::Tell { to, msg } => Out::Tell { to, msg: msg@ },
            Out::Withdraw { to, at, req } => Out::Withdraw { to, at, req },
            Out::CloseNote { to, id } => Out::CloseNote { to, id },
            Out::OpenUri { handle, caller, uri } => Out::OpenUri {
                handle: handle@,
                caller: caller@,
                uri: uri@,
            },
        }
    }
}

/// The shim on an app's bus.
#[derive(Debug)]
pub struct Shim {
    pub side: Side,
    /// The next number we give.
    pub next: u64,
    /// Request handles still waiting on the person, by path.
    pub handles: Names<(Where, u64)>,
    /// Sessions by their path.
    pub sessions: Names<Session>,
    /// Answers find their asker here.
    pub waiting: Table<Waiter<String>>,
    /// The camera was allowed this run.
    pub camera: bool,
}

/// The number after `n`.
pub open spec fn after(n: u64) -> u64 {
    if n == u64::MAX {
        0
    } else {
        (n + 1) as u64
    }
}

/// The token of a call's handle: the app's, or one made of the call's serial number.
pub open spec fn token(given: Option<String>, serial: u32) -> Seq<char> {
    match given {
        Some(t) => t@,
        None => "drv"@ + decimal(serial as nat),
    }
}

/// The request handle of a call.
pub open spec fn request_handle(call: Call, options: Options) -> Seq<char> {
    handle_path(false, call.caller->0@, token(options.handle_token, call.serial))
}

/// The session handle of a call.
pub open spec fn session_handle(call: Call, options: Options) -> Seq<char> {
    handle_path(true, call.caller->0@, token(options.session_handle_token, call.serial))
}

/// The request handle of a call can be handed out.
pub open spec fn has_handle(call: Call, options: Options) -> bool {
    is_object_path(request_handle(call, options))
}

/// One error.
pub open spec fn error_of(to: u64, name: Seq<char>, text: Seq<char>) -> Seq<OutView> {
    seq![Out::Error { to, name, text }]
}

/// A call that fails.
pub open spec fn fails(to: u64, text: Seq<char>) -> Seq<OutView> {
    error_of(to, FAILED@, text)
}

/// The reply with a handle.
pub open spec fn handle_reply(to: u64, handle: Seq<char>) -> OutView {
    Out::Reply { to, body: Body::Handle(handle) }
}

/// The `Response` signal.
pub open spec fn response(handle: Seq<char>, caller: Seq<char>, code: u32, results: ResultsView) -> OutView {
    Out::Response { handle, caller, code, results }
}

fn error(to: u64, name: &str, text: String) -> (r: Vec<Sent>)
    ensures
        views(r@) == error_of(to, name@, text@),
{
    broadcast use group_views;

    let mut out: Vec<Sent> = Vec::new();
    out.push(Out::Error { to, name: name.to_owned(), text });
    assert(views(out@) =~= error_of(to, name@, text@));
    out
}

fn failed(to: u64, text: String) -> (r: Vec<Sent>)
    ensures
        views(r@) == fails(to, text@),
{
    error(to, FAILED, text)
}

fn handle_for(call: &Call, given: &Option<String>, session: bool) -> (r: String)
    requires
        call.caller is Some,
    ensures
        r@ == handle_path(session, call.caller->0@, token(*given, call.serial)),
{
    match &call.caller {
        Some(caller) => match given {
            Some(t) => handle_of(session, caller.as_str(), t.as_str()),
            None => {
                let mut t = "drv".to_owned();
                t.append(number(call.serial as u64).as_str());
                handle_of(session, caller.as_str(), t.as_str())
            },
        },
        None => String::new(),
    }
}

fn opt_copy(o: &Option<String>) -> (r: Option<String>)
    ensures
        r == *o,
{
    match o {
        Some(s) => Some(s.clone()),
        None => None,
    }
}

/// The pointer an app asks for.
pub open spec fn cursor_of(mode: Option<u32>) -> Cursor {
    if mode == Some(1u32) {
        Cursor::Hidden
    } else if mode == Some(4u32) {
        Cursor::Metadata
    } else {
        Cursor::Embedded
    }
}

/// The app will take windows: bit 2 of the types, of which monitors are the default.
pub open spec fn takes_windows(types: Option<u32>) -> bool {
    let t = match types {
        Some(t) => t,
        None => 1u32,
    };
    (t / 2) % 2 == 1
}

/// The app will take screens: bit 1, or nothing else that there is.
pub open spec fn takes_screens(types: Option<u32>) -> bool {
    let t = match types {
        Some(t) => t,
        None => 1u32,
    };
    t % 2 == 1 || !takes_windows(types)
}

/// A session with the sources and the pointer an app selected.
pub open spec fn selected(s: Session, options: Options) -> Session {
    Session {
        id: s.id,
        caller: s.caller,
        cursor: cursor_of(options.cursor_mode),
        screens: takes_screens(options.types),
        windows: takes_windows(options.types),
        persist: options.persist_mode is Some && options.persist_mode->0 != 0,
        again: options.restore_token,
        started: s.started,
    }
}

/// A session that was started.
pub open spec fn begun(s: Session) -> Session {
    Session { started: true, ..s }
}

/// The request that starts a session's cast.
pub open spec fn cast_request(req: u64, s: Session) -> ToServer<Seq<char>> {
    ToServer::Cast {
        req,
        session: s.id,
        cursor: s.cursor,
        screens: s.screens,
        windows: s.windows,
        again: view_opt(s.again),
    }
}

/// The parts of the shim that a call leaves alone.
pub open spec fn same_but(a: Shim, b: Shim, next: bool, handles: bool, sessions: bool, waiting: bool) -> bool {
    &&& a.side == b.side
    &&& a.camera == b.camera
    &&& next || a.next == b.next
    &&& handles || a.handles == b.handles
    &&& sessions || a.sessions == b.sessions
    &&& waiting || a.waiting == b.waiting
}

/// What `CreateSession` does to the shim, and what goes out.
pub open spec fn created(
    before: Shim,
    now: Shim,
    call: Call,
    options: Options,
    out: Seq<OutView>,
) -> bool {
    match call.caller {
        None => now == before && out == fails(
            call.ticket,
            "no sender"@,
        ),
        Some(caller) => {
            &&& same_but(now, before, true, false, true, false)
            &&& now.next == after(before.next)
            &&& now.sessions@ == before.sessions@.insert(
                session_handle(call, options),
                Session {
                    id: before.next,
                    caller,
                    cursor: Cursor::Embedded,
                    screens: true,
                    windows: false,
                    persist: false,
                    again: None,
                    started: false,
                },
            )
            &&& out == if has_handle(call, options) {
                seq![
                    handle_reply(call.ticket, request_handle(call, options)),
                    response(
                        request_handle(call, options),
                        caller@,
                        0,
                        Results::SessionHandle(session_handle(call, options)),
                    ),
                ]
            } else {
                fails(call.ticket, INVALID_PATH@)
            }
        },
    }
}

/// What `SelectSources` does to the shim, and what goes out.
pub open spec fn chosen(
    before: Shim,
    now: Shim,
    call: Call,
    session: Seq<char>,
    options: Options,
    out: Seq<OutView>,
) -> bool {
    if call.caller is None {
        now == before && out == fails(call.ticket, "no sender"@)
    } else if !before.sessions@.contains_key(session) {
        now == before && out == fails(call.ticket, "no such session"@)
    } else {
        &&& same_but(now, before, false, false, true, false)
        &&& now.sessions@ == before.sessions@.insert(
            session,
            selected(before.sessions@[session], options),
        )
        &&& out == if has_handle(call, options) {
            seq![
                handle_reply(call.ticket, request_handle(call, options)),
                response(
                    request_handle(call, options),
                    call.caller->0@,
                    0,
                    Results::Nothing,
                ),
            ]
        } else {
            fails(call.ticket, INVALID_PATH@)
        }
    }
}

/// What `Start` does to the shim, and what goes out.
pub open spec fn begins(
    before: Shim,
    now: Shim,
    call: Call,
    session: Seq<char>,
    options: Options,
    line: Option<String>,
    out: Seq<OutView>,
) -> bool {
    &&& if call.caller is None {
        now == before && out == fails(call.ticket, "no sender"@)
    } else if !before.sessions@.contains_key(session) {
        &&& same_but(now, before, before.side is Services, false, false, false)
        &&& out == fails(call.ticket, "no such session"@)
    } else if before.sessions@[session].started {
        &&& same_but(now, before, before.side is Services, false, false, false)
        &&& out == fails(call.ticket, "the session was started already"@)
    } else {
        &&& now.sessions@ == before.sessions@.insert(
            session,
            begun(before.sessions@[session]),
        )
        &&& now.next == after(before.next)
        &&& match line {
            Some(err) => {
                &&& same_but(now, before, true, false, true, false)
                &&& out == fails(call.ticket, err@)
            },
            None => if !has_handle(call, options) {
                &&& same_but(now, before, true, false, true, false)
                &&& out == fails(call.ticket, INVALID_PATH@)
            } else {
                &&& same_but(now, before, true, true, true, true)
                &&& now.handles@ == before.handles@.insert(
                    request_handle(call, options),
                    (Where::Cast, before.next),
                )
                &&& put(
                    before.waiting@,
                    now.waiting@,
                    before.next,
                    Waiter::Start {
                        handle: request_handle(call, options),
                        caller: call.caller->0@,
                        persist: before.sessions@[session].persist,
                    },
                )
                &&& out == seq![
                    handle_reply(call.ticket, request_handle(call, options)),
                    Out::Ask {
                        to: call.ticket,
                        msg: cast_request(before.next, before.sessions@[session]),
                    },
                ]
            },
        }
    }
    &&& before.side is Services && call.caller is Some ==> now.next == after(before.next)
}

/// What a call on a session's object does to the shim, and what goes out.
pub open spec fn called(
    before: Shim,
    now: Shim,
    call: Call,
    path: Seq<char>,
    member: Seq<char>,
    line: Option<String>,
    out: Seq<OutView>,
) -> bool {
    if !before.sessions@.contains_key(path) {
        now == before && out == error_of(
            call.ticket,
            UNKNOWN_OBJECT@,
            "no such session"@,
        )
    } else if member != "Close"@ {
        now == before && out == fails(
            call.ticket,
            no_member(member, SESSION_IFACE@),
        )
    } else {
        &&& same_but(now, before, false, false, true, false)
        &&& now.sessions@ == before.sessions@.remove(path)
        &&& out == match line {
            Some(err) => fails(call.ticket, err@),
            None => seq![
                OutView::Tell {
                    to: call.ticket,
                    msg: ToServer::CastClose { session: before.sessions@[path].id },
                },
            ],
        }
    }
}

impl Shim {
    pub open spec fn wf(&self) -> bool {
        self.handles.wf() && self.sessions.wf() && self.waiting.wf()
    }

    /// A shim that nobody called yet.
    pub fn new(side: Side) -> (r: Shim)
        ensures
            r.wf(),
            r.side == side,
            r.next == 1,
            r.handles@ == Map::<Seq<char>, (Where, u64)>::empty(),
            r.sessions@ == Map::<Seq<char>, Session>::empty(),
            r.waiting@ == Map::<u64, Waiter<String>>::empty(),
            !r.camera,
    {
        Shim {
            side,
            next: 1,
            handles: Names::new(),
            sessions: Names::new(),
            waiting: Table::new(),
            camera: false,
        }
    }

    fn number(&mut self) -> (r: u64)
        ensures
            r == old(self).next,
            final(self).next == after(old(self).next),
            same_but(*final(self), *old(self), true, false, false, false),
    {
        let n = self.next;
        self.next = n.wrapping_add(1);
        n
    }

    /// `CreateSession`: the session is ours; nothing is asked yet.
    pub fn create_session(&mut self, call: &Call, options: &Options) -> (r: Vec<Sent>)
        requires
            old(self).wf(),
        ensures
            final(self).wf(),
            created(*old(self), *final(self), *call, *options, views(r@)),
    {
        broadcast use group_views;

        match &call.caller {
            None => failed(call.ticket, "no sender".to_owned()),
            Some(caller) => {
                let handle = handle_for(call, &options.handle_token, false);
                let session = handle_for(call, &options.session_handle_token, true);
                let id = self.number();
                self.sessions.insert(
                    session.clone(),
                    Session {
                        id,
                        caller: caller.clone(),
                        cursor: Cursor::Embedded,
                        screens: true,
                        windows: false,
                        persist: false,
                        again: None,
                        started: false,
                    },
                );
                if let Err(err) = object_path(handle.as_str()) {
                    return failed(call.ticket, err);
                }
                let mut out: Vec<Sent> = Vec::new();
                out.push(Out::Reply { to: call.ticket, body: Body::Handle(handle.clone()) });
                out.push(
                    Out::Response {
                        handle,
                        caller: caller.clone(),
                        code: 0,
                        results: Results::SessionHandle(session),
                    },
                );
                assert(views(out@) =~= seq![
                    handle_reply(call.ticket, request_handle(*call, *options)),
                    response(
                        request_handle(*call, *options),
                        caller@,
                        0,
                        Results::SessionHandle(session_handle(*call, *options)),
                    ),
                ]);
                out
            },
        }
    }

    /// `SelectSources`: what the app will take, and how it wants the pointer.
    pub fn select_sources(&mut self, call: &Call, session: &str, options: &Options) -> (r: Vec<
        Sent,
    >)
        requires
            old(self).wf(),
        ensures
            final(self).wf(),
            chosen(*old(self), *final(self), *call, session@, *options, views(r@)),
    {
        broadcast use group_views;

        let caller = match &call.caller {
            None => return failed(call.ticket, "no sender".to_owned()),
            Some(caller) => caller,
        };
        let cursor = match options.cursor_mode {
            Some(1) => Cursor::Hidden,
            Some(4) => Cursor::Metadata,
            _ => Cursor::Embedded,
        };
        let persist = match options.persist_mode {
            Some(mode) => mode != 0,
            None => false,
        };
        let types: u32 = match options.types {
            Some(t) => t,
            None => 1,
        };
        let windows = (types / 2) % 2 == 1;
        let screens = types % 2 == 1 || !windows;
        let changed = match self.sessions.get(session) {
            None => return failed(call.ticket, "no such session".to_owned()),
            Some(s) => Session {
                id: s.id,
                caller: s.caller.clone(),
                cursor,
                screens,
                windows,
                persist,
                again: opt_copy(&options.restore_token),
                started: s.started,
            },
        };
        assert(changed == selected(old(self).sessions@[session@], *options));
        self.sessions.insert(session.to_owned(), changed);
        let handle = handle_for(call, &options.handle_token, false);
        if let Err(err) = object_path(handle.as_str()) {
            return failed(call.ticket, err);
        }
        let mut out: Vec<Sent> = Vec::new();
        out.push(Out::Reply { to: call.ticket, body: Body::Handle(handle.clone()) });
        out.push(
            Out::Response { handle, caller: caller.clone(), code: 0, results: Results::Nothing },
        );
        assert(views(out@) =~= seq![
            handle_reply(call.ticket, request_handle(*call, *options)),
            response(request_handle(*call, *options), caller@, 0, Results::Nothing),
        ]);
        out
    }

    /// `Start`: the person is asked. `line` is why the line to ask on could not be had.
    pub fn start(&mut self, call: &Call, session: &str, options: &Options, line: Option<String>) -> (r:
        Vec<Sent>)
        requires
            old(self).wf(),
        ensures
            final(self).wf(),
            begins(*old(self), *final(self), *call, session@, *options, line, views(r@)),
    {
        broadcast use group_views;

        let caller = match &call.caller {
            None => return failed(call.ticket, "no sender".to_owned()),
            Some(caller) => caller,
        };
        let mut req: u64 = self.next;
        if let Side::Services = self.side {
            req = self.number();
        }
        let (ask, changed, persist) = match self.sessions.get(session) {
            None => return failed(call.ticket, "no such session".to_owned()),
            Some(s) => {
                if s.started {
                    return failed(call.ticket, "the session was started already".to_owned());
                }
                let ask: ToServer<String> = ToServer::Cast {
                    req,
                    session: s.id,
                    cursor: s.cursor,
                    screens: s.screens,
                    windows: s.windows,
                    again: opt_copy(&s.again),
                };
                let changed = Session {
                    id: s.id,
                    caller: s.caller.clone(),
                    cursor: s.cursor,
                    screens: s.screens,
                    windows: s.windows,
                    persist: s.persist,
                    again: opt_copy(&s.again),
                    started: true,
                };
                (ask, changed, s.persist)
            },
        };
        assert(changed == begun(old(self).sessions@[session@]));
        self.sessions.insert(session.to_owned(), changed);
        if let Side::Bridge = self.side {
            req = self.number();
        }
        if let Some(err) = line {
            return failed(call.ticket, err);
        }
        let handle = handle_for(call, &options.handle_token, false);
        if let Err(err) = object_path(handle.as_str()) {
            return failed(call.ticket, err);
        }
        self.handles.insert(handle.clone(), (Where::Cast, req));
        broadcast use lemma_put;

        self.waiting.insert(
            req,
            Waiter::Start { handle: handle.clone(), caller: caller.clone(), persist },
        );
        let mut out: Vec<Sent> = Vec::new();
        out.push(Out::Reply { to: call.ticket, body: Body::Handle(handle) });
        out.push(Out::Ask { to: call.ticket, msg: ask });
        assert(views(out@) =~= seq![
            handle_reply(call.ticket, request_handle(*call, *options)),
            Out::Ask {
                to: call.ticket,
                msg: cast_request(old(self).next, old(self).sessions@[session@]),
            },
        ]);
        out
    }
}

/// The paths of an answer as URIs.
pub open spec fn uris_of(paths: Seq<Seq<char>>) -> Seq<Seq<char>> {
    paths.map_values(|p: Seq<char>| uri_of(p))
}

/// The kind of a source as the portal numbers them.
pub open spec fn source_type(source: Source<String>) -> u32 {
    match source {
        Source::Screen(_) => 1,
        Source::Window(_) => 2,
    }
}

/// A source by its name.
pub open spec fn source_name(source: Source<String>) -> Seq<char> {
    match source {
        Source::Screen(name) => name@,
        Source::Window(id) => decimal(id as nat),
    }
}

/// The camera's properties.
pub open spec fn camera_props(present: bool) -> Seq<(Seq<char>, Prop)> {
    seq![
        ("version"@, Prop::Number(CAMERA_VERSION)),
        ("IsCameraPresent"@, Prop::Flag(present)),
    ]
}

/// The first value under a name.
pub open spec fn prop_named(props: Seq<(Seq<char>, Prop)>, name: Seq<char>) -> Option<Prop>
    decreases props.len(),
{
    if props.len() == 0 {
        None
    } else if props[0].0 == name {
        Some(props[0].1)
    } else {
        prop_named(props.skip(1), name)
    }
}

/// The reply to a question about properties: one of them, or all.
pub open spec fn props_reply(
    to: u64,
    props: Seq<(Seq<char>, Prop)>,
    iface: Seq<char>,
    property: Option<Seq<char>>,
) -> OutView {
    match property {
        None => Out::Reply { to, body: Body::Values(props) },
        Some(name) => match prop_named(props, name) {
            Some(value) => Out::Reply { to, body: Body::Value { value, nested: false } },
            None => Out::Error {
                to,
                name: INVALID_ARGS@,
                text: "no property "@ + name + " on "@ + iface,
            },
        },
    }
}

/// What an answer comes to for who waits for it. `fd` is whether one came with it, `shown` how
/// it is shown in an error.
pub open spec fn heard(w: Waiter<Seq<char>>, msg: ToShim, fd: bool, shown: Seq<char>) -> OutView {
    match w {
        Waiter::Choose { handle, caller } => match msg {
            ToShim::Files { paths, .. } => response(
                handle,
                caller,
                0,
                Results::Uris(uris_of(views(paths@))),
            ),
            ToShim::Cancelled { .. } => response(handle, caller, 1, Results::Nothing),
            _ => response(handle, caller, 2, Results::Nothing),
        },
        Waiter::Start { handle, caller, persist } => match msg {
            ToShim::Cast { node_id, source, width, height, token, .. } => response(
                handle,
                caller,
                0,
                Results::Stream {
                    node_id,
                    source_type: source_type(source),
                    id: source_name(source),
                    width,
                    height,
                    restore: if persist {
                        Some(token@)
                    } else {
                        None
                    },
                },
            ),
            ToShim::Cancelled { .. } => response(handle, caller, 1, Results::Nothing),
            _ => response(handle, caller, 2, Results::Nothing),
        },
        Waiter::Camera { handle, caller } => match msg {
            ToShim::Granted { .. } => response(handle, caller, 0, Results::Nothing),
            ToShim::Cancelled { .. } => response(handle, caller, 1, Results::Nothing),
            _ => response(handle, caller, 2, Results::Nothing),
        },
        Waiter::Open { handle, caller } => match msg {
            ToShim::Done { .. } => response(handle, caller, 0, Results::Nothing),
            _ => response(handle, caller, 2, Results::Nothing),
        },
        Waiter::Remote { to } => match msg {
            ToShim::Remote { .. } => if fd {
                Out::Reply { to, body: Body::Fd }
            } else {
                Out::Error { to, name: FAILED@, text: "no remote: "@ + shown }
            },
            ToShim::Failed { reason, .. } => Out::Error { to, name: FAILED@, text: reason@ },
            _ => Out::Error { to, name: FAILED@, text: "no remote: "@ + shown },
        },
        Waiter::Notify { to } => match msg {
            ToShim::Notified { id, .. } => Out::Reply { to, body: Body::Number(id) },
            ToShim::Failed { reason, .. } => Out::Error { to, name: FAILED@, text: reason@ },
            _ => Out::Error { to, name: FAILED@, text: shown },
        },
        Waiter::CameraProperties { to, property } => props_reply(
            to,
            camera_props(
                match msg {
                    ToShim::Present { present, .. } => present,
                    _ => false,
                },
            ),
            CAMERA@,
            property,
        ),
    }
}

/// The handle an answer closes, where it closes one.
pub open spec fn closes(w: Waiter<Seq<char>>) -> Option<Seq<char>> {
    match w {
        Waiter::Choose { handle, .. } => Some(handle),
        Waiter::Start { handle, .. } => Some(handle),
        _ => None,
    }
}

fn uri_list(paths: &Vec<String>) -> (r: Vec<String>)
    ensures
        views(r@) == uris_of(views(paths@)),
{
    broadcast use group_views;

    let ghost all = views(paths@);
    let mut out: Vec<String> = Vec::new();
    let mut i: usize = 0;
    assert(uris_of(all.take(0)) =~= Seq::<Seq<char>>::empty());
    while i < paths.len()
        invariant
            i <= paths@.len(),
            all == views(paths@),
            views(out@) == uris_of(all.take(i as int)),
        decreases paths@.len() - i,
    {
        out.push(file_uri(paths[i].as_str()));
        assert(all[i as int] == paths@[i as int]@);
        assert(uris_of(all.take(i + 1)) =~= uris_of(all.take(i as int)).push(
            uri_of(all[i as int]),
        ));
        i = i + 1;
    }
    assert(all.take(i as int) =~= all);
    out
}

fn reply_props(to: u64, props: Vec<(String, Prop)>, iface: &str, property: &Option<String>) -> (r:
    Sent)
    ensures
        r@ == props_reply(to, views(props@), iface@, view_opt(*property)),
{
    broadcast use group_views;

    match property {
        None => Out::Reply { to, body: Body::Values(props) },
        Some(name) => {
            let ghost all = views(props@);
            let mut i: usize = 0;
            assert(all.skip(0) =~= all);
            while i < props.len()
                invariant
                    i <= props@.len(),
                    all == views(props@),
                    *property == Some(*name),
                    prop_named(all, name@) == prop_named(all.skip(i as int), name@),
                decreases props@.len() - i,
            {
                assert(all.skip(i as int)[0] == props@[i as int]@);
                if same_text(props[i].0.as_str(), name.as_str()) {
                    return Out::Reply {
                        to,
                        body: Body::Value { value: props[i].1, nested: false },
                    };
                }
                assert(all.skip(i as int).skip(1) =~= all.skip(i + 1));
                i = i + 1;
            }
            let mut text = "no property ".to_owned();
            text.append(name.as_str());
            text.append(" on ");
            text.append(iface);
            Out::Error { to, name: INVALID_ARGS.to_owned(), text }
        },
    }
}

fn number_prop(name: &str, n: u32) -> (r: (String, Prop))
    ensures
        r@ == (name@, Prop::Number(n)),
{
    (name.to_owned(), Prop::Number(n))
}

fn camera_prop_list(present: bool) -> (r: Vec<(String, Prop)>)
    ensures
        views(r@) == camera_props(present),
{
    broadcast use group_views;

    let list: Vec<(String, Prop)> = vec![
        number_prop("version", CAMERA_VERSION),
        ("IsCameraPresent".to_owned(), Prop::Flag(present)),
    ];
    assert(views(list@) =~= camera_props(present));
    list
}

fn signal(handle: String, caller: String, code: u32, results: Results<String, Vec<String>>) -> (r:
    Sent)
    ensures
        r@ == response(handle@, caller@, code, results@),
{
    Out::Response { handle, caller, code, results }
}

fn fail_one(to: u64, text: String) -> (r: Sent)
    ensures
        r@ == (OutView::Error { to, name: FAILED@, text: text@ }),
{
    Out::Error { to, name: FAILED.to_owned(), text }
}

fn no_remote(to: u64, shown: &str) -> (r: Sent)
    ensures
        r@ == (OutView::Error { to, name: FAILED@, text: "no remote: "@ + shown@ }),
{
    let mut text = "no remote: ".to_owned();
    text.append(shown);
    fail_one(to, text)
}

/// What an answer comes to for who waits for it.
fn hear(w: Waiter<String>, msg: ToShim, fd: bool, shown: &str) -> (r: Sent)
    ensures
        r@ == heard(w@, msg, fd, shown@),
{
    match w {
        Waiter::Choose { handle, caller } => match msg {
            ToShim::Files { paths, .. } => signal(
                handle,
                caller,
                0,
                Results::Uris(uri_list(&paths)),
            ),
            ToShim::Cancelled { .. } => signal(handle, caller, 1, Results::Nothing),
            _ => signal(handle, caller, 2, Results::Nothing),
        },
        Waiter::Start { handle, caller, persist } => match msg {
            ToShim::Cast { node_id, source, width, height, token, .. } => {
                let (source_type, id): (u32, String) = match source {
                    Source::Screen(name) => (1, name),
                    Source::Window(id) => (2, number(id)),
                };
                let restore = if persist { Some(token) } else { None };
                signal(
                    handle,
                    caller,
                    0,
                    Results::Stream { node_id, source_type, id, width, height, restore },
                )
            },
            ToShim::Cancelled { .. } => signal(handle, caller, 1, Results::Nothing),
            _ => signal(handle, caller, 2, Results::Nothing),
        },
        Waiter::Camera { handle, caller } => match msg {
            ToShim::Granted { .. } => signal(handle, caller, 0, Results::Nothing),
            ToShim::Cancelled { .. } => signal(handle, caller, 1, Results::Nothing),
            _ => signal(handle, caller, 2, Results::Nothing),
        },
        Waiter::Open { handle, caller } => match msg {
            ToShim::Done { .. } => signal(handle, caller, 0, Results::Nothing),
            _ => signal(handle, caller, 2, Results::Nothing),
        },
        Waiter::Remote { to } => match msg {
            ToShim::Remote { .. } => if fd {
                Out::Reply { to, body: Body::Fd }
            } else {
                no_remote(to, shown)
            },
            ToShim::Failed { reason, .. } => fail_one(to, reason),
            _ => no_remote(to, shown),
        },
        Waiter::Notify { to } => match msg {
            ToShim::Notified { id, .. } => Out::Reply { to, body: Body::Number(id) },
            ToShim::Failed { reason, .. } => fail_one(to, reason),
            _ => fail_one(to, shown.to_owned()),
        },
        Waiter::CameraProperties { to, property } => {
            let present = match msg {
                ToShim::Present { present, .. } => present,
                _ => false,
            };
            reply_props(to, camera_prop_list(present), CAMERA, &property)
        },
    }
}

impl Shim {
    /// An answer from the other side finds its asker, who waits no longer.
    pub fn answered(&mut self, msg: ToShim, fd: bool, shown: &str) -> (r: Vec<Sent>)
        requires
            old(self).wf(),
        ensures
            final(self).wf(),
            match msg.answers() {
                Some(req) => if old(self).waiting@.contains_key(req) {
                    let w = old(self).waiting@[req]@;
                    &&& final(self).side == old(self).side
                    &&& final(self).next == old(self).next
                    &&& final(self).sessions == old(self).sessions
                    &&& final(self).waiting@ == old(self).waiting@.remove(req)
                    &&& final(self).handles@ == match closes(w) {
                        Some(handle) => old(self).handles@.remove(handle),
                        None => old(self).handles@,
                    }
                    &&& final(self).camera == (old(self).camera || (w is Camera && msg is Granted))
                    &&& views(r@) == seq![heard(w, msg, fd, shown@)]
                } else {
                    *final(self) == *old(self) && r@.len() == 0
                },
                None => match msg {
                    ToShim::CastClosed { session } => {
                        &&& same_but(*final(self), *old(self), false, false, true, false)
                        &&& session_gone(*old(self), *final(self), session, views(r@))
                    },
                    _ => *final(self) == *old(self) && r@.len() == 0,
                },
            },
    {
        broadcast use group_views;

        let mut out: Vec<Sent> = Vec::new();
        match msg.req() {
            Some(req) => match self.waiting.remove(req) {
                None => out,
                Some(w) => {
                    match &w {
                        Waiter::Choose { handle, .. } => {
                            let _ = self.handles.remove(handle.as_str());
                        },
                        Waiter::Start { handle, .. } => {
                            let _ = self.handles.remove(handle.as_str());
                        },
                        Waiter::Camera { .. } => {
                            if let ToShim::Granted { .. } = msg {
                                self.camera = true;
                            }
                        },
                        _ => {},
                    }
                    let ghost view = w@;
                    out.push(hear(w, msg, fd, shown));
                    assert(views(out@) =~= seq![heard(view, msg, fd, shown@)]);
                    out
                },
            },
            None => match msg {
                ToShim::CastClosed { session } => self.session_closed(session),
                _ => out,
            },
        }
    }

    /// A session was ended on the other side: the app hears `Closed`.
    pub fn session_closed(&mut self, session: u64) -> (r: Vec<Sent>)
        requires
            old(self).wf(),
        ensures
            final(self).wf(),
            same_but(*final(self), *old(self), false, false, true, false),
            session_gone(*old(self), *final(self), session, views(r@)),
    {
        broadcast use group_views;

        let mut out: Vec<Sent> = Vec::new();
        let mut i: usize = 0;
        while i < self.sessions.rows.len()
            invariant
                i <= self.sessions.rows@.len(),
                *self == *old(self),
                self.wf(),
                out@.len() == 0,
                forall|j: int|
                    0 <= j < i ==> (#[trigger] self.sessions.rows@[j]).1.id != session,
            decreases self.sessions.rows@.len() - i,
        {
            if self.sessions.rows[i].1.id == session {
                let path = self.sessions.rows[i].0.clone();
                let caller = self.sessions.rows[i].1.caller.clone();
                assert(first_session(old(self).sessions.rows@, session, i as int));
                let _ = self.sessions.remove(path.as_str());
                if object_path(path.as_str()).is_ok() {
                    out.push(Out::Closed { path, caller });
                }
                assert(views(out@) =~= closing(old(self).sessions.rows@[i as int]));
                return out;
            }
            i = i + 1;
        }
        out
    }

    /// A request could not be sent: nobody waits for its answer, and the call it was sent for
    /// fails.
    pub fn unsent(&mut self, to: u64, req: u64, err: &str) -> (r: Vec<Sent>)
        requires
            old(self).wf(),
        ensures
            final(self).wf(),
            same_but(*final(self), *old(self), false, false, false, true),
            final(self).waiting@ == old(self).waiting@.remove(req),
            views(r@) == fails(to, no_way(old(self).side, err@)),
    {
        let _ = self.waiting.remove(req);
        failed(to, no_way_text(self.side, err))
    }

    /// A message without an answer was sent for a call, or could not be: the call is answered.
    pub fn told(&self, to: u64, sent: Result<(), String>) -> (r: Vec<Sent>)
        ensures
            views(r@) == match sent {
                Ok(_) => seq![OutView::Reply { to, body: Body::Nothing }],
                Err(err) => fails(to, no_way(self.side, err@)),
            },
    {
        match sent {
            Ok(_) => one(Out::Reply { to, body: Body::Nothing }),
            Err(err) => failed(to, no_way_text(self.side, err.as_str())),
        }
    }
}

/// What is said of a message that could not be sent.
pub open spec fn no_way(side: Side, err: Seq<char>) -> Seq<char> {
    (match side {
        Side::Bridge => "to the bridge: "@,
        Side::Services => "to the service: "@,
    }) + err
}

fn no_way_text(side: Side, err: &str) -> (r: String)
    ensures
        r@ == no_way(side, err@),
{
    let mut text = match side {
        Side::Bridge => "to the bridge: ".to_owned(),
        Side::Services => "to the service: ".to_owned(),
    };
    text.append(err);
    text
}

/// Row `i` is the first session with this number.
pub open spec fn first_session(rows: Seq<(String, Session)>, session: u64, i: int) -> bool {
    &&& 0 <= i < rows.len()
    &&& rows[i].1.id == session
    &&& forall|j: int| 0 <= j < i ==> (#[trigger] rows[j]).1.id != session
}

/// The `Closed` signal of a session, where its path is one that a signal can come from.
pub open spec fn closing(row: (String, Session)) -> Seq<OutView> {
    if is_object_path(row.0@) {
        seq![OutView::Closed { path: row.0@, caller: row.1.caller@ }]
    } else {
        Seq::empty()
    }
}

/// The session with this number is gone, and its maker is told; nothing happens where there is
/// none.
pub open spec fn session_gone(before: Shim, after: Shim, session: u64, out: Seq<OutView>) -> bool {
    ||| exists|i: int| #[trigger]
        first_session(before.sessions.rows@, session, i) && after.sessions@
            == before.sessions@.remove(before.sessions.rows@[i].0@) && out == closing(
            before.sessions.rows@[i],
        )
    ||| (forall|i: int|
        0 <= i < before.sessions.rows@.len() ==> (#[trigger] before.sessions.rows@[i]).1.id
            != session) && after.sessions == before.sessions && out.len() == 0
}

/// Where a call goes.
#[derive(Clone, Copy, Debug, PartialEq, Eq, Structural)]
pub enum Route {
    Notification,
    FileChooser,
    ScreenCast,
    Camera,
    OpenUri,
    Settings,
    Properties,
    Session,
    CloseRequest,
    NotHere,
    Unknown,
}

/// Where a call goes, by its object, interface and member.
pub open spec fn routed(path: Seq<char>, interface: Seq<char>, member: Seq<char>) -> Route {
    let below = PORTAL_PATH@.is_prefix_of(path);
    if path == NOTIFICATIONS_PATH@ && interface == NOTIFICATIONS_NAME@ {
        Route::Notification
    } else if path == PORTAL_PATH@ {
        if interface == FILE_CHOOSER@ {
            Route::FileChooser
        } else if interface == SCREEN_CAST@ {
            Route::ScreenCast
        } else if interface == CAMERA@ {
            Route::Camera
        } else if interface == OPEN_URI@ {
            Route::OpenUri
        } else if interface == SETTINGS@ {
            Route::Settings
        } else if interface == PROPERTIES@ {
            Route::Properties
        } else {
            Route::Unknown
        }
    } else if interface == SESSION_IFACE@ && below {
        Route::Session
    } else if interface == REQUEST_IFACE@ && member == "Close"@ && below {
        Route::CloseRequest
    } else if !below {
        Route::NotHere
    } else {
        Route::Unknown
    }
}

/// Says where a call goes.
pub fn route(path: &str, interface: &str, member: &str) -> (r: Route)
    ensures
        r == routed(path@, interface@, member@),
{
    if same_text(path, NOTIFICATIONS_PATH) && same_text(interface, NOTIFICATIONS_NAME) {
        return Route::Notification;
    }
    if same_text(path, PORTAL_PATH) {
        return if same_text(interface, FILE_CHOOSER) {
            Route::FileChooser
        } else if same_text(interface, SCREEN_CAST) {
            Route::ScreenCast
        } else if same_text(interface, CAMERA) {
            Route::Camera
        } else if same_text(interface, OPEN_URI) {
            Route::OpenUri
        } else if same_text(interface, SETTINGS) {
            Route::Settings
        } else if same_text(interface, PROPERTIES) {
            Route::Properties
        } else {
            Route::Unknown
        };
    }
    let below = match strip_front(&chars_of(path), PORTAL_PATH) {
        Some(_) => true,
        None => false,
    };
    if same_text(interface, SESSION_IFACE) && below {
        Route::Session
    } else if same_text(interface, REQUEST_IFACE) && same_text(member, "Close") && below {
        Route::CloseRequest
    } else if !below {
        Route::NotHere
    } else {
        Route::Unknown
    }
}

/// The error text for a member that an interface does not have.
pub open spec fn no_member(member: Seq<char>, interface: Seq<char>) -> Seq<char> {
    "no "@ + member + " on "@ + interface
}

fn no_member_text(member: &str, interface: &str) -> (r: String)
    ensures
        r@ == no_member(member@, interface@),
{
    let mut text = "no ".to_owned();
    text.append(member);
    text.append(" on ");
    text.append(interface);
    text
}

/// The error text for what this side does not carry.
pub open spec fn not_carried(side: Side, interface: Seq<char>, member: Seq<char>) -> Seq<char> {
    (match side {
        Side::Bridge => "the bridge does not carry "@,
        Side::Services => "the shim does not carry "@,
    }) + interface + "."@ + member
}

/// The names of a notification server's capabilities.
pub open spec fn capabilities(side: Side) -> Seq<Seq<char>> {
    match side {
        Side::Bridge => seq!["body"@],
        Side::Services => seq!["body"@, "actions"@],
    }
}

/// What an interface's fixed properties are, where it has only such.
pub open spec fn fixed_props(iface: Seq<char>) -> Option<Seq<(Seq<char>, Prop)>> {
    if iface == FILE_CHOOSER@ {
        Some(seq![("version"@, Prop::Number(FILE_CHOOSER_VERSION))])
    } else if iface == SETTINGS@ {
        Some(seq![("version"@, Prop::Number(SETTINGS_VERSION))])
    } else if iface == OPEN_URI@ {
        Some(seq![("version"@, Prop::Number(OPEN_URI_VERSION))])
    } else if iface == SCREEN_CAST@ {
        Some(
            seq![
                ("version"@, Prop::Number(SCREEN_CAST_VERSION)),
                ("AvailableSourceTypes"@, Prop::Number(SOURCE_TYPES)),
                ("AvailableCursorModes"@, Prop::Number(CURSOR_MODES)),
            ],
        )
    } else {
        None
    }
}

fn fixed_prop_list(iface: &str) -> (r: Option<Vec<(String, Prop)>>)
    ensures
        match r {
            Some(list) => fixed_props(iface@) == Some(views(list@)),
            None => fixed_props(iface@) is None,
        },
{
    broadcast use group_views;

    let version: u32 = if same_text(iface, FILE_CHOOSER) {
        FILE_CHOOSER_VERSION
    } else if same_text(iface, SETTINGS) {
        SETTINGS_VERSION
    } else if same_text(iface, OPEN_URI) {
        OPEN_URI_VERSION
    } else if same_text(iface, SCREEN_CAST) {
        let list: Vec<(String, Prop)> = vec![
            number_prop("version", SCREEN_CAST_VERSION),
            number_prop("AvailableSourceTypes", SOURCE_TYPES),
            number_prop("AvailableCursorModes", CURSOR_MODES),
        ];
        assert(views(list@) =~= fixed_props(iface@)->0);
        return Some(list);
    } else {
        return None;
    };
    let list: Vec<(String, Prop)> = vec![number_prop("version", version)];
    assert(views(list@) =~= fixed_props(iface@)->0);
    Some(list)
}

/// How the desktop looks, the same for every app: dark, with ordinary contrast.
pub open spec fn setting(namespace: Seq<char>, key: Seq<char>) -> Option<u32> {
    if namespace != APPEARANCE@ {
        None
    } else if key == "color-scheme"@ {
        Some(1)
    } else if key == "contrast"@ {
        Some(0)
    } else {
        None
    }
}

/// All the settings of the one namespace.
pub open spec fn all_settings() -> Seq<(Seq<char>, Prop)> {
    seq![("color-scheme"@, Prop::Number(1)), ("contrast"@, Prop::Number(0))]
}

/// A pattern takes in a namespace: everything, that namespace, or what starts as it says.
pub open spec fn pattern_takes(pattern: Seq<char>, namespace: Seq<char>) -> bool {
    ||| pattern.len() == 0
    ||| pattern == namespace
    ||| (pattern.last() == '*' && pattern.drop_last().is_prefix_of(namespace))
}

/// Some pattern takes in a namespace.
pub open spec fn wanted(patterns: Seq<Seq<char>>, namespace: Seq<char>) -> bool {
    exists|i: int|
        0 <= i < patterns.len() && pattern_takes(#[trigger] patterns[i], namespace)
}

fn takes(pattern: &str, namespace: &str) -> (r: bool)
    ensures
        r == pattern_takes(pattern@, namespace@),
{
    let p = chars_of(pattern);
    if p.len() == 0 || same_text(pattern, namespace) {
        return true;
    }
    if p[p.len() - 1] != '*' {
        return false;
    }
    let front = string_of(&p, 0, p.len() - 1);
    assert(front@ =~= pattern@.drop_last());
    match strip_front(&chars_of(namespace), front.as_str()) {
        Some(_) => true,
        None => false,
    }
}

fn one(out: Sent) -> (r: Vec<Sent>)
    ensures
        views(r@) == seq![out@],
{
    broadcast use group_views;

    let mut list: Vec<Sent> = Vec::new();
    let ghost v = out@;
    list.push(out);
    assert(views(list@) =~= seq![v]);
    list
}

fn two(a: Sent, b: Sent) -> (r: Vec<Sent>)
    ensures
        views(r@) == seq![a@, b@],
{
    broadcast use group_views;

    let mut list: Vec<Sent> = Vec::new();
    let ghost v = seq![a@, b@];
    list.push(a);
    list.push(b);
    assert(views(list@) =~= v);
    list
}

fn handle_replied(to: u64, handle: &String) -> (r: Sent)
    ensures
        r@ == handle_reply(to, handle@),
{
    Out::Reply { to, body: Body::Handle(handle.clone()) }
}

/// `Read` and `ReadOne`: one setting. `Read` wraps the value in a second variant.
pub fn read_setting(call: &Call, namespace: &str, key: &str, nested: bool) -> (r: Vec<Sent>)
    ensures
        views(r@) == match setting(namespace@, key@) {
            Some(n) => seq![
                OutView::Reply {
                    to: call.ticket,
                    body: Body::Value { value: Prop::Number(n), nested },
                },
            ],
            None => error_of(
                call.ticket,
                NOT_FOUND@,
                "no setting "@ + namespace@ + " "@ + key@,
            ),
        },
{
    let found: Option<u32> = if !same_text(namespace, APPEARANCE) {
        None
    } else if same_text(key, "color-scheme") {
        Some(1)
    } else if same_text(key, "contrast") {
        Some(0)
    } else {
        None
    };
    match found {
        Some(n) => one(
            Out::Reply {
                to: call.ticket,
                body: Body::Value { value: Prop::Number(n), nested },
            },
        ),
        None => {
            let mut text = "no setting ".to_owned();
            text.append(namespace);
            text.append(" ");
            text.append(key);
            error(call.ticket, NOT_FOUND, text)
        },
    }
}

/// `ReadAll`: the settings of the namespaces that the patterns take in.
pub fn read_settings(call: &Call, patterns: &Vec<String>) -> (r: Vec<Sent>)
    ensures
        views(r@) == seq![
            OutView::Reply {
                to: call.ticket,
                body: Body::Settings {
                    namespace: APPEARANCE@,
                    values: if wanted(views(patterns@), APPEARANCE@) {
                        all_settings()
                    } else {
                        Seq::empty()
                    },
                },
            },
        ],
{
    broadcast use group_views;

    let mut found = false;
    let mut i: usize = 0;
    while i < patterns.len()
        invariant
            i <= patterns@.len(),
            found == wanted(views(patterns@).take(i as int), APPEARANCE@),
        decreases patterns@.len() - i,
    {
        let ghost all = views(patterns@);
        assert(all[i as int] == patterns@[i as int]@);
        let t = takes(patterns[i].as_str(), APPEARANCE);
        proof {
            let a = all.take(i as int);
            let b = all.take(i + 1);
            assert(forall|j: int| 0 <= j < i ==> a[j] == b[j]);
            if t {
                assert(pattern_takes(b[i as int], APPEARANCE@));
            }
            if wanted(a, APPEARANCE@) {
                let j = choose|j: int| 0 <= j < a.len() && pattern_takes(#[trigger] a[j], APPEARANCE@);
                assert(pattern_takes(b[j], APPEARANCE@));
            }
            if wanted(b, APPEARANCE@) {
                let j = choose|j: int| 0 <= j < b.len() && pattern_takes(#[trigger] b[j], APPEARANCE@);
                if j < i {
                    assert(pattern_takes(a[j], APPEARANCE@));
                }
            }
        }
        found = found || t;
        i = i + 1;
    }
    assert(views(patterns@).take(i as int) =~= views(patterns@));
    let mut values: Vec<(String, Prop)> = Vec::new();
    if found {
        values.push(number_prop("color-scheme", 1));
        values.push(number_prop("contrast", 0));
        assert(views(values@) =~= all_settings());
    }
    one(
        Out::Reply {
            to: call.ticket,
            body: Body::Settings { namespace: APPEARANCE.to_owned(), values },
        },
    )
}

impl Shim {
    /// What this side does not carry.
    pub fn unknown(&self, call: &Call, interface: &str, member: &str) -> (r: Vec<Sent>)
        ensures
            views(r@) == error_of(
                call.ticket,
                UNKNOWN_METHOD@,
                not_carried(self.side, interface@, member@),
            ),
    {
        let mut text = match self.side {
            Side::Bridge => "the bridge does not carry ".to_owned(),
            Side::Services => "the shim does not carry ".to_owned(),
        };
        text.append(interface);
        text.append(".");
        text.append(member);
        error(call.ticket, UNKNOWN_METHOD, text)
    }

    /// A call that goes to no interface, or to a member that its interface does not have.
    pub fn refused(&self, route: Route, call: &Call, interface: &str, member: &str) -> (r: Vec<
        Sent,
    >)
        ensures
            views(r@) == match route {
                Route::FileChooser => if call.caller is None {
                    fails(call.ticket, "no sender"@)
                } else {
                    fails(call.ticket, no_member(member@, FILE_CHOOSER@))
                },
                Route::ScreenCast => if call.caller is None {
                    fails(call.ticket, "no sender"@)
                } else {
                    fails(call.ticket, no_member(member@, SCREEN_CAST@))
                },
                Route::Camera => fails(call.ticket, no_member(member@, CAMERA@)),
                Route::OpenUri => fails(call.ticket, no_member(member@, OPEN_URI@)),
                Route::Session => fails(call.ticket, no_member(member@, SESSION_IFACE@)),
                Route::Settings => error_of(
                    call.ticket,
                    UNKNOWN_METHOD@,
                    no_member(member@, SETTINGS@),
                ),
                Route::Notification => error_of(
                    call.ticket,
                    UNKNOWN_METHOD@,
                    no_member(member@, NOTIFICATIONS_NAME@),
                ),
                Route::Properties => error_of(
                    call.ticket,
                    UNKNOWN_METHOD@,
                    not_carried(self.side, PROPERTIES@, member@),
                ),
                Route::NotHere => error_of(call.ticket, UNKNOWN_OBJECT@, "not here"@),
                _ => error_of(
                    call.ticket,
                    UNKNOWN_METHOD@,
                    not_carried(self.side, interface@, member@),
                ),
            },
    {
        match route {
            Route::FileChooser => if call.caller.is_none() {
                failed(call.ticket, "no sender".to_owned())
            } else {
                failed(call.ticket, no_member_text(member, FILE_CHOOSER))
            },
            Route::ScreenCast => if call.caller.is_none() {
                failed(call.ticket, "no sender".to_owned())
            } else {
                failed(call.ticket, no_member_text(member, SCREEN_CAST))
            },
            Route::Camera => failed(call.ticket, no_member_text(member, CAMERA)),
            Route::OpenUri => failed(call.ticket, no_member_text(member, OPEN_URI)),
            Route::Session => failed(call.ticket, no_member_text(member, SESSION_IFACE)),
            Route::Settings => error(
                call.ticket,
                UNKNOWN_METHOD,
                no_member_text(member, SETTINGS),
            ),
            Route::Notification => error(
                call.ticket,
                UNKNOWN_METHOD,
                no_member_text(member, NOTIFICATIONS_NAME),
            ),
            Route::Properties => self.unknown(call, PROPERTIES, member),
            Route::NotHere => error(call.ticket, UNKNOWN_OBJECT, "not here".to_owned()),
            _ => self.unknown(call, interface, member),
        }
    }

    /// `Get` and `GetAll`: versions, and what we offer. Whether there is a camera is the other
    /// side's to say; `line` is why the line to ask on could not be had.
    pub fn properties(
        &mut self,
        call: &Call,
        iface: &str,
        property: Option<String>,
        line: Option<String>,
    ) -> (r: Vec<Sent>)
        requires
            old(self).wf(),
        ensures
            final(self).wf(),
            match fixed_props(iface@) {
                Some(props) => *final(self) == *old(self) && views(r@) == seq![
                    props_reply(call.ticket, props, iface@, view_opt(property)),
                ],
                None => if iface@ != CAMERA@ {
                    *final(self) == *old(self) && views(r@) == error_of(
                        call.ticket,
                        UNKNOWN_METHOD@,
                        not_carried(
                            old(self).side,
                            PROPERTIES@,
                            if property is Some {
                                "Get"@
                            } else {
                                "GetAll"@
                            },
                        ),
                    )
                } else {
                    &&& final(self).next == after(old(self).next)
                    &&& asked(
                        *old(self),
                        *final(self),
                        views(r@),
                        call.ticket,
                        line,
                        Seq::empty(),
                        ToServer::CameraPresent { req: old(self).next },
                        Waiter::CameraProperties {
                            to: call.ticket,
                            property: view_opt(property),
                        },
                    )
                },
            },
    {
        broadcast use {group_views, lemma_put};

        match fixed_prop_list(iface) {
            Some(list) => one(reply_props(call.ticket, list, iface, &property)),
            None => {
                if !same_text(iface, CAMERA) {
                    let member = if property.is_some() { "Get" } else { "GetAll" };
                    return self.unknown(call, PROPERTIES, member);
                }
                let req = self.number();
                if let Some(err) = line {
                    return failed(call.ticket, err);
                }
                self.waiting.insert(req, Waiter::CameraProperties { to: call.ticket, property });
                let to = call.ticket;
                let out = one(Out::Ask { to, msg: ToServer::CameraPresent { req } });
                assert(views(out@) =~= Seq::<OutView>::empty().push(
                    Out::Ask { to, msg: ToServer::CameraPresent { req } },
                ));
                out
            },
        }
    }

    fn remote(&mut self, call: &Call, ask: ToServer<String>, req: u64, line: Option<String>) -> (r:
        Vec<Sent>)
        requires
            old(self).wf(),
        ensures
            final(self).wf(),
            final(self).next == old(self).next,
            match line {
                Some(err) => *final(self) == *old(self) && views(r@) == fails(call.ticket, err@),
                None => {
                    &&& same_but(*final(self), *old(self), false, false, false, true)
                    &&& put(
                        old(self).waiting@,
                        final(self).waiting@,
                        req,
                        Waiter::<Seq<char>>::Remote { to: call.ticket },
                    )
                    &&& views(r@) == Seq::<OutView>::empty().push(
                        Out::Ask { to: call.ticket, msg: ask@ },
                    )
                },
            },
    {
        broadcast use {group_views, lemma_put};

        if let Some(err) = line {
            return failed(call.ticket, err);
        }
        self.waiting.insert(req, Waiter::Remote { to: call.ticket });
        let ghost v = ask@;
        let out = one(Out::Ask { to: call.ticket, msg: ask });
        assert(views(out@) =~= Seq::<OutView>::empty().push(
            Out::Ask { to: call.ticket, msg: v },
        ));
        out
    }

    /// `OpenPipeWireRemote` of a session: a connection that sees its one node.
    pub fn open_cast_remote(&mut self, call: &Call, session: &str, line: Option<String>) -> (r: Vec<
        Sent,
    >)
        requires
            old(self).wf(),
        ensures
            final(self).wf(),
            if call.caller is None {
                *final(self) == *old(self) && views(r@) == fails(call.ticket, "no sender"@)
            } else if !old(self).sessions@.contains_key(session@) {
                *final(self) == *old(self) && views(r@) == fails(call.ticket, "no such session"@)
            } else {
                &&& final(self).next == after(old(self).next)
                &&& asked(
                    *old(self),
                    *final(self),
                    views(r@),
                    call.ticket,
                    line,
                    Seq::empty(),
                    ToServer::CastRemote {
                        req: old(self).next,
                        session: old(self).sessions@[session@].id,
                    },
                    Waiter::Remote { to: call.ticket },
                )
            },
    {
        if call.caller.is_none() {
            return failed(call.ticket, "no sender".to_owned());
        }
        let id: u64 = match self.sessions.get(session) {
            None => return failed(call.ticket, "no such session".to_owned()),
            Some(s) => s.id,
        };
        let req = self.number();
        self.remote(call, ToServer::CastRemote { req, session: id }, req, line)
    }

    /// `OpenFile` and `SaveFile`: the handle goes back now, the `Response` signal when the
    /// person has picked.
    pub fn file_chooser(
        &mut self,
        call: &Call,
        saving: bool,
        title: String,
        options: &Options,
        line: Option<String>,
    ) -> (r: Vec<Sent>)
        requires
            old(self).wf(),
        ensures
            final(self).wf(),
            if call.caller is None {
                *final(self) == *old(self) && views(r@) == fails(call.ticket, "no sender"@)
            } else if !saving && options.directory == Some(true) {
                *final(self) == *old(self) && views(r@) == fails(
                    call.ticket,
                    "directories are not handed out yet"@,
                )
            } else if line is Some {
                *final(self) == *old(self) && views(r@) == fails(call.ticket, line->0@)
            } else if !has_handle(*call, *options) {
                *final(self) == *old(self) && views(r@) == fails(call.ticket, INVALID_PATH@)
            } else {
                &&& same_but(*final(self), *old(self), true, true, false, true)
                &&& final(self).next == after(old(self).next)
                &&& final(self).handles@ == old(self).handles@.insert(
                    request_handle(*call, *options),
                    (Where::Files, old(self).next),
                )
                &&& put(
                    old(self).waiting@,
                    final(self).waiting@,
                    old(self).next,
                    Waiter::Choose {
                        handle: request_handle(*call, *options),
                        caller: call.caller->0@,
                    },
                )
                &&& views(r@) == seq![
                    handle_reply(call.ticket, request_handle(*call, *options)),
                    Out::Ask {
                        to: call.ticket,
                        msg: ToServer::Choose {
                            req: old(self).next,
                            title: title@,
                            save: if !saving {
                                None
                            } else if options.current_name is Some {
                                Some(options.current_name->0@)
                            } else {
                                Some(Seq::empty())
                            },
                        },
                    },
                ]
            },
    {
        broadcast use lemma_put;

        let caller = match &call.caller {
            None => return failed(call.ticket, "no sender".to_owned()),
            Some(caller) => caller,
        };
        let directory = match options.directory {
            Some(d) => d,
            None => false,
        };
        if !saving && directory {
            return failed(call.ticket, "directories are not handed out yet".to_owned());
        }
        if let Some(err) = line {
            return failed(call.ticket, err);
        }
        let save: Option<String> = if !saving {
            None
        } else {
            match &options.current_name {
                Some(name) => Some(name.clone()),
                None => Some(String::new()),
            }
        };
        let handle = handle_for(call, &options.handle_token, false);
        if let Err(err) = object_path(handle.as_str()) {
            return failed(call.ticket, err);
        }
        let req = self.number();
        self.handles.insert(handle.clone(), (Where::Files, req));
        self.waiting.insert(
            req,
            Waiter::Choose { handle: handle.clone(), caller: caller.clone() },
        );
        two(
            handle_replied(call.ticket, &handle),
            Out::Ask { to: call.ticket, msg: ToServer::Choose { req, title, save } },
        )
    }

    /// `AccessCamera`. Behind the bridge the person is asked once per run of the app; the
    /// services ask when a stream is to be linked to a camera.
    pub fn access_camera(&mut self, call: &Call, options: &Options) -> (r: Vec<Sent>)
        requires
            old(self).wf(),
        ensures
            final(self).wf(),
            if call.caller is None {
                *final(self) == *old(self) && views(r@) == fails(call.ticket, "no sender"@)
            } else if !has_handle(*call, *options) {
                *final(self) == *old(self) && views(r@) == fails(call.ticket, INVALID_PATH@)
            } else if old(self).side is Services || old(self).camera {
                &&& *final(self) == *old(self)
                &&& views(r@) == seq![
                    handle_reply(call.ticket, request_handle(*call, *options)),
                    response(
                        request_handle(*call, *options),
                        call.caller->0@,
                        0,
                        Results::Nothing,
                    ),
                ]
            } else {
                &&& final(self).next == after(old(self).next)
                &&& asked(
                    *old(self),
                    *final(self),
                    views(r@),
                    call.ticket,
                    None,
                    seq![handle_reply(call.ticket, request_handle(*call, *options))],
                    ToServer::Camera { req: old(self).next },
                    Waiter::Camera {
                        handle: request_handle(*call, *options),
                        caller: call.caller->0@,
                    },
                )
            },
    {
        broadcast use lemma_put;

        let caller = match &call.caller {
            None => return failed(call.ticket, "no sender".to_owned()),
            Some(caller) => caller,
        };
        let handle = handle_for(call, &options.handle_token, false);
        if let Err(err) = object_path(handle.as_str()) {
            return failed(call.ticket, err);
        }
        let services = match self.side {
            Side::Services => true,
            Side::Bridge => false,
        };
        if services || self.camera {
            return two(
                handle_replied(call.ticket, &handle),
                signal(handle, caller.clone(), 0, Results::Nothing),
            );
        }
        let req = self.number();
        self.waiting.insert(
            req,
            Waiter::Camera { handle: handle.clone(), caller: caller.clone() },
        );
        let out = two(
            handle_replied(call.ticket, &handle),
            Out::Ask { to: call.ticket, msg: ToServer::Camera { req } },
        );
        assert(views(out@) =~= seq![handle_reply(call.ticket, handle@)].push(
            Out::Ask { to: call.ticket, msg: ToServer::Camera { req } },
        ));
        out
    }

    /// `OpenPipeWireRemote` of the camera: a connection that sees the cameras.
    pub fn open_camera_remote(&mut self, call: &Call, line: Option<String>) -> (r: Vec<Sent>)
        requires
            old(self).wf(),
        ensures
            final(self).wf(),
            if old(self).side is Bridge && !old(self).camera {
                *final(self) == *old(self) && views(r@) == fails(
                    call.ticket,
                    "the camera was not allowed"@,
                )
            } else {
                &&& final(self).next == after(old(self).next)
                &&& asked(
                    *old(self),
                    *final(self),
                    views(r@),
                    call.ticket,
                    line,
                    Seq::empty(),
                    ToServer::CameraRemote { req: old(self).next },
                    Waiter::Remote { to: call.ticket },
                )
            },
    {
        let bridge = match self.side {
            Side::Services => false,
            Side::Bridge => true,
        };
        if bridge && !self.camera {
            return failed(call.ticket, "the camera was not allowed".to_owned());
        }
        let req = self.number();
        self.remote(call, ToServer::CameraRemote { req }, req, line)
    }

    /// `OpenURI`: the manifest handler is started; no prompt.
    pub fn open_uri(&mut self, call: &Call, uri: String, options: &Options) -> (r: Vec<Sent>)
        requires
            old(self).wf(),
        ensures
            final(self).wf(),
            if call.caller is None {
                *final(self) == *old(self) && views(r@) == fails(call.ticket, "no sender"@)
            } else if !has_handle(*call, *options) {
                *final(self) == *old(self) && views(r@) == fails(call.ticket, INVALID_PATH@)
            } else if old(self).side is Services {
                &&& *final(self) == *old(self)
                &&& views(r@) == seq![
                    handle_reply(call.ticket, request_handle(*call, *options)),
                    Out::OpenUri {
                        handle: request_handle(*call, *options),
                        caller: call.caller->0@,
                        uri: uri@,
                    },
                ]
            } else {
                &&& final(self).next == after(old(self).next)
                &&& asked(
                    *old(self),
                    *final(self),
                    views(r@),
                    call.ticket,
                    None,
                    seq![handle_reply(call.ticket, request_handle(*call, *options))],
                    ToServer::Open { req: old(self).next, uri: uri@ },
                    Waiter::Open {
                        handle: request_handle(*call, *options),
                        caller: call.caller->0@,
                    },
                )
            },
    {
        broadcast use lemma_put;

        let caller = match &call.caller {
            None => return failed(call.ticket, "no sender".to_owned()),
            Some(caller) => caller,
        };
        let handle = handle_for(call, &options.handle_token, false);
        if let Err(err) = object_path(handle.as_str()) {
            return failed(call.ticket, err);
        }
        let reply = handle_replied(call.ticket, &handle);
        if let Side::Services = self.side {
            return two(reply, Out::OpenUri { handle, caller: caller.clone(), uri });
        }
        let req = self.number();
        self.waiting.insert(
            req,
            Waiter::Open { handle: handle.clone(), caller: caller.clone() },
        );
        let ghost uri_view = uri@;
        let out = two(reply, Out::Ask { to: call.ticket, msg: ToServer::Open { req, uri } });
        assert(views(out@) =~= seq![handle_reply(call.ticket, handle@)].push(
            Out::Ask { to: call.ticket, msg: ToServer::Open { req, uri: uri_view } },
        ));
        out
    }

    /// `GetCapabilities`.
    pub fn capabilities(&self, call: &Call) -> (r: Vec<Sent>)
        ensures
            views(r@) == seq![
                OutView::Reply { to: call.ticket, body: Body::Texts(capabilities(self.side)) },
            ],
    {
        broadcast use group_views;

        let mut list: Vec<String> = Vec::new();
        list.push("body".to_owned());
        if let Side::Services = self.side {
            list.push("actions".to_owned());
        }
        assert(views(list@) =~= capabilities(self.side));
        one(Out::Reply { to: call.ticket, body: Body::Texts(list) })
    }

    /// `GetServerInformation`.
    pub fn server(&self, call: &Call) -> (r: Vec<Sent>)
        ensures
            views(r@) == seq![
                OutView::Reply {
                    to: call.ticket,
                    body: Body::Server(
                        match self.side {
                            Side::Bridge => "drv-bridge"@,
                            Side::Services => "drv-dbus-shim"@,
                        },
                    ),
                },
            ],
    {
        let name = match self.side {
            Side::Bridge => "drv-bridge".to_owned(),
            Side::Services => "drv-dbus-shim".to_owned(),
        };
        one(Out::Reply { to: call.ticket, body: Body::Server(name) })
    }

    /// `CloseNotification`.
    pub fn close_note(&self, call: &Call, id: u32, line: Option<String>) -> (r: Vec<Sent>)
        ensures
            views(r@) == if self.side is Bridge {
                seq![OutView::Reply { to: call.ticket, body: Body::Nothing }]
            } else if line is Some {
                fails(call.ticket, line->0@)
            } else {
                seq![OutView::CloseNote { to: call.ticket, id }]
            },
    {
        if let Side::Bridge = self.side {
            return one(Out::Reply { to: call.ticket, body: Body::Nothing });
        }
        if let Some(err) = line {
            return failed(call.ticket, err);
        }
        one(Out::CloseNote { to: call.ticket, id })
    }

    /// `Notify`.
    pub fn notify(
        &mut self,
        call: &Call,
        replaces: u32,
        summary: String,
        body: String,
        line: Option<String>,
    ) -> (r: Vec<Sent>)
        requires
            old(self).wf(),
        ensures
            final(self).wf(),
            match line {
                Some(err) => *final(self) == *old(self) && views(r@) == fails(call.ticket, err@),
                None => {
                    &&& final(self).next == after(old(self).next)
                    &&& asked(
                        *old(self),
                        *final(self),
                        views(r@),
                        call.ticket,
                        None,
                        Seq::empty(),
                        ToServer::Notify {
                            req: old(self).next,
                            replaces,
                            summary: summary@,
                            body: body@,
                        },
                        Waiter::Notify { to: call.ticket },
                    )
                },
            },
    {
        broadcast use lemma_put;

        if let Some(err) = line {
            return failed(call.ticket, err);
        }
        let req = self.number();
        self.waiting.insert(req, Waiter::Notify { to: call.ticket });
        let ghost v: ToServer<Seq<char>> = ToServer::Notify {
            req,
            replaces,
            summary: summary@,
            body: body@,
        };
        let to = call.ticket;
        let out = one(Out::Ask { to, msg: ToServer::Notify { req, replaces, summary, body } });
        assert(views(out@) =~= Seq::<OutView>::empty().push(Out::Ask { to, msg: v }));
        out
    }

    /// A call on a session's object.
    pub fn session_call(&mut self, call: &Call, path: &str, member: &str, line: Option<String>) -> (r:
        Vec<Sent>)
        requires
            old(self).wf(),
        ensures
            final(self).wf(),
            called(*old(self), *final(self), *call, path@, member@, line, views(r@)),
    {
        if !self.sessions.contains(path) {
            return error(call.ticket, UNKNOWN_OBJECT, "no such session".to_owned());
        }
        if !same_text(member, "Close") {
            return failed(call.ticket, no_member_text(member, SESSION_IFACE));
        }
        let id: u64 = match self.sessions.remove(path) {
            Some(s) => s.id,
            None => 0,
        };
        if let Some(err) = line {
            return failed(call.ticket, err);
        }
        one(Out::Tell { to: call.ticket, msg: ToServer::CastClose { session: id } })
    }

    /// Which service a request handle waits at.
    pub fn handle_at(&self, path: &str) -> (r: Option<Where>)
        requires
            self.wf(),
        ensures
            r == if self.handles@.contains_key(path@) {
                Some(self.handles@[path@].0)
            } else {
                None
            },
    {
        match self.handles.get(path) {
            Some(h) => Some(h.0),
            None => None,
        }
    }

    /// `Request.Close`: the request is withdrawn, and nobody waits for its answer.
    pub fn close_request(&mut self, call: &Call, path: &str, line: Option<String>) -> (r: Vec<Sent>)
        requires
            old(self).wf(),
        ensures
            final(self).wf(),
            final(self).side == old(self).side,
            final(self).camera == old(self).camera,
            final(self).next == old(self).next,
            final(self).sessions == old(self).sessions,
            final(self).handles@ == old(self).handles@.remove(path@),
            if !old(self).handles@.contains_key(path@) {
                &&& final(self).waiting == old(self).waiting
                &&& views(r@) == seq![OutView::Reply { to: call.ticket, body: Body::Nothing }]
            } else if line is Some {
                &&& final(self).waiting == old(self).waiting
                &&& views(r@) == fails(call.ticket, line->0@)
            } else {
                let (at, req) = old(self).handles@[path@];
                &&& final(self).waiting@ == old(self).waiting@.remove(req)
                &&& views(r@) == seq![
                    match old(self).side {
                        Side::Bridge => OutView::Tell {
                            to: call.ticket,
                            msg: ToServer::Cancel { req },
                        },
                        Side::Services => OutView::Withdraw { to: call.ticket, at, req },
                    },
                ]
            },
    {
        let to = call.ticket;
        match self.handles.remove(path) {
            None => one(Out::Reply { to, body: Body::Nothing }),
            Some((at, req)) => {
                if let Some(err) = line {
                    return failed(call.ticket, err);
                }
                let _ = self.waiting.remove(req);
                match self.side {
                    Side::Bridge => one(Out::Tell { to, msg: ToServer::Cancel { req } }),
                    Side::Services => one(Out::Withdraw { to, at, req }),
                }
            },
        }
    }
}

/// What came of opening a URI answers its handle.
pub fn opened(handle: String, caller: String, ok: bool) -> (r: Vec<Sent>)
    ensures
        views(r@) == seq![
            response(
                handle@,
                caller@,
                if ok {
                    0
                } else {
                    2
                },
                Results::Nothing,
            ),
        ],
{
    one(signal(handle, caller, if ok { 0 } else { 2 }, Results::Nothing))
}

/// A request went out under the next number, after `first`, and its answer is waited for; or
/// the call failed because there was no line to ask on.
pub open spec fn asked(
    before: Shim,
    now: Shim,
    out: Seq<OutView>,
    to: u64,
    line: Option<String>,
    first: Seq<OutView>,
    msg: ToServer<Seq<char>>,
    waiter: Waiter<Seq<char>>,
) -> bool {
    match line {
        Some(err) => same_but(now, before, true, false, false, false) && out == fails(to, err@),
        None => {
            &&& same_but(now, before, true, false, false, true)
            &&& put(before.waiting@, now.waiting@, before.next, waiter)
            &&& out == first.push(Out::Ask { to, msg })
        },
    }
}

/// An answer is heard once: after it nobody waits under its number.
pub proof fn answers_are_heard_once(waiting: Map<u64, Waiter<String>>, req: u64)
    ensures
        !waiting.remove(req).contains_key(req),
        forall|other: u64|
            other != req && waiting.contains_key(other) ==> #[trigger] waiting.remove(
                req,
            ).contains_key(other) && waiting.remove(req)[other] == waiting[other],
{
}

/// An app that asks for nothing it can have gets whole screens; windows are given only where
/// they are asked for.
pub proof fn something_is_always_taken(types: Option<u32>)
    ensures
        takes_screens(types) || takes_windows(types),
        types is None ==> takes_screens(types) && !takes_windows(types),
{
}

} // verus!
