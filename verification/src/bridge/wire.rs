//! What the shim on an app's private bus says to the server, and hears back: a few strings and
//! numbers of fixed shape. The shim picks `req`; the answer carries it back.
use vstd::prelude::*;

pub use crate::portal::protocol::{Cursor, Kind as Chooser, Source};
use crate::utf8::{byte_len, clip_to, clipped};
use crate::views::view_opt;

verus! {

pub const VERSION: u32 = 1;

/// Text the server passes on to the person is cut here.
pub const MAX_TEXT: usize = 2048;

/// From the shim. `T` is text.
#[derive(Debug)]
pub enum ToServer<T> {
    Hello { version: u32 },
    /// A file for the app, to save under a name where one is offered: `Files`, `Cancelled` or
    /// `Failed`.
    Choose { req: u64, title: T, save: Option<T> },
    /// Share a screen or a window: the person picks. `Cast` when it streams, then `CastClosed`
    /// when it ends; or `Cancelled` or `Failed` instead.
    Cast {
        req: u64,
        session: u64,
        cursor: Cursor,
        screens: bool,
        windows: bool,
        again: Option<T>,
    },
    /// A PipeWire connection that sees the session's node: `Remote` with the fd, or `Failed`.
    CastRemote { req: u64, session: u64 },
    /// The session is over: the cast stops, its remotes are cut. No answer.
    CastClose { session: u64 },
    /// May the app use the camera? `Granted` or `Cancelled`.
    Camera { req: u64 },
    /// A PipeWire connection that sees the cameras: `Remote` or `Failed`.
    CameraRemote { req: u64 },
    /// Is there a camera at all? `Present`.
    CameraPresent { req: u64 },
    /// Open a URI with its manifest handler: `Done` or `Failed`.
    Open { req: u64, uri: T },
    /// A notification, under the app's manifest name: `Notified` or `Failed`.
    Notify { req: u64, replaces: u32, summary: T, body: T },
    /// Withdraw a `Choose` or `Cast` still waiting on the person. No answer.
    Cancel { req: u64 },
}

impl View for ToServer<String> {
    type V = ToServer<Seq<char>>;

    open spec fn view(&self) -> ToServer<Seq<char>> {
        match *self {
            ToServer::Hello { version } => ToServer::Hello { version },
            ToServer::Choose { req, title, save } => ToServer::Choose {
                req,
                title: title@,
                save: view_opt(save),
            },
            ToServer::Cast { req, session, cursor, screens, windows, again } => ToServer::Cast {
                req,
                session,
                cursor,
                screens,
                windows,
                again: view_opt(again),
            },
            ToServer::CastRemote { req, session } => ToServer::CastRemote { req, session },
            ToServer::CastClose { session } => ToServer::CastClose { session },
            ToServer::Camera { req } => ToServer::Camera { req },
            ToServer::CameraRemote { req } => ToServer::CameraRemote { req },
            ToServer::CameraPresent { req } => ToServer::CameraPresent { req },
            ToServer::Open { req, uri } => ToServer::Open { req, uri: uri@ },
            ToServer::Notify { req, replaces, summary, body } => ToServer::Notify {
                req,
                replaces,
                summary: summary@,
                body: body@,
            },
            ToServer::Cancel { req } => ToServer::Cancel { req },
        }
    }
}

impl<T> ToServer<T> {
    /// The number this is answered under, if it is answered.
    pub open spec fn answered_under(self) -> Option<u64> {
        match self {
            ToServer::Choose { req, .. } => Some(req),
            ToServer::Cast { req, .. } => Some(req),
            ToServer::CastRemote { req, .. } => Some(req),
            ToServer::Camera { req } => Some(req),
            ToServer::CameraRemote { req } => Some(req),
            ToServer::CameraPresent { req } => Some(req),
            ToServer::Open { req, .. } => Some(req),
            ToServer::Notify { req, .. } => Some(req),
            ToServer::Hello { .. } => None,
            ToServer::CastClose { .. } => None,
            ToServer::Cancel { .. } => None,
        }
    }

    /// The number this is answered under, if it is answered.
    pub fn req(&self) -> (r: Option<u64>)
        ensures
            r == self.answered_under(),
    {
        match self {
            ToServer::Choose { req, .. } => Some(*req),
            ToServer::Cast { req, .. } => Some(*req),
            ToServer::CastRemote { req, .. } => Some(*req),
            ToServer::Camera { req } => Some(*req),
            ToServer::CameraRemote { req } => Some(*req),
            ToServer::CameraPresent { req } => Some(*req),
            ToServer::Open { req, .. } => Some(*req),
            ToServer::Notify { req, .. } => Some(*req),
            ToServer::Hello { .. } => None,
            ToServer::CastClose { .. } => None,
            ToServer::Cancel { .. } => None,
        }
    }
}

/// Whether a shim's first message is a hello of our version.
pub fn greeted(msg: &ToServer<String>) -> (r: bool)
    ensures
        r == (msg@ matches ToServer::Hello { version } && version == VERSION),
{
    match msg {
        ToServer::Hello { version } => *version == VERSION,
        _ => false,
    }
}

/// To the shim.
#[derive(Debug)]
pub enum ToShim {
    Hello { version: u32 },
    /// Paths under the documents mount that the app's UID alone may open.
    Files { req: u64, paths: Vec<String> },
    Cast { req: u64, node_id: u32, source: Source<String>, width: i32, height: i32, token: String },
    CastClosed { session: u64 },
    /// One fd rides along.
    Remote { req: u64 },
    Granted { req: u64 },
    Present { req: u64, present: bool },
    Done { req: u64 },
    Notified { req: u64, id: u32 },
    /// The person said no, or the request was withdrawn.
    Cancelled { req: u64 },
    Failed { req: u64, reason: String },
}

impl ToShim {
    /// The request this answers, if it answers one.
    pub open spec fn answers(self) -> Option<u64> {
        match self {
            ToShim::Files { req, .. } => Some(req),
            ToShim::Cast { req, .. } => Some(req),
            ToShim::Remote { req } => Some(req),
            ToShim::Granted { req } => Some(req),
            ToShim::Present { req, .. } => Some(req),
            ToShim::Done { req } => Some(req),
            ToShim::Notified { req, .. } => Some(req),
            ToShim::Cancelled { req } => Some(req),
            ToShim::Failed { req, .. } => Some(req),
            ToShim::Hello { .. } => None,
            ToShim::CastClosed { .. } => None,
        }
    }

    /// The request this answers, if it answers one.
    pub fn req(&self) -> (r: Option<u64>)
        ensures
            r == self.answers(),
    {
        match self {
            ToShim::Files { req, .. } => Some(*req),
            ToShim::Cast { req, .. } => Some(*req),
            ToShim::Remote { req } => Some(*req),
            ToShim::Granted { req } => Some(*req),
            ToShim::Present { req, .. } => Some(*req),
            ToShim::Done { req } => Some(*req),
            ToShim::Notified { req, .. } => Some(*req),
            ToShim::Cancelled { req } => Some(*req),
            ToShim::Failed { req, .. } => Some(*req),
            ToShim::Hello { .. } => None,
            ToShim::CastClosed { .. } => None,
        }
    }
}

/// `s` cut to `MAX_TEXT` bytes on a character boundary.
pub fn clip(s: &str) -> (r: &str)
    ensures
        r@ == clipped(s@, MAX_TEXT as nat),
        r@.is_prefix_of(s@),
        byte_len(r@) <= MAX_TEXT,
        byte_len(s@) <= MAX_TEXT ==> r@ == s@,
{
    clip_to(s, MAX_TEXT)
}

} // verus!
