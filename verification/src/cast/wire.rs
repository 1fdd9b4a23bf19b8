//! What an app says on drv-cast's socket, and hears back. The app numbers `req` and `session`;
//! the answer carries `req` back. Nothing here names a screen the app could pick.
use vstd::prelude::*;

pub use crate::portal::protocol::{Cursor, Source};

verus! {

pub const VERSION: u32 = 1;

/// Where apps find the socket.
pub const SOCKET: &'static str = "/run/drv-cast/cast.sock";

#[derive(Debug)]
pub enum ToCast {
    Hello { version: u32 },
    /// Share a screen or a window: the person picks. `Cast` when it streams, then `CastClosed`
    /// when it ends; or `Cancelled` or `Failed` instead.
    Cast {
        req: u64,
        session: u64,
        cursor: Cursor,
        /// What the app will take: whole screens, windows, or both.
        screens: bool,
        windows: bool,
        /// A token from an earlier `Cast` answer: the same source again, with no dialog.
        again: Option<String>,
    },
    /// A PipeWire connection that sees the session's node: `Remote` with the fd, or `Failed`.
    CastRemote { req: u64, session: u64 },
    /// The session is over: the cast stops, its remotes are cut. No answer.
    CastClose { session: u64 },
    /// May the app use the camera? `Granted` or `Cancelled`; asked once per run.
    Camera { req: u64 },
    /// A PipeWire connection that sees the cameras: `Remote` or `Failed`.
    CameraRemote { req: u64 },
    /// Is there a camera at all? `Present`.
    CameraPresent { req: u64 },
    /// Withdraw a `Cast` or `Camera` still waiting on the person. No answer.
    Cancel { req: u64 },
}

/// Whether an app's first word will do: a hello of our version.
pub fn greeted(msg: &ToCast) -> (r: bool)
    ensures
        r == (*msg == ToCast::Hello { version: VERSION }),
{
    match msg {
        ToCast::Hello { version } => *version == VERSION,
        _ => false,
    }
}

/// To the app. `T` is text.
#[derive(Debug)]
pub enum FromCast<T> {
    Hello { version: u32 },
    Cast { req: u64, node_id: u32, source: Source<T>, width: i32, height: i32, token: T },
    CastClosed { session: u64 },
    /// One fd rides along.
    Remote { req: u64 },
    Granted { req: u64 },
    Present { req: u64, present: bool },
    /// The person said no, or the request was withdrawn.
    Cancelled { req: u64 },
    Failed { req: u64, reason: T },
}

impl View for FromCast<String> {
    type V = FromCast<Seq<char>>;

    open spec fn view(&self) -> FromCast<Seq<char>> {
        match *self {
            FromCast::Hello { version } => FromCast::Hello { version },
            FromCast::Cast { req, node_id, source, width, height, token } => FromCast::Cast {
                req,
                node_id,
                source: source@,
                width,
                height,
                token: token@,
            },
            FromCast::CastClosed { session } => FromCast::CastClosed { session },
            FromCast::Remote { req } => FromCast::Remote { req },
            FromCast::Granted { req } => FromCast::Granted { req },
            FromCast::Present { req, present } => FromCast::Present { req, present },
            FromCast::Cancelled { req } => FromCast::Cancelled { req },
            FromCast::Failed { req, reason } => FromCast::Failed { req, reason: reason@ },
        }
    }
}

impl<T> FromCast<T> {
    /// The request this answers, if it answers one.
    pub open spec fn answers(self) -> Option<u64> {
        match self {
            FromCast::Cast { req, .. } => Some(req),
            FromCast::Remote { req } => Some(req),
            FromCast::Granted { req } => Some(req),
            FromCast::Present { req, .. } => Some(req),
            FromCast::Cancelled { req } => Some(req),
            FromCast::Failed { req, .. } => Some(req),
            FromCast::Hello { .. } => None,
            FromCast::CastClosed { .. } => None,
        }
    }

    /// Whether the service speaks our version.
    pub fn is_hello(&self) -> (r: bool)
        ensures
            r == (self matches FromCast::Hello { version } && version == VERSION),
    {
        match self {
            FromCast::Hello { version } => *version == VERSION,
            _ => false,
        }
    }

    /// The request this answers, if it answers one.
    pub fn req(&self) -> (r: Option<u64>)
        ensures
            r == self.answers(),
    {
        match self {
            FromCast::Cast { req, .. } => Some(*req),
            FromCast::Remote { req } => Some(*req),
            FromCast::Granted { req } => Some(*req),
            FromCast::Present { req, .. } => Some(*req),
            FromCast::Cancelled { req } => Some(*req),
            FromCast::Failed { req, .. } => Some(*req),
            FromCast::Hello { .. } => None,
            FromCast::CastClosed { .. } => None,
        }
    }
}

} // verus!
