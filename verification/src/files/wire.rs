//! What an app says on drv-files' socket, and hears back. The app says open or save; the person
//! says which file. Nothing here names a path the app could pick.
use vstd::prelude::*;

pub use crate::portal::protocol::Kind;

verus! {

pub const VERSION: u32 = 1;

/// Where apps find the socket.
pub const SOCKET: &'static str = "/run/drv/files.sock";

#[derive(Debug)]
pub enum ToFiles {
    Hello { version: u32 },
    /// A file for the app: `Chosen`, `Cancelled` or `Failed`. The app numbers `req`.
    Choose { req: u64, kind: Kind },
    /// Withdraw a `Choose` still waiting on the person. No answer.
    Cancel { req: u64 },
}

#[derive(Debug)]
pub enum FromFiles {
    Hello { version: u32 },
    /// Paths under the documents mount that the app's uid alone may open.
    Chosen { req: u64, paths: Vec<String> },
    /// The person said no, or the request was withdrawn.
    Cancelled { req: u64 },
    Failed { req: u64, reason: String },
}

impl FromFiles {
    /// The request this answers, if it answers one.
    pub open spec fn answers(self) -> Option<u64> {
        match self {
            FromFiles::Chosen { req, .. } => Some(req),
            FromFiles::Cancelled { req } => Some(req),
            FromFiles::Failed { req, .. } => Some(req),
            FromFiles::Hello { .. } => None,
        }
    }

    /// The request this answers, if it answers one.
    pub fn req(&self) -> (r: Option<u64>)
        ensures
            r == self.answers(),
    {
        match self {
            FromFiles::Chosen { req, .. } => Some(*req),
            FromFiles::Cancelled { req } => Some(*req),
            FromFiles::Failed { req, .. } => Some(*req),
            FromFiles::Hello { .. } => None,
        }
    }

    /// Whether the service speaks our version.
    pub fn is_hello(&self) -> (r: bool)
        ensures
            r == (*self == FromFiles::Hello { version: VERSION }),
    {
        match self {
            FromFiles::Hello { version } => *version == VERSION,
            _ => false,
        }
    }
}

} // verus!
