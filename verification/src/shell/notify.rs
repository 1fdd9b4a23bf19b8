//! What an app says on the shell's notification socket, and hears back.
use vstd::prelude::*;

verus! {

pub const VERSION: u32 = 1;

/// Text from the app is cut here before it is shown.
pub const MAX_TEXT: usize = 2048;

/// Where apps find the socket.
pub const SOCKET: &'static str = "/run/drv-shell/notify.sock";

#[derive(Debug)]
pub enum ToShell {
    Hello { version: u32 },
    /// `Notified` with the notification's id, or `Failed`. `replaces`, if not 0, is an earlier
    /// id of this app's to update in place.
    Notify { req: u64, replaces: u32, summary: String, body: String },
    /// Takes one of this app's notifications down. No answer.
    Close { id: u32 },
}

/// Whether an app's first word will do: a hello of our version.
pub fn greeted(msg: &ToShell) -> (r: bool)
    ensures
        r == (*msg == ToShell::Hello { version: VERSION }),
{
    match msg {
        ToShell::Hello { version } => *version == VERSION,
        _ => false,
    }
}

#[derive(Debug)]
pub enum FromShell {
    Hello { version: u32 },
    Notified { req: u64, id: u32 },
    Failed { req: u64, reason: String },
}

impl FromShell {
    pub open spec fn answers(self) -> Option<u64> {
        match self {
            FromShell::Notified { req, .. } => Some(req),
            FromShell::Failed { req, .. } => Some(req),
            FromShell::Hello { .. } => None,
        }
    }

    /// Whether the service speaks our version.
    pub fn is_hello(&self) -> (r: bool)
        ensures
            r == (*self == FromShell::Hello { version: VERSION }),
    {
        match self {
            FromShell::Hello { version } => *version == VERSION,
            _ => false,
        }
    }

    /// The request this answers, if it answers one.
    pub fn req(&self) -> (r: Option<u64>)
        ensures
            r == self.answers(),
    {
        match self {
            FromShell::Notified { req, .. } => Some(*req),
            FromShell::Failed { req, .. } => Some(*req),
            FromShell::Hello { .. } => None,
        }
    }
}

} // verus!
