//! What the spawner hands a child that has peers: a line on which it pushes attachments, each
//! carrying one fd. The child never connects to anything.
use vstd::prelude::*;

use super::seq::Fault;

verus! {

/// Where the spawner puts the wire.
pub const WIRE_FD: i32 = 3;

/// Set to say that the wire is there.
pub const WIRE_ENV: &'static str = "DRV_WIRE_FD";

/// What the fd riding along is.
#[derive(Clone, Copy, Debug, PartialEq, Eq, Structural)]
pub enum Attach {
    /// To the compositor or the lock app: a connection to `drv-authd`.
    Auth,
    /// To `drv-authd`: the compositor's connection (replaces the previous one).
    Compositor,
    /// To `drv-authd`: a lock app's connection.
    Verifier,
}

/// The next attachment, of a message that was read whole: a message without its one fd is
/// refused.
pub fn recv_attach(attach: Attach, fds: &Vec<i32>) -> (r: Result<(Attach, i32), Fault>)
    ensures
        r == if fds@.len() == 1 {
            Ok::<(Attach, i32), Fault>((attach, fds@[0]))
        } else {
            Err::<(Attach, i32), Fault>(Fault::NotOneFd)
        },
{
    if fds.len() == 1 {
        Ok((attach, fds[0]))
    } else {
        Err(Fault::NotOneFd)
    }
}

} // verus!
