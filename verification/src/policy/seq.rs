//! The one transport between our pieces: one message per datagram, fds beside it. A closed
//! peer is an end; a message that does not fit is an error, never a truncated read.
use vstd::prelude::*;

verus! {

/// Datagrams larger than this are refused.
pub const MAX_MSG: usize = 65536;

/// Fds per message.
pub const MAX_FDS: usize = 16;

/// What stops a message.
#[derive(Clone, Copy, Debug, PartialEq, Eq, Structural)]
pub enum Fault {
    TooLarge,
    TooManyFds,
    ShortSend,
    /// The peer closed.
    Closed,
    /// There is not exactly one fd with an attachment.
    NotOneFd,
}

impl Fault {
    pub open spec fn text(self) -> Seq<char> {
        match self {
            Fault::TooLarge => "message too large"@,
            Fault::TooManyFds => "too many fds"@,
            Fault::ShortSend => "short send"@,
            Fault::Closed => "peer closed"@,
            Fault::NotOneFd => "attachment without exactly one fd"@,
        }
    }

    /// The fault in words.
    pub fn message(self) -> (r: &'static str)
        ensures
            r@ == self.text(),
    {
        match self {
            Fault::TooLarge => "message too large",
            Fault::TooManyFds => "too many fds",
            Fault::ShortSend => "short send",
            Fault::Closed => "peer closed",
            Fault::NotOneFd => "attachment without exactly one fd",
        }
    }
}

/// Whether a payload may go out on a line that takes `max` bytes, with `fds` of at most
/// `max_fds`.
pub fn check_send(len: usize, max: usize, fds: usize, max_fds: usize) -> (r: Result<(), Fault>)
    ensures
        r == if len > max {
            Err::<(), Fault>(Fault::TooLarge)
        } else if fds > max_fds {
            Err::<(), Fault>(Fault::TooManyFds)
        } else {
            Ok::<(), Fault>(())
        },
{
    if len > max {
        Err(Fault::TooLarge)
    } else if fds > max_fds {
        Err(Fault::TooManyFds)
    } else {
        Ok(())
    }
}

/// Whether all of a payload went out.
pub fn check_sent(sent: usize, len: usize) -> (r: Result<(), Fault>)
    ensures
        r == if sent != len {
            Err::<(), Fault>(Fault::ShortSend)
        } else {
            Ok::<(), Fault>(())
        },
{
    if sent != len {
        Err(Fault::ShortSend)
    } else {
        Ok(())
    }
}

/// Whether what came in is a whole message: `bytes` were read, and the kernel says whether it
/// cut the datagram.
pub fn check_recv(bytes: usize, truncated: bool) -> (r: Result<(), Fault>)
    ensures
        r == if bytes == 0 {
            Err::<(), Fault>(Fault::Closed)
        } else if truncated {
            Err::<(), Fault>(Fault::TooLarge)
        } else {
            Ok::<(), Fault>(())
        },
{
    if bytes == 0 {
        Err(Fault::Closed)
    } else if truncated {
        Err(Fault::TooLarge)
    } else {
        Ok(())
    }
}

} // verus!
