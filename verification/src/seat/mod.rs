//! The seat: the compositor gets its display and input fds from a daemon instead of holding
//! device groups itself. Requests in lock step, a reply may carry one fd; session and hotplug
//! events arrive on a second socket.
use vstd::prelude::*;
use vstd::string::*;

use crate::text::{after_prefix, chars_of, is_digit, strip_front};

pub mod daemon;
pub mod laws;
pub mod nodes;

verus! {

/// Bumped on any incompatible change; the daemon answers `Hello` with its own version.
pub const VERSION: u32 = 1;

pub const SOCKET_ENV: &'static str = "DRV_SEAT_SOCKET";

pub const DEFAULT_SOCKET: &'static str = "/run/drv-seat/seat.sock";

/// Datagrams larger than this are refused.
pub const MAX_MSG: usize = 4096;

/// One fd rides along at most.
pub const MAX_FDS: usize = 1;

#[derive(Clone, Copy, Debug, PartialEq, Eq, Structural)]
pub enum DeviceKind {
    Drm,
    Input,
}

/// One of the seat's card or event nodes.
#[derive(Debug)]
pub struct Device {
    pub kind: DeviceKind,
    pub dev: u64,
    pub path: String,
    pub boot_vga: bool,
}

impl Device {
    /// The same device once more.
    pub fn copy(&self) -> (r: Device)
        ensures
            r == *self,
    {
        Device {
            kind: self.kind,
            dev: self.dev,
            path: self.path.clone(),
            boot_vga: self.boot_vga,
        }
    }
}

#[derive(Debug)]
pub enum Request {
    Hello { version: u32 },
    /// Open a device node; only what [`is_allowed_device`] accepts.
    Open { path: String },
    /// Close a device opened here. The client drops its own fd itself.
    Close { id: u32 },
    SwitchVt { vt: i32 },
}

#[derive(Debug)]
pub enum Response {
    /// Carries the events socket as its fd.
    Hello { version: u32, seat: String, active: bool, devices: Vec<Device> },
    /// Carries the device fd.
    Opened { id: u32 },
    Done,
    Error(String),
}

/// Session state changes and hotplug, on the events socket.
#[derive(Debug)]
pub enum Event {
    /// Devices are live (again).
    Enable,
    /// The seat went elsewhere: devices are revoked until `Enable`.
    Disable,
    Added(Device),
    Removed { dev: u64 },
    Changed { dev: u64 },
}

/// The number of a device node of the seat.
pub open spec fn is_node_number(n: Seq<char>) -> bool {
    0 < n.len() <= 4 && forall|i: int| 0 <= i < n.len() ==> is_digit(#[trigger] n[i])
}

/// A display or input node of the seat, by its canonical name.
pub open spec fn is_seat_node(path: Seq<char>) -> bool {
    match after_prefix(path, "/dev/dri/card"@) {
        Some(n) => is_node_number(n),
        None => match after_prefix(path, "/dev/input/event"@) {
            Some(n) => is_node_number(n),
            None => false,
        },
    }
}

/// Only the seat's display and input nodes, by their canonical names: no render nodes, no
/// symlinks, nothing else under `/dev`.
pub fn is_allowed_device(path: &str) -> (r: bool)
    ensures
        r == is_seat_node(path@),
{
    let cs = chars_of(path);
    let n = match strip_front(&cs, "/dev/dri/card") {
        Some(n) => n,
        None => match strip_front(&cs, "/dev/input/event") {
            Some(n) => n,
            None => return false,
        },
    };
    if n.len() == 0 || n.len() > 4 {
        return false;
    }
    let mut i: usize = 0;
    while i < n.len()
        invariant
            i <= n@.len(),
            is_seat_node(path@) == is_node_number(n@),
            forall|j: int| 0 <= j < i ==> is_digit(#[trigger] n@[j]),
        decreases n@.len() - i,
    {
        if !('0' <= n[i] && n[i] <= '9') {
            assert(!is_digit(n@[i as int]));
            assert(!is_node_number(n@));
            return false;
        }
        i = i + 1;
    }
    true
}

/// An allowed name cannot lead elsewhere: behind the directory it is one element, without a
/// slash or a dot.
pub proof fn allowed_names_lead_nowhere_else(path: Seq<char>)
    requires
        is_seat_node(path),
    ensures
        after_prefix(path, "/dev/dri/card"@) is Some ==> !path.skip(
            "/dev/dri/card"@.len() as int,
        ).contains('/') && !path.skip("/dev/dri/card"@.len() as int).contains('.'),
        after_prefix(path, "/dev/dri/card"@) is None ==> !path.skip(
            "/dev/input/event"@.len() as int,
        ).contains('/') && !path.skip("/dev/input/event"@.len() as int).contains('.'),
{
    assert(!is_digit('/') && !is_digit('.'));
    let n = match after_prefix(path, "/dev/dri/card"@) {
        Some(n) => n,
        None => after_prefix(path, "/dev/input/event"@)->0,
    };
    if n.contains('/') {
        let i = choose|i: int| 0 <= i < n.len() && n[i] == '/';
        assert(is_digit(n[i]));
    }
    if n.contains('.') {
        let i = choose|i: int| 0 <= i < n.len() && n[i] == '.';
        assert(is_digit(n[i]));
    }
}

/// The nodes of a seat are its cards and its input events, by number: "/dev/dri/card" or
/// "/dev/input/event" with one to four digits behind it, and nothing else.
pub proof fn seat_nodes_are_cards_and_events(path: Seq<char>, n: Seq<char>)
    ensures
        ({
            let number = 1 <= n.len() <= 4 && forall|i: int|
                0 <= i < n.len() ==> '0' <= #[trigger] n[i] && n[i] <= '9';
            &&& number ==> is_seat_node("/dev/dri/card"@ + n)
            &&& number ==> is_seat_node("/dev/input/event"@ + n)
            &&& !number ==> !is_seat_node("/dev/dri/card"@ + n)
            &&& !number ==> !is_seat_node("/dev/input/event"@ + n)
        }),
        is_seat_node(path) ==> (path.len() > 13 && path.take(13) == "/dev/dri/card"@) || (path.len()
            > 16 && path.take(16) == "/dev/input/event"@),
{
    reveal_strlit("/dev/dri/card");
    reveal_strlit("/dev/input/event");
    let a = "/dev/dri/card"@;
    let b = "/dev/input/event"@;
    let x = a + n;
    let y = b + n;
    assert(x.subrange(0, 13) =~= a);
    assert(x.skip(13) =~= n);
    assert(y.subrange(0, 16) =~= b);
    assert(y.skip(16) =~= n);
    assert(a[5] == 'd' && b[5] == 'i');
    assert(after_prefix(y, a) is None) by {
        if a.is_prefix_of(y) {
            assert(y.subrange(0, 13)[5] == y[5]);
        }
    }
    assert(forall|i: int|
        0 <= i < n.len() ==> is_digit(#[trigger] n[i]) == ('0' <= n[i] && n[i] <= '9'));
    if is_seat_node(path) {
        if path.len() >= 13 {
            assert(path.take(13) =~= path.subrange(0, 13));
        }
        if path.len() >= 16 {
            assert(path.take(16) =~= path.subrange(0, 16));
        }
    }
}

} // verus!
