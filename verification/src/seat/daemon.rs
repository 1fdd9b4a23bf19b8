//! The seat daemon: the only process on the seat. It announces the seat's nodes to its one
//! client, opens those nodes and only those, and forwards hotplug and session events.
use vstd::prelude::*;
use vstd::string::*;

use super::{is_allowed_device, is_seat_node, Device, DeviceKind, Event, Request, Response, VERSION};
use crate::order::{lists_all, picked, rearranged, text_before, text_order};
use crate::os::seccomp::{
    allowed_if, base_rules, freely, masked, open_rules, reseal_rules, socket_rules, Allowlist,
    Rules, Syscall, AF_NETLINK, IOC_TYPE_MASK,
};
use crate::table::{has_row, lemma_row, row_of, Table};
use crate::text::{chars_of, decimal, decimal_int, number, number_int, same_text, strip_front};
use crate::views::why;

verus! {

/// A device as udev has it.
#[derive(Debug)]
pub struct Udev {
    /// The device node, where there is one with a name in UTF-8.
    pub node: Option<String>,
    pub dev: Option<u64>,
    /// The seat it is assigned to.
    pub seat: Option<String>,
    /// What its PCI parent says of `boot_vga`.
    pub boot_vga: Option<String>,
}

/// What happened to a device.
#[derive(Debug)]
pub enum Hotplug {
    Added(Udev),
    Removed { dev: Option<u64> },
    Changed { dev: Option<u64> },
    Other,
}

/// The seat of a device that is assigned to none.
pub const SEAT0: &'static str = "seat0";

/// A card, not an input node.
pub open spec fn is_card(path: Seq<char>) -> bool {
    "/dev/dri/"@.is_prefix_of(path)
}

/// The device is one of this seat's card or event nodes.
pub open spec fn is_ours(seat: Seq<char>, device: Udev) -> bool {
    &&& device.node is Some
    &&& is_seat_node(device.node->0@)
    &&& device.dev is Some
    &&& (match device.seat {
        Some(s) => s@,
        None => SEAT0@,
    }) == seat
}

/// What a device of ours is to us.
pub open spec fn described(device: Udev) -> Device {
    let node = device.node->0;
    Device {
        kind: if is_card(node@) {
            DeviceKind::Drm
        } else {
            DeviceKind::Input
        },
        dev: device.dev->0,
        path: node,
        boot_vga: is_card(node@) && device.boot_vga is Some && device.boot_vga->0@ == "1"@,
    }
}

/// What a udev device is to us, if it is one of this seat's card or event nodes.
pub fn describe(seat: &str, device: Udev) -> (r: Option<Device>)
    ensures
        r == if is_ours(seat@, device) {
            Some(described(device))
        } else {
            None
        },
{
    let path = match device.node {
        Some(path) => path,
        None => return None,
    };
    if !is_allowed_device(path.as_str()) {
        return None;
    }
    let dev = match device.dev {
        Some(dev) => dev,
        None => return None,
    };
    let ours = match &device.seat {
        Some(s) => same_text(s.as_str(), seat),
        None => same_text(SEAT0, seat),
    };
    if !ours {
        return None;
    }
    let card = match strip_front(&chars_of(path.as_str()), "/dev/dri/") {
        Some(_) => true,
        None => false,
    };
    let kind = if card { DeviceKind::Drm } else { DeviceKind::Input };
    let boot_vga = card && match &device.boot_vga {
        Some(v) => same_text(v.as_str(), "1"),
        None => false,
    };
    Some(Device { kind, dev, path, boot_vga })
}

/// The seat's devices as udev sees them: what the client is told about and allowed to open.
#[derive(Debug)]
pub struct Devices {
    pub seat: String,
    pub known: Table<Device>,
}

/// Some known device is at `path`.
pub open spec fn announced(known: Map<u64, Device>, path: Seq<char>) -> bool {
    exists|dev: u64| #[trigger] known.contains_key(dev) && known[dev].path@ == path
}

impl Devices {
    pub open spec fn wf(&self) -> bool {
        self.known.wf()
    }

    /// No device known yet.
    pub fn new(seat: String) -> (r: Devices)
        ensures
            r.wf(),
            r.seat == seat,
            r.known@ == Map::<u64, Device>::empty(),
    {
        Devices { seat, known: Table::new() }
    }

    /// A device was there when we came.
    pub fn enumerated(&mut self, device: Udev)
        requires
            old(self).wf(),
        ensures
            final(self).wf(),
            final(self).seat == old(self).seat,
            final(self).known@ == if is_ours(old(self).seat@, device) {
                old(self).known@.insert(device.dev->0, described(device))
            } else {
                old(self).known@
            },
    {
        if let Some(d) = describe(self.seat.as_str(), device) {
            self.known.insert(d.dev, d);
        }
    }

    /// Whether the client was told of a node.
    pub fn is_announced(&self, path: &str) -> (r: bool)
        requires
            self.wf(),
        ensures
            r == announced(self.known@, path@),
    {
        let ghost rows = self.known.rows@;
        let mut i: usize = 0;
        while i < self.known.rows.len()
            invariant
                i <= self.known.rows@.len(),
                rows == self.known.rows@,
                self.wf(),
                forall|j: int| 0 <= j < i ==> (#[trigger] rows[j]).1.path@ != path@,
            decreases self.known.rows@.len() - i,
        {
            if same_text(self.known.rows[i].1.path.as_str(), path) {
                proof {
                    assert(row_of(rows, rows[i as int].0, i as int));
                    lemma_row(rows, rows[i as int].0, i as int);
                    assert(self.known@.contains_key(rows[i as int].0));
                }
                return true;
            }
            i = i + 1;
        }
        proof {
            if announced(self.known@, path@) {
                let dev = choose|dev: u64| #[trigger]
                    self.known@.contains_key(dev) && self.known@[dev].path@ == path@;
                assert(has_row(rows, dev));
                let j = choose|j: int| #[trigger] row_of(rows, dev, j);
                lemma_row(rows, dev, j);
            }
        }
        false
    }

    /// The seat's devices, in the order of their paths.
    pub fn snapshot(&self) -> (r: Vec<Device>)
        ensures
            rearranged(r@, known_devices(self.known.rows@)),
            forall|a: int, b: int|
                0 <= a < b < r@.len() ==> !text_before(
                    (#[trigger] r@[b]).path@,
                    (#[trigger] r@[a]).path@,
                ),
    {
        let ghost all = known_devices(self.known.rows@);
        let mut paths: Vec<String> = Vec::new();
        let mut i: usize = 0;
        while i < self.known.rows.len()
            invariant
                i <= self.known.rows@.len(),
                paths@.len() == i,
                forall|j: int| 0 <= j < i ==> #[trigger] paths@[j] == self.known.rows@[j].1.path,
            decreases self.known.rows@.len() - i,
        {
            paths.push(self.known.rows[i].1.path.clone());
            i = i + 1;
        }
        let order = text_order(&paths);
        let mut out: Vec<Device> = Vec::new();
        let mut k: usize = 0;
        while k < order.len()
            invariant
                k <= order@.len(),
                lists_all(order@, self.known.rows@.len() as int),
                all == known_devices(self.known.rows@),
                out@.len() == k,
                forall|j: int| 0 <= j < k ==> #[trigger] out@[j] == all[order@[j] as int],
            decreases order@.len() - k,
        {
            out.push(self.known.rows[order[k]].1.copy());
            k = k + 1;
        }
        assert(picked(out@, all, order@));
        assert forall|a: int, b: int| 0 <= a < b < out@.len() implies !text_before(
            (#[trigger] out@[b]).path@,
            (#[trigger] out@[a]).path@,
        ) by {
            let x = paths@[order@[a] as int]@;
            let y = paths@[order@[b] as int]@;
            assert(!text_before(y, x));
        }
        out
    }

    /// What happened to a device, as the client is told it.
    pub fn dispatch(&mut self, event: Hotplug) -> (r: Option<Event>)
        requires
            old(self).wf(),
        ensures
            final(self).wf(),
            final(self).seat == old(self).seat,
            match event {
                Hotplug::Added(device) => if is_ours(old(self).seat@, device) {
                    &&& final(self).known@ == old(self).known@.insert(
                        device.dev->0,
                        described(device),
                    )
                    &&& r == Some(Event::Added(described(device)))
                } else {
                    final(self).known == old(self).known && r is None
                },
                Hotplug::Removed { dev } => if dev is Some && old(self).known@.contains_key(
                    dev->0,
                ) {
                    &&& final(self).known@ == old(self).known@.remove(dev->0)
                    &&& r == Some(Event::Removed { dev: dev->0 })
                } else {
                    final(self).known == old(self).known && r is None
                },
                Hotplug::Changed { dev } => {
                    &&& final(self).known == old(self).known
                    &&& r == if dev is Some && old(self).known@.contains_key(dev->0) && old(
                        self).known@[dev->0].kind == DeviceKind::Drm {
                        Some(Event::Changed { dev: dev->0 })
                    } else {
                        None
                    }
                },
                Hotplug::Other => final(self).known == old(self).known && r is None,
            },
    {
        match event {
            Hotplug::Added(device) => match describe(self.seat.as_str(), device) {
                Some(d) => {
                    let told = d.copy();
                    self.known.insert(d.dev, d);
                    Some(Event::Added(told))
                },
                None => None,
            },
            Hotplug::Removed { dev } => match dev {
                Some(dev) => match self.known.remove(dev) {
                    Some(_) => Some(Event::Removed { dev }),
                    None => None,
                },
                None => None,
            },
            Hotplug::Changed { dev } => match dev {
                Some(dev) => match self.known.get(dev) {
                    Some(d) => if d.kind == DeviceKind::Drm {
                        Some(Event::Changed { dev })
                    } else {
                        None
                    },
                    None => None,
                },
                None => None,
            },
            Hotplug::Other => None,
        }
    }
}

/// The devices of rows.
pub open spec fn known_devices(rows: Seq<(u64, Device)>) -> Seq<Device> {
    rows.map_values(|row: (u64, Device)| row.1)
}

/// What a request is answered with, or what is done for it first.
#[derive(Debug)]
pub enum Do {
    Reply(Response),
    /// Open this node; the outcome decides the reply.
    Open { path: String },
    /// Close this device.
    Close { id: u32 },
    SwitchVt { vt: i32 },
}

/// The daemon, serving its client.
#[derive(Debug)]
pub struct Daemon {
    pub devices: Devices,
    pub active: bool,
    /// The devices the client has open.
    pub open: Table<()>,
    pub next_id: u32,
}

/// A refusal with this text.
pub open spec fn refuses(r: Response, text: Seq<char>) -> bool {
    r matches Response::Error(e) && e@ == text
}

/// The error for a version that is not ours.
pub open spec fn wrong_version(version: u32) -> Seq<char> {
    "version "@ + decimal(version as nat) + " unsupported, want "@ + decimal(VERSION as nat)
}

/// What `request` does to the daemon, and what it comes to.
pub open spec fn requested(before: Daemon, after: Daemon, request: Request, r: Do) -> bool {
    &&& after.wf()
    &&& after.devices == before.devices
    &&& after.active == before.active
    &&& after.next_id == before.next_id
    &&& match request {
        Request::Open { path } => {
            &&& after.open == before.open
            &&& if is_seat_node(path@) && announced(before.devices.known@, path@) {
                r == Do::Open { path }
            } else {
                r matches Do::Reply(resp) && refuses(resp, path@ + " is not a seat device"@)
            }
        },
        Request::Close { id } => {
            &&& after.open@ == before.open@.remove(id as u64)
            &&& if before.open@.contains_key(id as u64) {
                r == Do::Close { id }
            } else {
                r matches Do::Reply(resp) && refuses(resp, "no device "@ + decimal(id as nat))
            }
        },
        Request::SwitchVt { vt } => after.open == before.open && r == Do::SwitchVt { vt },
        Request::Hello { .. } => after.open == before.open && (r matches Do::Reply(resp)
            && refuses(resp, "already said hello"@)),
    }
}

/// What opening a node does to the daemon, and what the client hears.
pub open spec fn node_opened(
    before: Daemon,
    after: Daemon,
    path: Seq<char>,
    outcome: Result<(), Seq<char>>,
    r: Response,
) -> bool {
    &&& after.wf()
    &&& after.devices == before.devices
    &&& after.active == before.active
    &&& match outcome {
        Ok(_) => {
            &&& r == (Response::Opened { id: before.next_id })
            &&& after.next_id == before.next_id + 1
            &&& after.open@ == before.open@.insert(before.next_id as u64, ())
        },
        Err(e) => {
            &&& refuses(r, "open "@ + path + ": "@ + e)
            &&& after.next_id == before.next_id
            &&& after.open == before.open
        },
    }
}

/// What a hangup does to the daemon; `ids` are closed.
pub open spec fn let_go(before: Daemon, after: Daemon, ids: Seq<u32>) -> bool {
    &&& after.wf()
    &&& after.devices == before.devices
    &&& after.active == before.active
    &&& after.next_id == 1
    &&& after.open@ == Map::<u64, ()>::empty()
    &&& ids == before.open.rows@.map_values(|row: (u64, ())| row.0 as u32)
}

/// What the client hears of a close.
pub open spec fn close_answered(outcome: Result<(), Seq<char>>, r: Response) -> bool {
    match outcome {
        Ok(_) => r == Response::Done,
        Err(e) => refuses(r, "close: "@ + e),
    }
}

/// What the client hears of a switch to another VT.
pub open spec fn switch_answered(vt: i32, outcome: Result<(), Seq<char>>, r: Response) -> bool {
    match outcome {
        Ok(_) => r == Response::Done,
        Err(e) => refuses(r, "switch to vt "@ + decimal_int(vt as int) + ": "@ + e),
    }
}

/// What an opening comes to: the first reply, and the error it ends with, if it does.
#[derive(Debug)]
pub struct Opening {
    pub reply: Option<Response>,
    pub end: Option<String>,
}

impl Daemon {
    pub open spec fn wf(&self) -> bool {
        self.devices.wf() && self.open.wf()
    }

    /// A daemon nobody talked to yet.
    pub fn new(devices: Devices) -> (r: Daemon)
        requires
            devices.wf(),
        ensures
            r.wf(),
            r.devices == devices,
            !r.active,
            r.open@ == Map::<u64, ()>::empty(),
            r.next_id == 1,
    {
        Daemon { devices, active: false, open: Table::new(), next_id: 1 }
    }

    /// The seat became ours, or went elsewhere: what the client is told. A seat that goes
    /// elsewhere is acknowledged at once, by `enable` being false.
    pub fn seat_event(&mut self, enable: bool) -> (r: Event)
        ensures
            final(self).active == enable,
            final(self).devices == old(self).devices,
            final(self).open == old(self).open,
            final(self).next_id == old(self).next_id,
            r == if enable {
                Event::Enable
            } else {
                Event::Disable
            },
    {
        self.active = enable;
        if enable {
            Event::Enable
        } else {
            Event::Disable
        }
    }

    /// The client's first message: anything but our version's hello ends it.
    pub fn hello(&self, first: &Request) -> (r: Opening)
        ensures
            match *first {
                Request::Hello { version } => if version == VERSION {
                    &&& r.end is None
                    &&& r.reply matches Some(Response::Hello { version: v, seat, active, devices })
                        && v == VERSION && seat == self.devices.seat && active == self.active
                        && rearranged(devices@, known_devices(self.devices.known.rows@))
                        && forall|a: int, b: int|
                        0 <= a < b < devices@.len() ==> !text_before(
                            (#[trigger] devices@[b]).path@,
                            (#[trigger] devices@[a]).path@,
                        )
                } else {
                    &&& r.reply is Some && refuses(r.reply->0, wrong_version(version))
                    &&& r.end matches Some(e) && e@ == wrong_version(version)
                },
                _ => r.reply is None && (r.end matches Some(e) && e@ == "expected Hello"@),
            },
    {
        match first {
            Request::Hello { version } => {
                if *version == VERSION {
                    let reply = Response::Hello {
                        version: VERSION,
                        seat: self.devices.seat.clone(),
                        active: self.active,
                        devices: self.devices.snapshot(),
                    };
                    return Opening { reply: Some(reply), end: None };
                }
                let mut text = "version ".to_owned();
                text.append(number(*version as u64).as_str());
                text.append(" unsupported, want ");
                text.append(number(VERSION as u64).as_str());
                Opening { reply: Some(Response::Error(text.clone())), end: Some(text) }
            },
            _ => Opening { reply: None, end: Some("expected Hello".to_owned()) },
        }
    }

    /// A request of the client. Only a node that is allowed and was announced is opened.
    pub fn request(&mut self, request: Request) -> (r: Do)
        requires
            old(self).wf(),
        ensures
            requested(*old(self), *final(self), request, r),
    {
        match request {
            Request::Open { path } => {
                if !is_allowed_device(path.as_str()) || !self.devices.is_announced(path.as_str()) {
                    let mut text = path;
                    text.append(" is not a seat device");
                    return Do::Reply(Response::Error(text));
                }
                Do::Open { path }
            },
            Request::Close { id } => match self.open.remove(id as u64) {
                Some(_) => Do::Close { id },
                None => {
                    let mut text = "no device ".to_owned();
                    text.append(number(id as u64).as_str());
                    Do::Reply(Response::Error(text))
                },
            },
            Request::SwitchVt { vt } => Do::SwitchVt { vt },
            Request::Hello { .. } => Do::Reply(Response::Error("already said hello".to_owned())),
        }
    }

    /// A node was opened, or could not be: an opened one gets the next number.
    pub fn opened(&mut self, path: &str, outcome: Result<(), String>) -> (r: Response)
        requires
            old(self).wf(),
            old(self).next_id < u32::MAX,
        ensures
            node_opened(*old(self), *final(self), path@, why(outcome), r),
    {
        match outcome {
            Ok(_) => {
                let id = self.next_id;
                self.next_id = id + 1;
                self.open.insert(id as u64, ());
                Response::Opened { id }
            },
            Err(e) => {
                let mut text = "open ".to_owned();
                text.append(path);
                text.append(": ");
                text.append(e.as_str());
                Response::Error(text)
            },
        }
    }

    /// The devices that are closed once the client hung up: all that it has open. The next
    /// client's are numbered anew.
    pub fn hung_up(&mut self) -> (r: Vec<u32>)
        requires
            old(self).wf(),
        ensures
            let_go(*old(self), *final(self), r@),
    {
        let ghost rows = self.open.rows@;
        let mut out: Vec<u32> = Vec::new();
        let mut i: usize = 0;
        while i < self.open.rows.len()
            invariant
                i <= self.open.rows@.len(),
                *self == *old(self),
                rows == self.open.rows@,
                out@ == rows.take(i as int).map_values(|row: (u64, ())| row.0 as u32),
            decreases self.open.rows@.len() - i,
        {
            #[verifier::truncate]
            let id: u32 = self.open.rows[i].0 as u32;
            out.push(id);
            assert(out@ =~= rows.take(i + 1).map_values(|row: (u64, ())| row.0 as u32));
            i = i + 1;
        }
        assert(rows.take(i as int) =~= rows);
        self.open = Table::new();
        self.next_id = 1;
        out
    }
}

/// What closing a device comes to.
pub fn closed(outcome: Result<(), String>) -> (r: Response)
    ensures
        close_answered(why(outcome), r),
{
    match outcome {
        Ok(_) => Response::Done,
        Err(e) => {
            let mut text = "close: ".to_owned();
            text.append(e.as_str());
            Response::Error(text)
        },
    }
}

/// What switching to another VT comes to.
pub fn switched(vt: i32, outcome: Result<(), String>) -> (r: Response)
    ensures
        switch_answered(vt, why(outcome), r),
{
    match outcome {
        Ok(_) => Response::Done,
        Err(e) => {
            let mut text = "switch to vt ".to_owned();
            text.append(number_int(vt as i64).as_str());
            text.append(": ");
            text.append(e.as_str());
            Response::Error(text)
        },
    }
}

/// What the ioctls of one type byte add.
pub open spec fn ioctl_type_rules(call: Syscall, rules: Option<Rules>, ty: u8) -> Option<Rules> {
    if call == Syscall::Ioctl {
        allowed_if(rules, masked(1, IOC_TYPE_MASK, (ty * 256) as u64))
    } else {
        rules
    }
}

/// What both seals of the daemon allow: opening existing nodes, and DRM, evdev and console
/// ioctls.
pub open spec fn sealed_rules(x86_64: bool, pid: u32, call: Syscall) -> Option<Rules> {
    let opening = open_rules(x86_64, call, base_rules(x86_64, pid, call));
    ioctl_type_rules(
        call,
        ioctl_type_rules(
            call,
            ioctl_type_rules(call, ioctl_type_rules(call, opening, 100), 69),
            75,
        ),
        86,
    )
}

/// What the first, wider seal allows on top: the seat library forks its server, and udev binds
/// its netlink socket.
pub open spec fn opening_calls(x86_64: bool) -> Seq<Syscall> {
    let calls = seq![Syscall::Clone, Syscall::Wait4, Syscall::Socketpair, Syscall::Bind];
    if x86_64 {
        calls.push(Syscall::Fork)
    } else {
        calls
    }
}

/// What a seal of the daemon allows.
pub open spec fn seal_rules(x86_64: bool, pid: u32, opening: bool, call: Syscall) -> Option<Rules> {
    let sealed = sealed_rules(x86_64, pid, call);
    if !opening {
        sealed
    } else {
        let wider = if opening_calls(x86_64).contains(call) {
            freely()
        } else {
            sealed
        };
        reseal_rules(call, socket_rules(call, wider, AF_NETLINK))
    }
}

/// The daemon's seal. `opening` is the first, wider one.
pub fn lockdown(x86_64: bool, pid: u32, opening: bool) -> (r: Allowlist)
    ensures
        r.x86_64 == x86_64,
        forall|c: Syscall| #[trigger] r.rules(c) == seal_rules(x86_64, pid, opening, c),
{
    let mut allow = Allowlist::base(x86_64, pid);
    allow.open_existing();
    allow.ioctl_type(100);
    allow.ioctl_type(69);
    allow.ioctl_type(75);
    allow.ioctl_type(86);
    if opening {
        let mut calls = vec![
            Syscall::Clone,
            Syscall::Wait4,
            Syscall::Socketpair,
            Syscall::Bind,
        ];
        if x86_64 {
            calls.push(Syscall::Fork);
        }
        assert(calls@ =~= opening_calls(x86_64));
        allow.allow(&calls);
        allow.socket(AF_NETLINK);
        allow.reseal();
    }
    allow
}

/// Once the seat is up, the daemon starts no process, makes no socket, and opens no file for
/// anything but reading or writing what is there.
pub proof fn the_second_seal_is_stricter(x86_64: bool, pid: u32)
    ensures
        seal_rules(x86_64, pid, false, Syscall::Socket) is None,
        seal_rules(x86_64, pid, false, Syscall::Fork) is None,
        seal_rules(x86_64, pid, false, Syscall::Bind) is None,
        seal_rules(x86_64, pid, false, Syscall::Seccomp) is None,
        seal_rules(x86_64, pid, false, Syscall::Clone) == base_rules(x86_64, pid, Syscall::Clone),
{
    crate::os::seccomp::the_baseline_opens_nothing(x86_64, pid);
}

} // verus!
