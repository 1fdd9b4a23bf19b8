//! Which devices are the seat's, and what the client's requests come to.
use vstd::prelude::*;

use super::daemon::{
    close_answered, described, is_ours, known_devices, node_opened, requested, switch_answered,
    wrong_version, Daemon, Do, Udev,
};
use super::{is_seat_node, Device, DeviceKind, Request, Response};
use crate::text::{decimal, decimal_int};

verus! {

/// A device is the seat's where it has a node of one, a number, and is assigned to it; a device
/// that is assigned to none is of the first seat.
pub proof fn devices_are_assigned_to_seats(seat: Seq<char>, device: Udev)
    requires
        device.node is Some,
        is_seat_node(device.node->0@),
        device.dev is Some,
    ensures
        device.seat is Some ==> (is_ours(seat, device) <==> device.seat->0@ == seat),
        device.seat is None ==> (is_ours(seat, device) <==> seat == "seat0"@),
{
}

/// What has no node of a seat, or no number, is nobody's.
pub proof fn other_devices_are_nobodys(seat: Seq<char>, device: Udev)
    requires
        device.node is None || !is_seat_node(device.node->0@) || device.dev is None,
    ensures
        !is_ours(seat, device),
{
}

/// A device is announced at its node and number, as a card where it is below "/dev/dri/" and
/// else as an input; and only a card is the one the machine started on.
pub proof fn devices_are_described(device: Udev, rest: Seq<char>)
    requires
        device.node is Some,
        device.dev is Some,
    ensures
        ({
            let d = described(device);
            let path = device.node->0@;
            &&& d.path == device.node->0
            &&& d.dev == device.dev->0
            &&& path == "/dev/dri/"@ + rest ==> d.kind == DeviceKind::Drm
            &&& path == "/dev/input/"@ + rest ==> d.kind == DeviceKind::Input
            &&& d.boot_vga <==> d.kind == DeviceKind::Drm && device.boot_vga is Some
                && device.boot_vga->0@ == "1"@
        }),
{
    reveal_strlit("/dev/dri/");
    reveal_strlit("/dev/input/");
    let a = "/dev/dri/"@ + rest;
    let b = "/dev/input/"@ + rest;
    assert(a.subrange(0, 9) =~= "/dev/dri/"@);
    assert(b[5] == 'i');
    assert("/dev/dri/"@[5] == 'd');
    if "/dev/dri/"@.is_prefix_of(b) {
        assert(b.subrange(0, 9)[5] == b[5]);
    }
}

/// A node is opened for the client only where it is a seat's and was announced; any other is
/// refused by its path, and nothing changes either way before it was opened.
pub proof fn only_announced_nodes_are_tried(before: Daemon, after: Daemon, path: String, r: Do)
    requires
        requested(before, after, Request::Open { path }, r),
    ensures
        ({
            let known = before.devices.known@;
            let there = exists|dev: u64| #[trigger]
                known.contains_key(dev) && known[dev].path@ == path@;
            &&& is_seat_node(path@) && there ==> r == (Do::Open { path })
            &&& !(is_seat_node(path@) && there) ==> r is Reply && r->Reply_0 is Error
                && r->Reply_0->Error_0@ == path@ + " is not a seat device"@
            &&& after.open == before.open
            &&& after.next_id == before.next_id
        }),
{
}

/// A device is closed where the client has it open, and it has it no longer; one that it has not
/// is refused. A switch is tried as it is asked for, and a second hello is refused.
pub proof fn requests_come_to_this(
    before: Daemon,
    after: Daemon,
    id: u32,
    vt: i32,
    version: u32,
    r: Do,
)
    ensures
        requested(before, after, Request::Close { id }, r) ==> {
            &&& before.open@.contains_key(id as u64) ==> r == (Do::Close { id })
            &&& !before.open@.contains_key(id as u64) ==> r is Reply && r->Reply_0 is Error
                && r->Reply_0->Error_0@ == "no device "@ + decimal(id as nat)
            &&& !after.open@.contains_key(id as u64)
            &&& forall|other: u64|
                other != id ==> (#[trigger] after.open@.contains_key(other)
                    <==> before.open@.contains_key(other))
        },
        requested(before, after, Request::SwitchVt { vt }, r) ==> r == (Do::SwitchVt { vt })
            && after.open == before.open,
        requested(before, after, Request::Hello { version }, r) ==> r is Reply && r->Reply_0
            is Error && r->Reply_0->Error_0@ == "already said hello"@ && after.open == before.open,
        wrong_version(version) == "version "@ + decimal(version as nat) + " unsupported, want 1"@,
{
    reveal_strlit(" unsupported, want ");
    reveal_strlit(" unsupported, want 1");
    assert(decimal(1) =~= seq!['1']);
    assert(wrong_version(version) =~= "version "@ + decimal(version as nat)
        + " unsupported, want 1"@);
}

/// What was opened has the next number and is open from then on; what could not be is refused
/// with the reason, and nothing is open that was not.
pub proof fn the_opened_get_the_next_number(
    before: Daemon,
    after: Daemon,
    path: Seq<char>,
    e: Seq<char>,
    r: Response,
)
    ensures
        node_opened(before, after, path, Ok(()), r) ==> {
            &&& r == (Response::Opened { id: before.next_id })
            &&& after.open@.contains_key(before.next_id as u64)
            &&& after.next_id == before.next_id + 1
            &&& forall|other: u64|
                other != before.next_id ==> (#[trigger] after.open@.contains_key(other)
                    <==> before.open@.contains_key(other))
        },
        node_opened(before, after, path, Err(e), r) ==> {
            &&& r is Error
            &&& r->Error_0@ == "open "@ + path + ": "@ + e
            &&& after.open == before.open
            &&& after.next_id == before.next_id
        },
{
}

/// What the client hears of a close and of a switch.
pub proof fn the_client_hears(vt: i32, e: Seq<char>, r: Response)
    ensures
        close_answered(Ok(()), r) ==> r == Response::Done,
        close_answered(Err(e), r) ==> r is Error && r->Error_0@ == "close: "@ + e,
        switch_answered(vt, Ok(()), r) ==> r == Response::Done,
        switch_answered(vt, Err(e), r) ==> r is Error && r->Error_0@ == "switch to vt "@
            + decimal_int(vt as int) + ": "@ + e,
{
}

/// The devices that are known are announced, each as it is.
pub proof fn each_known_device_is_told(rows: Seq<(u64, Device)>, i: int)
    ensures
        known_devices(rows).len() == rows.len(),
        0 <= i < rows.len() ==> known_devices(rows)[i] == rows[i].1,
{
}

/// No request changes which devices are known or whether the seat is ours, and only an opening
/// takes a number.
pub proof fn requests_leave_the_devices(
    before: Daemon,
    after: Daemon,
    request: Request,
    r: Do,
    path: Seq<char>,
    outcome: Result<(), Seq<char>>,
    resp: Response,
)
    ensures
        requested(before, after, request, r) ==> after.devices == before.devices && after.active
            == before.active && after.next_id == before.next_id,
        node_opened(before, after, path, outcome, resp) ==> after.devices == before.devices
            && after.active == before.active,
{
}

} // verus!
