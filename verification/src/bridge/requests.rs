//! What an app's requests come to on the trusted side, who hears an answer, and what consents
//! allow.
use vstd::prelude::*;

use super::access::{self, asked_acts, cancelled, dones, kinds, remotes_of, unwaited, waiting_at};
use super::bus::{escaped_byte, hex_pair, unescaped, uri_bytes, uri_of};
use super::server::{
    acts_of, answered_id, cast_ended, casts_ended, drops, goes_on, hears, plain_text, withdrawn,
    ActView, AppLink, Cast, Portal, Remote,
};
use super::wire::{Cursor, ToServer, ToShim};
use crate::policy::rpc::scheme_of;
use crate::portal::protocol::Response;
use crate::pw::Device;
use crate::text::decimal;
use crate::utf8::{byte_len, clipped_is_a_prefix};

verus! {

/// A file and a cast are put to the person as they were asked for; a session that there is
/// already is not started again.
pub proof fn requests_are_passed_on(
    link: AppLink,
    req: u64,
    title: Seq<char>,
    save: Option<Seq<char>>,
    session: u64,
    cursor: Cursor,
    screens: bool,
    windows: bool,
    again: Option<Seq<char>>,
    camera: bool,
    cameras: bool,
)
    ensures
        byte_len(title) <= 2048 ==> acts_of(
            link,
            ToServer::Choose { req, title, save },
            camera,
            cameras,
        ) == seq![ActView::AskChoose { req, title, save }],
        ({
            let msg = ToServer::Cast { req, session, cursor, screens, windows, again };
            &&& !link.casts@.contains_key(session) ==> acts_of(link, msg, camera, cameras) == seq![
                ActView::AskCast { req, session, cursor, screens, windows, again },
            ]
            &&& link.casts@.contains_key(session) ==> acts_of(link, msg, camera, cameras) == seq![
                ActView::Fail { req, reason: "the session was started already"@ },
            ]
        }),
{
    clipped_is_a_prefix(title, 2048);
}

/// A connection is opened only to the node of a session that streams, and marked with it, or
/// to the cameras where the person allowed them; the camera is asked about where they did not,
/// and whether there is one is told to everyone.
pub proof fn connections_see_what_was_allowed(
    link: AppLink,
    req: u64,
    session: u64,
    camera: bool,
    cameras: bool,
)
    ensures
        ({
            let streams = link.casts@.contains_key(session) && link.casts@[session].node is Some;
            let node = link.casts@[session].node->0;
            acts_of(link, ToServer::CastRemote { req, session }, camera, cameras) == if streams {
                seq![
                    ActView::Open {
                        req,
                        remote: Remote::Node { session, node },
                        mark: "node:"@ + decimal(node as nat),
                    },
                ]
            } else {
                seq![ActView::Fail { req, reason: "the session is not streaming"@ }]
            }
        }),
        acts_of(link, ToServer::CameraRemote { req }, camera, cameras) == if camera {
            seq![ActView::Open { req, remote: Remote::Cameras, mark: "camera"@ }]
        } else {
            seq![ActView::Fail { req, reason: "the camera was not allowed"@ }]
        },
        acts_of(link, ToServer::Camera { req }, camera, cameras) == if camera {
            seq![ActView::Send(ToShim::Granted { req })]
        } else {
            seq![ActView::AskCamera { req }]
        },
        acts_of(link, ToServer::CameraPresent { req }, camera, cameras) == seq![
            ActView::Send(ToShim::Present { req, present: cameras }),
        ],
{
}

/// Closing a cast withdraws its consent and cuts each of its connections; a request that waits
/// is withdrawn; of what there is not nothing is done.
pub proof fn closing_ends_the_cast(
    link: AppLink,
    session: u64,
    req: u64,
    camera: bool,
    cameras: bool,
    i: int,
)
    ensures
        ({
            let acts = acts_of(link, ToServer::CastClose { session }, camera, cameras);
            let cast = link.casts@[session];
            &&& !link.casts@.contains_key(session) ==> acts.len() == 0
            &&& link.casts@.contains_key(session) ==> {
                &&& acts.len() == cast.remotes@.len() + 1
                &&& acts[0] == (ActView::Cancel { id: cast.portal_id })
                &&& 0 <= i < cast.remotes@.len() ==> acts[i + 1] == (ActView::Drop {
                    client: cast.remotes@[i],
                })
            }
        }),
        acts_of(link, ToServer::Cancel { req }, camera, cameras) == if link.pending@.contains_key(
            req,
        ) {
            seq![ActView::Cancel { id: link.pending@[req] }]
        } else {
            Seq::empty()
        },
{
}

/// An app that goes has each of its casts ended and each of its requests withdrawn.
pub proof fn all_of_an_app_ends(rows: Seq<(u64, Cast)>, pending: Seq<(u64, u64)>, i: int, j: int)
    ensures
        0 <= i < rows.len() ==> casts_ended(rows).contains(
            ActView::Cancel { id: rows[i].1.portal_id },
        ),
        0 <= i < rows.len() && 0 <= j < rows[i].1.remotes@.len() ==> casts_ended(rows).contains(
            ActView::Drop { client: rows[i].1.remotes@[j] },
        ),
        0 <= i < pending.len() ==> withdrawn(pending)[i] == (ActView::Cancel { id: pending[i].1 }),
        withdrawn(pending).len() == pending.len(),
    decreases rows.len(),
{
    if rows.len() > 0 {
        let front = rows.drop_last();
        all_of_an_app_ends(front, pending, i, j);
        let before = casts_ended(front);
        let last = cast_ended(rows.last().1);
        let now = casts_ended(rows);
        if 0 <= i < rows.len() {
            let a = ActView::Cancel { id: rows[i].1.portal_id };
            let b = ActView::Drop { client: rows[i].1.remotes@[j] };
            if i < front.len() {
                assert(front[i] == rows[i]);
                let k = choose|k: int| 0 <= k < before.len() && before[k] == a;
                assert(now[k] == a);
                if 0 <= j < rows[i].1.remotes@.len() {
                    let k = choose|k: int| 0 <= k < before.len() && before[k] == b;
                    assert(now[k] == b);
                }
            } else {
                assert(last[0] == a);
                assert(now[before.len() as int] == a);
                if 0 <= j < rows[i].1.remotes@.len() {
                    assert(last[j + 1] == b);
                    assert(now[before.len() + j + 1] == b);
                }
            }
        }
    }
}

/// A URI is opened where it has a scheme, and else refused by its length alone; a notification
/// carries the app's manifest name and icon, in front of what it says.
pub proof fn links_and_notes_are_the_apps(
    link: AppLink,
    req: u64,
    uri: Seq<char>,
    replaces: u32,
    summary: Seq<char>,
    body: Seq<char>,
    camera: bool,
    cameras: bool,
)
    ensures
        scheme_of(uri) is Some ==> acts_of(link, ToServer::Open { req, uri }, camera, cameras)
            == seq![ActView::Launch { req, uri }],
        scheme_of(uri) is None ==> acts_of(link, ToServer::Open { req, uri }, camera, cameras)
            == seq![
            ActView::Fail { req, reason: "not a URI ("@ + decimal(byte_len(uri)) + " bytes)"@ },
        ],
        byte_len(summary) <= 2048 && byte_len(body) <= 2048 ==> acts_of(
            link,
            ToServer::Notify { req, replaces, summary, body },
            camera,
            cameras,
        ) == seq![
            ActView::Notify {
                req,
                replaces,
                app: link.app@.name,
                icon: if link.app@.icon is Some {
                    link.app@.icon->0
                } else {
                    Seq::empty()
                },
                summary: link.app@.name + ": "@ + summary,
                body: plain_text(body),
            },
        ],
        acts_of(link, ToServer::Hello { version: replaces }, camera, cameras).len() == 0,
{
    clipped_is_a_prefix(summary, 2048);
    clipped_is_a_prefix(body, 2048);
}

/// Plain text is what was said with the three characters of markup written out, one by one.
pub proof fn markup_is_written_out(a: Seq<char>, c: char)
    ensures
        plain_text(Seq::empty()) == Seq::<char>::empty(),
        plain_text(a.push(c)) == plain_text(a) + (if c == '&' {
            "&amp;"@
        } else if c == '<' {
            "&lt;"@
        } else if c == '>' {
            "&gt;"@
        } else {
            seq![c]
        }),
        !a.contains('&') && !a.contains('<') && !a.contains('>') ==> plain_text(a) == a,
    decreases a.len(),
{
    assert(a.push(c).drop_last() =~= a);
    if a.len() > 0 {
        let front = a.drop_last();
        markup_is_written_out(front, c);
        assert(a[a.len() - 1] == a.last());
        assert(front.push(a.last()) =~= a);
        if !a.contains('&') && !a.contains('<') && !a.contains('>') {
            assert forall|x: char| front.contains(x) implies a.contains(x) by {
                let i = choose|i: int| 0 <= i < front.len() && front[i] == x;
                assert(a[i] == x);
            }
            assert(a.contains(a.last()));
            assert(front + seq![a.last()] =~= a);
        }
    } else {
        assert(a =~= Seq::empty());
    }
}

/// An answer is heard by who asked under its number: a file's asker once, a cast's and a
/// grant's as long as it goes on. What has no number is nobody's.
pub proof fn answers_find_their_asker(portal: Portal, resp: Response, id: u64)
    ensures
        resp is Hello || resp is Pin ==> hears(portal, resp) is None,
        answered_id(resp) == Some(id) && portal.waiting@.contains_key(id) ==> hears(portal, resp)
            == Some(portal.waiting@[id]),
        answered_id(resp) == Some(id) && !portal.waiting@.contains_key(id)
            && portal.casts@.contains_key(id) ==> hears(portal, resp) == Some(portal.casts@[id]),
        answered_id(resp) == Some(id) && !portal.waiting@.contains_key(id)
            && !portal.casts@.contains_key(id) ==> hears(portal, resp) is None,
        match resp {
            Response::Chosen { id, .. } => answered_id(resp) == Some(id) && !goes_on(resp),
            Response::Cast { id, .. } => answered_id(resp) == Some(id) && goes_on(resp),
            Response::Granted { id } => answered_id(resp) == Some(id) && goes_on(resp),
            Response::Closed { id } => answered_id(resp) == Some(id) && !goes_on(resp),
            Response::Cancelled { id } => answered_id(resp) == Some(id) && !goes_on(resp),
            Response::Failed { id, .. } => answered_id(resp) == Some(id) && !goes_on(resp),
            _ => answered_id(resp) is None && !goes_on(resp),
        },
{
}

/// What a user may capture is written as the devices they were allowed, the microphone first.
pub proof fn what_is_written_is_what_is_allowed(granted: Map<u64, u64>, uid: u32)
    ensures
        ({
            let mic = granted.contains_key((2 * uid) as u64);
            let camera = granted.contains_key((2 * uid + 1) as u64);
            kinds(granted, uid) == if mic && camera {
                "mic camera"@
            } else if mic {
                "mic"@
            } else if camera {
                "camera"@
            } else {
                Seq::empty()
            }
        }),
{
    reveal_strlit("mic");
    reveal_strlit(" ");
    reveal_strlit("camera");
    reveal_strlit("mic camera");
    assert("mic"@ + " "@ + "camera"@ =~= "mic camera"@);
}

/// A device is asked about once: where it is allowed the answer is told at once, where it is
/// being asked about nothing is done, and else the person is asked in the app's name.
pub proof fn a_device_is_asked_about_once(
    granted: Map<u64, u64>,
    asking: Map<u64, u64>,
    app: Seq<char>,
    uid: u32,
    device: Device,
    ticket: u64,
)
    ensures
        ({
            let k = if device == Device::Camera { (2 * uid + 1) as u64 } else { (2 * uid) as u64 };
            let alone = asked_acts(granted, asking, app, uid, device, None);
            let waited = asked_acts(granted, asking, app, uid, device, Some(ticket));
            &&& granted.contains_key(k) ==> alone == seq![
                access::ActView::Answered { uid, device },
            ]
            &&& granted.contains_key(k) ==> waited == seq![
                access::ActView::Answered { uid, device },
                access::ActView::Done { ticket, allowed: true },
            ]
            &&& !granted.contains_key(k) && asking.contains_key(k) ==> alone.len() == 0
                && waited.len() == 0
            &&& !granted.contains_key(k) && !asking.contains_key(k) ==> alone == seq![
                access::ActView::Ask { app, uid, device },
            ] && waited == alone
        }),
{
}

/// Everyone who waited hears the same answer, each under their own ticket; connections are cut
/// one by one; and what is under a number is cancelled where there is something.
pub proof fn all_who_wait_hear(
    tickets: Seq<u64>,
    allowed: bool,
    clients: Seq<u32>,
    table: Map<u64, u64>,
    waiting: Map<u64, Vec<u64>>,
    asking: Map<u64, u64>,
    remotes: Map<u64, Vec<u32>>,
    uid: u32,
    k: u64,
    i: int,
)
    ensures
        dones(tickets, allowed).len() == tickets.len(),
        0 <= i < tickets.len() ==> dones(tickets, allowed)[i] == (access::ActView::Done {
            ticket: tickets[i],
            allowed,
        }),
        access::drops(clients).len() == clients.len(),
        0 <= i < clients.len() ==> access::drops(clients)[i] == (access::ActView::Drop {
            client: clients[i],
        }),
        table.contains_key(k) ==> cancelled(table, k) == seq![
            access::ActView::Cancel { id: table[k] },
        ],
        !table.contains_key(k) ==> cancelled(table, k).len() == 0,
        waiting.contains_key(k) ==> waiting_at(waiting, k) == waiting[k]@,
        !waiting.contains_key(k) ==> waiting_at(waiting, k).len() == 0,
        remotes.contains_key(uid as u64) ==> remotes_of(remotes, uid) == remotes[uid as u64]@,
        !remotes.contains_key(uid as u64) ==> remotes_of(remotes, uid).len() == 0,
        asking.contains_key(k) ==> unwaited(waiting, asking, k) == waiting.remove(k),
        !asking.contains_key(k) ==> unwaited(waiting, asking, k) == waiting,
{
}

/// In a URI letters, digits and the marks "-._~/" stand for themselves, and every other byte is
/// a percent sign and its two digits; and it starts with "file://".
pub proof fn only_plain_bytes_stand_for_themselves(b: u8, path: Seq<char>)
    ensures
        ({
            let plain = (48 <= b <= 57) || (65 <= b <= 90) || (97 <= b <= 122) || b == 45 || b == 46
                || b == 95 || b == 126 || b == 47;
            &&& plain ==> escaped_byte(b) == seq![b as char]
            &&& !plain ==> escaped_byte(b).len() == 3 && escaped_byte(b)[0] == '%'
            &&& !plain ==> hex_pair(escaped_byte(b)[1] as u8, escaped_byte(b)[2] as u8) == Some(b)
        }),
        uri_of(path).len() >= 7,
        uri_of(path).take(7) == "file://"@,
{
    reveal_strlit("file://");
    assert(uri_of(path).take(7) =~= "file://"@);
    assert(b / 16 < 16 && b % 16 < 16);
    assert((b / 16) * 16 + b % 16 == b);
}

/// Escapes in a URI are undone: a percent sign with two digits is the byte they write, in either
/// case; a percent sign without them, and every other byte, stands for itself.
pub proof fn escapes_are_undone(b: u8, x: u8, y: u8, rest: Seq<u8>)
    ensures
        b != 0x25 ==> unescaped(seq![b] + rest) == seq![b] + unescaped(rest),
        x < 10 && y < 10 ==> unescaped(
            seq![0x25u8, (48 + x) as u8, (48 + y) as u8] + rest,
        ) == seq![(16 * x + y) as u8] + unescaped(rest),
        10 <= x < 16 && 10 <= y < 16 ==> unescaped(
            seq![0x25u8, (55 + x) as u8, (87 + y) as u8] + rest,
        ) == seq![(16 * x + y) as u8] + unescaped(rest),
        hex_pair(x, y) is None ==> unescaped(seq![0x25u8, x, y] + rest) == seq![0x25u8] + unescaped(
            seq![x, y] + rest,
        ),
        unescaped(seq![0x25u8]) == seq![0x25u8],
        unescaped(Seq::empty()).len() == 0,
        (103 <= x || (71 <= x <= 96) || (58 <= x <= 64) || x < 43) ==> hex_pair(x, y) is None,
{
    let a = seq![b] + rest;
    assert(a.skip(1) =~= rest);
    let c = seq![0x25u8, (48 + x) as u8, (48 + y) as u8] + rest;
    assert(c.skip(3) =~= rest);
    let d = seq![0x25u8, (55 + x) as u8, (87 + y) as u8] + rest;
    assert(d.skip(3) =~= rest);
    let e = seq![0x25u8, x, y] + rest;
    assert(e.skip(1) =~= seq![x, y] + rest);
    let f = seq![0x25u8];
    assert(f.skip(1) =~= Seq::<u8>::empty());
    assert(unescaped(Seq::<u8>::empty()) =~= Seq::<u8>::empty());
    assert(seq![0x25u8] + Seq::<u8>::empty() =~= f);
}

/// What a URI names is what stands behind "file://", and all of it where that is not there.
pub proof fn a_uri_names_what_is_behind_its_scheme(rest: Seq<char>, uri: Seq<char>)
    ensures
        uri_bytes("file://"@ + rest) == vstd::utf8::encode_utf8(rest),
        !(uri.len() >= 7 && uri.take(7) == "file://"@) ==> uri_bytes(uri)
            == vstd::utf8::encode_utf8(uri),
{
    reveal_strlit("file://");
    crate::text::errors_say_what_failed(Seq::empty(), Seq::empty(), rest, "file://"@);
    crate::text::errors_say_what_failed(Seq::empty(), Seq::empty(), uri, "file://"@);
}

/// A title and a notification that say too much are cut to what fits in 2048 bytes.
pub proof fn long_texts_are_cut(
    link: AppLink,
    req: u64,
    replaces: u32,
    title: Seq<char>,
    body: Seq<char>,
    save: Option<Seq<char>>,
    camera: bool,
    cameras: bool,
)
    ensures
        acts_of(link, ToServer::Choose { req, title, save }, camera, cameras) == seq![
            ActView::AskChoose { req, title: crate::utf8::clipped(title, 2048), save },
        ],
        ({
            let acts = acts_of(
                link,
                ToServer::Notify { req, replaces, summary: title, body },
                camera,
                cameras,
            );
            &&& acts.len() == 1
            &&& acts[0] is Notify
            &&& acts[0]->summary == link.app@.name + ": "@ + crate::utf8::clipped(title, 2048)
            &&& acts[0]->body == plain_text(crate::utf8::clipped(body, 2048))
            &&& acts[0]->replaces == replaces
        }),
{
}

} // verus!
