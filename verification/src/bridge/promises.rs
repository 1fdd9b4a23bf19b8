//! What an app is promised on its bus: what its options mean, which answer a call gets, and
//! where calls go.
use vstd::prelude::*;

use super::bus::{component_of, is_object_path, token_of, uri_of, without_colons};
use super::shim::{
    after, asked, begins, called, capabilities, chosen, created, error_of, fails, fixed_props,
    heard, no_member, no_way, not_carried, pattern_takes, prop_named, props_reply, request_handle,
    routed, session_gone, session_handle, setting, token, wanted, Body, Call, Options, Out, OutView,
    Prop, Results, ResultsView, Route, Session, Shim, Side, Waiter, Where,
};
use super::wire::{Cursor, Source, ToServer, ToShim};
use crate::text::decimal;
use crate::views::{view_opt, views};

verus! {

/// After `SelectSources` the session takes windows exactly where the types have their second bit
/// set, and screens exactly where they have their first bit set or the second is not: types of
/// 3 take both, and no types at all are the first bit. The pointer is hidden for mode 1, apart
/// for mode 4 and else drawn in; a token is wanted for every persist mode but 0; and the token
/// to go by is the one that was given. Which session it is, whose, and whether it was started
/// stays as it was, and so does every other session.
pub proof fn sources_go_by_their_bits(
    before: Shim,
    now: Shim,
    call: Call,
    session: Seq<char>,
    options: Options,
    out: Seq<OutView>,
)
    requires
        chosen(before, now, call, session, options, out),
        call.caller is Some,
        before.sessions@.contains_key(session),
    ensures
        ({
            let t = if options.types is Some { options.types->0 } else { 1u32 };
            let s = now.sessions@[session];
            let was = before.sessions@[session];
            &&& now.sessions@.dom() == before.sessions@.dom()
            &&& s.windows <==> t & 2 != 0
            &&& s.screens <==> t & 1 != 0 || t & 2 == 0
            &&& options.cursor_mode == Some(1u32) ==> s.cursor == Cursor::Hidden
            &&& options.cursor_mode == Some(4u32) ==> s.cursor == Cursor::Metadata
            &&& options.cursor_mode != Some(1u32) && options.cursor_mode != Some(4u32) ==> s.cursor
                == Cursor::Embedded
            &&& s.persist <==> options.persist_mode is Some && options.persist_mode != Some(0u32)
            &&& s.again == options.restore_token
            &&& s.id == was.id
            &&& s.caller == was.caller
            &&& s.started == was.started
            &&& forall|other: Seq<char>|
                other != session && before.sessions@.contains_key(other) ==> now.sessions@[other]
                    == #[trigger] before.sessions@[other]
            &&& now.handles == before.handles
            &&& now.waiting == before.waiting
            &&& now.next == before.next
        }),
{
    let t = if options.types is Some { options.types->0 } else { 1u32 };
    assert((t & 2 != 0) == ((t / 2) % 2 == 1)) by (bit_vector);
    assert((t & 1 != 0) == (t % 2 == 1)) by (bit_vector);
    assert(now.sessions@.dom() =~= before.sessions@.dom());
}

/// The two answers to a call that is done at once: its handle, and then the `Response` signal
/// on that handle, to who called, with 0 for done; a token of which no handle can be made fails
/// the call.
pub proof fn done_at_once_is_answered_twice(
    before: Shim,
    now: Shim,
    call: Call,
    session: Seq<char>,
    options: Options,
    out: Seq<OutView>,
)
    requires
        call.caller is Some,
        chosen(before, now, call, session, options, out) && before.sessions@.contains_key(session)
            || created(before, now, call, options, out),
    ensures
        is_object_path(request_handle(call, options)) ==> {
            &&& out.len() == 2
            &&& out[0] == (OutView::Reply {
                to: call.ticket,
                body: Body::Handle(request_handle(call, options)),
            })
            &&& out[1] is Response
            &&& out[1]->Response_handle == request_handle(call, options)
            &&& out[1]->Response_caller == call.caller->0@
            &&& out[1]->code == 0
        },
        !is_object_path(request_handle(call, options)) ==> out == seq![
            OutView::Error {
                to: call.ticket,
                name: "org.freedesktop.DBus.Error.Failed"@,
                text: "Invalid object path"@,
            },
        ],
{
}

/// A session that was made is its maker's, under the next number; until something is selected
/// it takes screens alone, draws the pointer in and wants no token; it is not started. Its
/// handle comes in the response.
pub proof fn a_new_session_takes_screens(
    before: Shim,
    now: Shim,
    call: Call,
    options: Options,
    out: Seq<OutView>,
)
    requires
        created(before, now, call, options, out),
        call.caller is Some,
    ensures
        ({
            let path = session_handle(call, options);
            let s = now.sessions@[path];
            &&& now.sessions@.contains_key(path)
            &&& s.id == before.next
            &&& Some(s.caller) == call.caller
            &&& s.screens && !s.windows && !s.persist && !s.started
            &&& s.cursor == Cursor::Embedded
            &&& s.again is None
            &&& before.next < u64::MAX ==> now.next == before.next + 1
            &&& before.next == u64::MAX ==> now.next == 0
            &&& is_object_path(request_handle(call, options)) ==> out[1]->Response_results
                == ResultsView::SessionHandle(path)
            &&& forall|other: Seq<char>|
                other != path ==> (now.sessions@.contains_key(other)
                    <==> #[trigger] before.sessions@.contains_key(other))
        }),
{
}

/// Where a call's handles are: below the portal, by the caller and the token of the call, or by
/// its serial number where it has none.
pub proof fn handles_lie_below_the_portal(call: Call, options: Options)
    requires
        call.caller is Some,
    ensures
        ({
            let caller = component_of(call.caller->0@);
            let given = |t: Option<String>|
                if t is Some {
                    t->0@
                } else {
                    "drv"@ + decimal(call.serial as nat)
                };
            &&& request_handle(call, options) == "/org/freedesktop/portal/desktop/request/"@
                + caller + "/"@ + token_of(given(options.handle_token))
            &&& session_handle(call, options) == "/org/freedesktop/portal/desktop/session/"@
                + caller + "/"@ + token_of(given(options.session_handle_token))
        }),
{
    reveal_strlit("/org/freedesktop/portal/desktop");
    reveal_strlit("/");
    reveal_strlit("request");
    reveal_strlit("session");
    reveal_strlit("/org/freedesktop/portal/desktop/request/");
    reveal_strlit("/org/freedesktop/portal/desktop/session/");
    assert("/org/freedesktop/portal/desktop"@ + "/"@ + "request"@ + "/"@
        =~= "/org/freedesktop/portal/desktop/request/"@);
    assert("/org/freedesktop/portal/desktop"@ + "/"@ + "session"@ + "/"@
        =~= "/org/freedesktop/portal/desktop/session/"@);
}

/// A caller in a path is its unique name without the colon in front and with underscores for
/// the dots; a token keeps its letters, digits and underscores and has underscores for the
/// rest.
pub proof fn names_are_made_fit_for_paths(name: Seq<char>, s: Seq<char>, i: int)
    requires
        name.len() > 0 ==> name[0] != ':',
    ensures
        component_of(seq![':'] + name).len() == name.len(),
        component_of(name).len() == name.len(),
        0 <= i < name.len() ==> component_of(seq![':'] + name)[i] == if name[i] == '.' {
            '_'
        } else {
            name[i]
        },
        component_of(seq![':'] + name) == component_of(name),
        token_of(s).len() == s.len(),
        0 <= i < s.len() ==> token_of(s)[i] == if ('a' <= s[i] && s[i] <= 'z') || ('A' <= s[i]
            && s[i] <= 'Z') || ('0' <= s[i] && s[i] <= '9') || s[i] == '_' {
            s[i]
        } else {
            '_'
        },
{
    let whole = seq![':'] + name;
    assert(whole.skip(1) =~= name);
    assert(without_colons(whole) == without_colons(whole.skip(1)));
    assert(without_colons(name) == name);
}

/// `Start` asks for the session's own cast with what was selected, under the next number, and
/// remembers who waits for it; it hands the handle out first. A session is started by it, and
/// one that was started already, or is not known, fails the call with nothing asked.
pub proof fn starting_asks_for_what_was_selected(
    before: Shim,
    now: Shim,
    call: Call,
    session: Seq<char>,
    options: Options,
    out: Seq<OutView>,
)
    requires
        begins(before, now, call, session, options, None, out),
        call.caller is Some,
    ensures
        !before.sessions@.contains_key(session) ==> now.sessions == before.sessions && out == seq![
            OutView::Error {
                to: call.ticket,
                name: "org.freedesktop.DBus.Error.Failed"@,
                text: "no such session"@,
            },
        ],
        before.sessions@.contains_key(session) && before.sessions@[session].started ==> now.sessions
            == before.sessions && out == seq![
            OutView::Error {
                to: call.ticket,
                name: "org.freedesktop.DBus.Error.Failed"@,
                text: "the session was started already"@,
            },
        ],
        before.sessions@.contains_key(session) && !before.sessions@[session].started ==> {
            let s = before.sessions@[session];
            let handle = request_handle(call, options);
            &&& now.sessions@[session] == (Session { started: true, ..s })
            &&& is_object_path(handle) ==> {
                &&& out.len() == 2
                &&& out[0] == (OutView::Reply { to: call.ticket, body: Body::Handle(handle) })
                &&& out[1] == (OutView::Ask {
                    to: call.ticket,
                    msg: ToServer::Cast {
                        req: before.next,
                        session: s.id,
                        cursor: s.cursor,
                        screens: s.screens,
                        windows: s.windows,
                        again: view_opt(s.again),
                    },
                })
                &&& now.handles@.contains_key(handle)
                &&& now.handles@[handle] == (Where::Cast, before.next)
                &&& now.waiting@.contains_key(before.next)
                &&& now.waiting@[before.next]@ == Waiter::Start {
                    handle,
                    caller: call.caller->0@,
                    persist: s.persist,
                }
            }
        },
{
}

/// Closing a session takes it away and tells the other side which; closing one that is not
/// there, and any other member, are errors that change nothing.
pub proof fn a_closed_session_is_gone(
    before: Shim,
    now: Shim,
    call: Call,
    path: Seq<char>,
    member: Seq<char>,
    out: Seq<OutView>,
)
    requires
        called(before, now, call, path, member, None, out),
    ensures
        !before.sessions@.contains_key(path) ==> now == before && out == seq![
            OutView::Error {
                to: call.ticket,
                name: "org.freedesktop.DBus.Error.UnknownObject"@,
                text: "no such session"@,
            },
        ],
        before.sessions@.contains_key(path) && member == "Close"@ ==> {
            &&& !now.sessions@.contains_key(path)
            &&& out == seq![
                OutView::Tell {
                    to: call.ticket,
                    msg: ToServer::CastClose { session: before.sessions@[path].id },
                },
            ]
            &&& forall|other: Seq<char>|
                other != path && before.sessions@.contains_key(other)
                    ==> #[trigger] now.sessions@.contains_key(other) && now.sessions@[other]
                    == before.sessions@[other]
        },
        before.sessions@.contains_key(path) && member != "Close"@ ==> now == before && out == seq![
            OutView::Error {
                to: call.ticket,
                name: "org.freedesktop.DBus.Error.Failed"@,
                text: "no "@ + member + " on "@ + "org.freedesktop.portal.Session"@,
            },
        ],
{
}

/// An answer to who waits on a handle comes on that handle, to who called, with 0 where it was
/// granted, 1 where the person refused, and 2 for anything else that comes instead.
pub proof fn answers_come_on_the_handle(
    handle: Seq<char>,
    caller: Seq<char>,
    persist: bool,
    msg: ToShim,
    fd: bool,
    shown: Seq<char>,
)
    ensures
        ({
            let said = |w: Waiter<Seq<char>>, granted: bool, results: ResultsView, no: bool|
                heard(w, msg, fd, shown) == if granted {
                    OutView::Response { handle, caller, code: 0, results }
                } else {
                    OutView::Response {
                        handle,
                        caller,
                        code: if no && msg is Cancelled {
                            1
                        } else {
                            2
                        },
                        results: Results::Nothing,
                    }
                };
            &&& said(
                Waiter::Choose { handle, caller },
                msg is Files,
                Results::Uris(
                    Seq::new(msg->paths@.len(), |i: int| uri_of(msg->paths@[i]@)),
                ),
                true,
            )
            &&& said(
                Waiter::Start { handle, caller, persist },
                msg is Cast,
                Results::Stream {
                    node_id: msg->node_id,
                    source_type: if msg->source is Screen {
                        1
                    } else {
                        2
                    },
                    id: match msg->source {
                        Source::Screen(name) => name@,
                        Source::Window(id) => decimal(id as nat),
                    },
                    width: msg->width,
                    height: msg->height,
                    restore: if persist {
                        Some(msg->token@)
                    } else {
                        None
                    },
                },
                true,
            )
            &&& said(Waiter::Camera { handle, caller }, msg is Granted, Results::Nothing, true)
            &&& said(Waiter::Open { handle, caller }, msg is Done, Results::Nothing, false)
        }),
{
    if msg is Files {
        let paths = views(msg->paths@);
        assert(super::shim::uris_of(paths) =~= Seq::new(
            msg->paths@.len(),
            |i: int| uri_of(msg->paths@[i]@),
        ));
    }
}

/// An answer to a call that waits is its reply: the connection where one came, the number of a
/// notification, what is known of the camera; and the reason where it failed.
pub proof fn answers_reply_to_the_call(
    to: u64,
    property: Option<Seq<char>>,
    msg: ToShim,
    fd: bool,
    shown: Seq<char>,
)
    ensures
        ({
            let failed = |text: Seq<char>|
                OutView::Error { to, name: "org.freedesktop.DBus.Error.Failed"@, text };
            &&& heard(Waiter::Remote { to }, msg, fd, shown) == if msg is Remote && fd {
                Out::Reply { to, body: Body::Fd }
            } else if msg is Failed {
                failed(msg->reason@)
            } else {
                failed("no remote: "@ + shown)
            }
            &&& heard(Waiter::Notify { to }, msg, fd, shown) == if msg is Notified {
                Out::Reply { to, body: Body::Number(msg->id) }
            } else if msg is Failed {
                failed(msg->reason@)
            } else {
                failed(shown)
            }
            &&& heard(Waiter::CameraProperties { to, property: None }, msg, fd, shown)
                == OutView::Reply {
                to,
                body: Body::Values(
                    seq![
                        ("version"@, Prop::Number(1)),
                        ("IsCameraPresent"@, Prop::Flag(msg is Present && msg->present)),
                    ],
                ),
            }
        }),
{
}

/// One property that is asked for is the one of that name; a name that there is not is an
/// error.
pub proof fn one_property_is_the_one_asked_for(
    to: u64,
    props: Seq<(Seq<char>, Prop)>,
    iface: Seq<char>,
    name: Seq<char>,
    i: int,
)
    ensures
        0 <= i < props.len() && props[i].0 == name && (forall|j: int|
            0 <= j < i ==> (#[trigger] props[j]).0 != name) ==> props_reply(
            to,
            props,
            iface,
            Some(name),
        ) == (OutView::Reply { to, body: Body::Value { value: props[i].1, nested: false } }),
        (forall|j: int| 0 <= j < props.len() ==> (#[trigger] props[j]).0 != name) ==> props_reply(
            to,
            props,
            iface,
            Some(name),
        ) == (OutView::Error {
            to,
            name: "org.freedesktop.DBus.Error.InvalidArgs"@,
            text: "no property "@ + name + " on "@ + iface,
        }),
        props_reply(to, props, iface, None) == (OutView::Reply { to, body: Body::Values(props) }),
{
    if 0 <= i < props.len() && props[i].0 == name && forall|j: int|
        0 <= j < i ==> (#[trigger] props[j]).0 != name {
        lemma_prop_at(props, name, i);
    }
    if forall|j: int| 0 <= j < props.len() ==> (#[trigger] props[j]).0 != name {
        lemma_prop_missing(props, name);
    }
}

proof fn lemma_prop_at(props: Seq<(Seq<char>, Prop)>, name: Seq<char>, i: int)
    requires
        0 <= i < props.len(),
        props[i].0 == name,
        forall|j: int| 0 <= j < i ==> (#[trigger] props[j]).0 != name,
    ensures
        prop_named(props, name) == Some(props[i].1),
    decreases props.len(),
{
    if i > 0 {
        assert(props[0].0 != name);
        let rest = props.skip(1);
        assert(rest[i - 1] == props[i]);
        assert forall|j: int| 0 <= j < i - 1 implies (#[trigger] rest[j]).0 != name by {
            assert(rest[j] == props[j + 1]);
        }
        lemma_prop_at(rest, name, i - 1);
    }
}

proof fn lemma_prop_missing(props: Seq<(Seq<char>, Prop)>, name: Seq<char>)
    requires
        forall|j: int| 0 <= j < props.len() ==> (#[trigger] props[j]).0 != name,
    ensures
        prop_named(props, name) is None,
    decreases props.len(),
{
    if props.len() > 0 {
        assert(props[0].0 != name);
        let rest = props.skip(1);
        assert forall|j: int| 0 <= j < rest.len() implies (#[trigger] rest[j]).0 != name by {
            assert(rest[j] == props[j + 1]);
        }
        lemma_prop_missing(rest, name);
    }
}

/// What is offered, for every interface: the version of each, and for casts both kinds of
/// source and all three ways to draw the pointer.
pub proof fn what_is_offered(iface: Seq<char>)
    ensures
        iface == "org.freedesktop.portal.FileChooser"@ ==> fixed_props(iface) == Some(
            seq![("version"@, Prop::Number(4))],
        ),
        iface == "org.freedesktop.portal.Settings"@ ==> fixed_props(iface) == Some(
            seq![("version"@, Prop::Number(2))],
        ),
        iface == "org.freedesktop.portal.OpenURI"@ ==> fixed_props(iface) == Some(
            seq![("version"@, Prop::Number(1))],
        ),
        iface == "org.freedesktop.portal.ScreenCast"@ ==> fixed_props(iface) == Some(
            seq![
                ("version"@, Prop::Number(4)),
                ("AvailableSourceTypes"@, Prop::Number(3)),
                ("AvailableCursorModes"@, Prop::Number(7)),
            ],
        ),
        fixed_props(iface) is Some ==> iface == "org.freedesktop.portal.FileChooser"@ || iface
            == "org.freedesktop.portal.Settings"@ || iface == "org.freedesktop.portal.OpenURI"@
            || iface == "org.freedesktop.portal.ScreenCast"@,
{
    reveal_strlit("org.freedesktop.portal.FileChooser");
    reveal_strlit("org.freedesktop.portal.Settings");
    reveal_strlit("org.freedesktop.portal.OpenURI");
    reveal_strlit("org.freedesktop.portal.ScreenCast");
    assert("org.freedesktop.portal.FileChooser"@.len() == 34);
    assert("org.freedesktop.portal.Settings"@.len() == 31);
    assert("org.freedesktop.portal.OpenURI"@.len() == 30);
    assert("org.freedesktop.portal.ScreenCast"@.len() == 33);
}

/// The desktop has two settings, both of its looks: dark, and of ordinary contrast.
pub proof fn the_desktop_is_dark(namespace: Seq<char>, key: Seq<char>)
    ensures
        setting(namespace, key) == Some(1u32) <==> namespace == "org.freedesktop.appearance"@
            && key == "color-scheme"@,
        setting(namespace, key) == Some(0u32) <==> namespace == "org.freedesktop.appearance"@
            && key == "contrast"@,
        setting(namespace, key) is Some ==> setting(namespace, key)->0 <= 1,
        super::shim::all_settings().len() == 2,
        super::shim::all_settings().contains((key, Prop::Number(1))) <==> key == "color-scheme"@,
        super::shim::all_settings().contains((key, Prop::Number(0))) <==> key == "contrast"@,
{
    reveal_strlit("color-scheme");
    reveal_strlit("contrast");
    assert("color-scheme"@.len() == 12);
    assert("contrast"@.len() == 8);
    let all = super::shim::all_settings();
    assert(all[0] == ("color-scheme"@, Prop::Number(1)));
    assert(all[1] == ("contrast"@, Prop::Number(0)));
}

/// A pattern takes in its own namespace, and with a star behind it every namespace that starts
/// so; the empty one takes in all; and any other takes in nothing else.
pub proof fn patterns_take_in_what_they_name(p: Seq<char>, namespace: Seq<char>, more: Seq<char>)
    ensures
        pattern_takes(namespace, namespace),
        pattern_takes(Seq::empty(), namespace),
        pattern_takes(p.push('*'), p + more),
        p.len() > 0 && p.last() != '*' ==> (pattern_takes(p, namespace) <==> p == namespace),
        pattern_takes(p.push('*'), namespace) <==> p.push('*') == namespace || (p.len()
            <= namespace.len() && namespace.take(p.len() as int) == p),
        !wanted(Seq::empty(), namespace),
        wanted(seq![p], namespace) <==> pattern_takes(p, namespace),
{
    assert(p.push('*').drop_last() =~= p);
    assert((p + more).subrange(0, p.len() as int) =~= p);
    if p.len() <= namespace.len() {
        assert(namespace.take(p.len() as int) =~= namespace.subrange(0, p.len() as int));
    }
    assert(seq![p][0] == p);
}

/// Where a call on the portal's own object goes: to the interface it names.
pub proof fn the_portal_has_its_interfaces(interface: Seq<char>, member: Seq<char>)
    ensures
        ({
            let r = routed("/org/freedesktop/portal/desktop"@, interface, member);
            &&& interface == "org.freedesktop.portal.FileChooser"@ <==> r == Route::FileChooser
            &&& interface == "org.freedesktop.portal.ScreenCast"@ <==> r == Route::ScreenCast
            &&& interface == "org.freedesktop.portal.Camera"@ <==> r == Route::Camera
            &&& interface == "org.freedesktop.portal.OpenURI"@ <==> r == Route::OpenUri
            &&& interface == "org.freedesktop.portal.Settings"@ <==> r == Route::Settings
            &&& interface == "org.freedesktop.DBus.Properties"@ <==> r == Route::Properties
            &&& r != Route::Session && r != Route::CloseRequest && r != Route::NotHere && r
                != Route::Notification
        }),
{
    reveal_strlit("org.freedesktop.portal.FileChooser");
    reveal_strlit("org.freedesktop.portal.ScreenCast");
    reveal_strlit("org.freedesktop.portal.Camera");
    reveal_strlit("org.freedesktop.portal.OpenURI");
    reveal_strlit("org.freedesktop.portal.Settings");
    reveal_strlit("org.freedesktop.DBus.Properties");
    reveal_strlit("/org/freedesktop/portal/desktop");
    reveal_strlit("/org/freedesktop/Notifications");
    assert("org.freedesktop.portal.FileChooser"@.len() == 34);
    assert("org.freedesktop.portal.ScreenCast"@.len() == 33);
    assert("org.freedesktop.portal.Camera"@.len() == 29);
    assert("org.freedesktop.portal.OpenURI"@.len() == 30);
    assert("org.freedesktop.portal.Settings"@.len() == 31);
    assert("org.freedesktop.DBus.Properties"@.len() == 31);
    assert("org.freedesktop.portal.Settings"@[16] == 'p');
    assert("org.freedesktop.DBus.Properties"@[16] == 'D');
    assert("/org/freedesktop/portal/desktop"@.len() == 31);
    assert("/org/freedesktop/Notifications"@.len() == 30);
}

/// Where a call on another object goes: below the portal to a session, or to a request that is
/// to be closed; the notifications have an object of their own; nothing else is here.
pub proof fn other_objects_are_sessions_and_requests(
    path: Seq<char>,
    interface: Seq<char>,
    member: Seq<char>,
)
    requires
        path != "/org/freedesktop/portal/desktop"@,
    ensures
        ({
            let portal = "/org/freedesktop/portal/desktop"@;
            let below = path.len() >= portal.len() && path.take(portal.len() as int) == portal;
            let notes = path == "/org/freedesktop/Notifications"@ && interface
                == "org.freedesktop.Notifications"@;
            let r = routed(path, interface, member);
            &&& r == Route::Notification <==> notes
            &&& r == Route::Session <==> below && interface == "org.freedesktop.portal.Session"@
            &&& r == Route::CloseRequest <==> below && interface
                == "org.freedesktop.portal.Request"@ && member == "Close"@
            &&& r == Route::NotHere <==> !below && !notes
            &&& r == Route::Unknown || r == Route::Notification || r == Route::Session || r
                == Route::CloseRequest || r == Route::NotHere
        }),
{
    reveal_strlit("/org/freedesktop/portal/desktop");
    reveal_strlit("/org/freedesktop/Notifications");
    reveal_strlit("org.freedesktop.portal.Session");
    reveal_strlit("org.freedesktop.portal.Request");
    reveal_strlit("org.freedesktop.Notifications");
    let portal = "/org/freedesktop/portal/desktop"@;
    assert(portal.len() == 31);
    assert("/org/freedesktop/Notifications"@.len() == 30);
    assert("org.freedesktop.portal.Session"@.len() == 30);
    assert("org.freedesktop.portal.Session"@[23] == 'S');
    assert("org.freedesktop.portal.Request"@[23] == 'R');
    assert("org.freedesktop.Notifications"@.len() == 29);
    if path.len() >= portal.len() {
        assert(path.take(portal.len() as int) =~= path.subrange(0, portal.len() as int));
    }
}

/// A request that goes out takes the next number, and who asked waits under it; with no line to
/// ask on the call fails with the reason, and nobody waits.
pub proof fn who_asks_waits(
    before: Shim,
    now: Shim,
    out: Seq<OutView>,
    to: u64,
    line: Option<String>,
    first: Seq<OutView>,
    msg: ToServer<Seq<char>>,
    waiter: Waiter<Seq<char>>,
    other: u64,
)
    requires
        asked(before, now, out, to, line, first, msg, waiter),
    ensures
        now.sessions == before.sessions,
        now.handles == before.handles,
        now.camera == before.camera,
        now.side == before.side,
        line is None ==> out == first + seq![OutView::Ask { to, msg }],
        line is None ==> now.waiting@.contains_key(before.next),
        line is None ==> now.waiting@[before.next]@ == waiter,
        line is None && other != before.next && before.waiting@.contains_key(other)
            ==> now.waiting@.contains_key(other) && now.waiting@[other] == before.waiting@[other],
        line is Some ==> now.waiting == before.waiting && out == seq![
            OutView::Error {
                to,
                name: "org.freedesktop.DBus.Error.Failed"@,
                text: line->0@,
            },
        ],
{
    if line is None {
        assert(first.push(Out::Ask { to, msg }) =~= first + seq![OutView::Ask { to, msg }]);
        if other != before.next && before.waiting@.contains_key(other) {
            assert(before.waiting@.remove(before.next).contains_key(other));
            assert(now.waiting@.remove(before.next).contains_key(other));
            assert(now.waiting@.remove(before.next)[other] == now.waiting@[other]);
            assert(before.waiting@.remove(before.next)[other] == before.waiting@[other]);
        }
    }
}

/// What errors say, and what a notification server can do.
pub proof fn what_is_said(
    to: u64,
    name: Seq<char>,
    text: Seq<char>,
    member: Seq<char>,
    interface: Seq<char>,
)
    ensures
        error_of(to, name, text) == seq![OutView::Error { to, name, text }],
        fails(to, text) == seq![
            OutView::Error { to, name: "org.freedesktop.DBus.Error.Failed"@, text },
        ],
        no_member(member, interface) == "no "@ + member + " on "@ + interface,
        not_carried(Side::Bridge, interface, member) == "the bridge does not carry "@ + interface
            + "."@ + member,
        not_carried(Side::Services, interface, member) == "the shim does not carry "@ + interface
            + "."@ + member,
        no_way(Side::Bridge, text) == "to the bridge: "@ + text,
        no_way(Side::Services, text) == "to the service: "@ + text,
        capabilities(Side::Bridge) == seq!["body"@],
        capabilities(Side::Services) == seq!["body"@, "actions"@],
{
}

/// A session that the other side ends is gone, no other is, and its maker hears it on the
/// session's own object.
pub proof fn an_ended_session_is_told(
    before: Shim,
    now: Shim,
    session: u64,
    out: Seq<OutView>,
    i: int,
)
    requires
        before.sessions.wf(),
        session_gone(before, now, session, out),
        0 <= i < before.sessions.rows@.len(),
        before.sessions.rows@[i].1.id == session,
        forall|j: int| 0 <= j < i ==> (#[trigger] before.sessions.rows@[j]).1.id != session,
    ensures
        ({
            let path = before.sessions.rows@[i].0@;
            &&& now.sessions@ == before.sessions@.remove(path)
            &&& is_object_path(path) ==> out == seq![
                OutView::Closed { path, caller: before.sessions.rows@[i].1.caller@ },
            ]
            &&& !is_object_path(path) ==> out.len() == 0
        }),
{
    assert(super::shim::first_session(before.sessions.rows@, session, i));
    assert(before.sessions.rows@[i].1.id == session);
}

/// An answer to a file or a cast ends the wait on its handle; no other answer closes one.
pub proof fn answers_close_their_handle(
    handle: Seq<char>,
    caller: Seq<char>,
    persist: bool,
    to: u64,
    property: Option<Seq<char>>,
)
    ensures
        super::shim::closes(Waiter::Choose { handle, caller }) == Some(handle),
        super::shim::closes(Waiter::Start { handle, caller, persist }) == Some(handle),
        super::shim::closes(Waiter::Camera { handle, caller }) is None,
        super::shim::closes(Waiter::Open { handle, caller }) is None,
        super::shim::closes(Waiter::Remote { to }) is None,
        super::shim::closes(Waiter::Notify { to }) is None,
        super::shim::closes(Waiter::CameraProperties { to, property }) is None,
        forall|n: u64| n < u64::MAX ==> #[trigger] after(n) == n + 1,
        after(u64::MAX) == 0,
{
}

/// A call without a sender fails and changes nothing; so do sources selected for a session that
/// is not there. With no line to ask on, a start fails with the reason and asks nothing, and
/// the session counts as started all the same.
pub proof fn calls_that_cannot_be_made_fail(
    before: Shim,
    now: Shim,
    call: Call,
    session: Seq<char>,
    options: Options,
    line: Option<String>,
    out: Seq<OutView>,
)
    ensures
        ({
            let failed = |text: Seq<char>|
                seq![
                    OutView::Error {
                        to: call.ticket,
                        name: "org.freedesktop.DBus.Error.Failed"@,
                        text,
                    },
                ];
            &&& call.caller is None && created(before, now, call, options, out) ==> now == before
                && out == failed("no sender"@)
            &&& call.caller is None && chosen(before, now, call, session, options, out) ==> now
                == before && out == failed("no sender"@)
            &&& call.caller is None && begins(before, now, call, session, options, line, out)
                ==> now == before && out == failed("no sender"@)
            &&& call.caller is Some && !before.sessions@.contains_key(session) && chosen(
                before,
                now,
                call,
                session,
                options,
                out,
            ) ==> now == before && out == failed("no such session"@)
            &&& call.caller is Some && before.sessions@.contains_key(session)
                && !before.sessions@[session].started && line is Some && begins(
                before,
                now,
                call,
                session,
                options,
                line,
                out,
            ) ==> out == failed(line->0@) && now.waiting == before.waiting && now.handles
                == before.handles && now.sessions@[session] == (Session {
                started: true,
                ..before.sessions@[session]
            })
            &&& before.sessions@.contains_key(session) && line is Some && called(
                before,
                now,
                call,
                session,
                "Close"@,
                line,
                out,
            ) ==> out == failed(line->0@) && !now.sessions@.contains_key(session)
        }),
{
}

/// Behind the services every start of a caller takes a number, even one that is refused; behind
/// the bridge only one that is not.
pub proof fn starts_take_numbers(
    before: Shim,
    now: Shim,
    call: Call,
    session: Seq<char>,
    options: Options,
    line: Option<String>,
    out: Seq<OutView>,
)
    requires
        begins(before, now, call, session, options, line, out),
        call.caller is Some,
    ensures
        ({
            let refused = !before.sessions@.contains_key(session)
                || before.sessions@[session].started;
            &&& before.side is Services || !refused ==> now.next == after(before.next)
            &&& before.side is Bridge && refused ==> now.next == before.next
            &&& now.side == before.side
            &&& now.camera == before.camera
        }),
{
}

} // verus!
