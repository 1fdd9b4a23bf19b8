use drv::bridge::access::{Answer, State};
use drv::bridge::bus::{file_uri, handle_of, path_of};
use drv::bridge::server::{
    camera_answer, device_answer, launched, notified, plain, AppLink, Asker, Portal, Remote,
};
use drv::bridge::shim::{opened, read_settings, route, Call, Options, Out, Shim, Side};
use drv::bridge::wire::{clip, greeted, ToServer, ToShim, VERSION};
use drv::policy::AppPolicy;
use drv::portal::protocol::{Cursor, Response, Source};
use drv::pw::Device;

fn call() -> Call {
    Call { caller: Some(":1.7".to_owned()), serial: 3, ticket: 11 }
}

fn options(token: &str) -> Options {
    Options {
        handle_token: Some(token.to_owned()),
        session_handle_token: Some("s".to_owned()),
        cursor_mode: None,
        persist_mode: None,
        restore_token: None,
        types: None,
        directory: None,
        current_name: None,
    }
}

#[test]
fn uris_name_their_path() {
    assert_eq!(file_uri("/a b/\u{e9}"), "file:///a%20b/%C3%A9");
    assert_eq!(path_of("file:///a%20b/%C3%A9"), "/a b/\u{e9}");
    assert_eq!(
        handle_of(false, ":1.7", "t"),
        "/org/freedesktop/portal/desktop/request/1_7/t"
    );
}

#[test]
fn a_session_is_made_started_and_answered() {
    let mut shim = Shim::new(Side::Bridge);
    let made = format!("{:?}", shim.create_session(&call(), &options("t1")));
    assert!(made.contains("SessionHandle(\"/org/freedesktop/portal/desktop/session/1_7/s\")"), "{made}");
    let session = "/org/freedesktop/portal/desktop/session/1_7/s";
    let chosen = format!("{:?}", shim.select_sources(&call(), session, &options("t2")));
    assert!(chosen.contains("code: 0"), "{chosen}");
    let started = format!("{:?}", shim.start(&call(), session, &options("t3"), None));
    assert!(started.contains("Ask { to: 11, msg: Cast {"), "{started}");
    let req = shim.waiting.rows[0].0;
    let heard = format!(
        "{:?}",
        shim.answered(
            ToShim::Cast {
                req,
                node_id: 44,
                source: Source::Screen("DP-1".to_owned()),
                width: 10,
                height: 20,
                token: "drv1".to_owned(),
            },
            false,
            "",
        )
    );
    assert!(heard.contains("Stream { node_id: 44, source_type: 1"), "{heard}");
    assert!(shim.answered(ToShim::Cancelled { req }, false, "").is_empty());
    let again = format!("{:?}", shim.start(&call(), session, &options("t4"), None));
    assert!(again.contains("Error"), "{again}");
}

#[test]
fn calls_find_their_way() {
    let known = format!(
        "{:?}",
        route(
            "/org/freedesktop/portal/desktop",
            "org.freedesktop.portal.ScreenCast",
            "CreateSession",
        )
    );
    let unknown = format!("{:?}", route("/x", "org.example", "Foo"));
    assert_ne!(known, unknown);
    let settings = format!("{:?}", read_settings(&call(), &vec![String::new()]));
    assert!(settings.contains("org.freedesktop.appearance"), "{settings}");
    let ok = format!("{:?}", opened("/h".to_owned(), ":1.7".to_owned(), true));
    assert!(ok.contains("code: 0"), "{ok}");
}

#[test]
fn the_server_serves_an_app() {
    let mut link = AppLink::new(AppPolicy::unknown(), 70);
    let asked = link.on(ToServer::Choose { req: 1, title: "t".to_owned(), save: None }, false, false);
    assert_eq!(format!("{asked:?}"), "[AskChoose { req: 1, title: \"t\", save: None }]");
    assert!(link.choose_asked(1, Ok(900)).is_empty());
    let got = link.chosen(1, Response::Chosen { id: 900, paths: vec!["/d/1/a".to_owned()] });
    assert_eq!(
        format!("{got:?}"),
        "[Send(Files { req: 1, paths: [\"/d/1/a\"] })]"
    );
    let cast = ToServer::Cast {
        req: 2,
        session: 5,
        cursor: Cursor::Hidden,
        screens: true,
        windows: false,
        again: None,
    };
    assert!(format!("{:?}", link.on(cast, false, false)).contains("AskCast"));
    link.cast_asked(2, 5, Ok(901));
    let up = Response::Cast {
        id: 901,
        node_id: 44,
        source: Source::Screen("DP-1".to_owned()),
        width: 1,
        height: 2,
        token: "drv1".to_owned(),
    };
    assert!(format!("{:?}", link.cast_heard(2, 5, up)).contains("node_id: 44"));
    let opening = link.on(ToServer::CastRemote { req: 3, session: 5 }, false, false);
    assert!(format!("{opening:?}").contains("mark: \"node:44\""), "{opening:?}");
    let made = link.opened(3, Remote::Node { session: 5, node: 44 }, Ok(33));
    assert_eq!(format!("{made:?}"), "[SendRemote { req: 3 }]");
    let gone = format!("{:?}", link.gone());
    assert!(gone.contains("Cancel { id: 901 }") && gone.contains("Drop { client: 33 }"), "{gone}");
    assert_eq!(plain("<b>a & c"), "&lt;b&gt;a &amp; c");
    assert!(matches!(camera_answer(4, true), ToShim::Granted { req: 4 }));
    assert!(format!("{:?}", launched(5, "x:y", Err("no".to_owned()))).contains("Fail"));
    assert!(format!("{:?}", notified(6, Ok(2))).contains("Notified { req: 6, id: 2 }"));
    assert_eq!(clip(&"x".repeat(3000)).len(), 2048);
    let mut portal = Portal::new();
    let id = portal.ask(Asker::Choose { link: 1, req: 2 });
    assert!(portal.dispatch(&Response::Cancelled { id }).is_some());
    assert!(portal.dispatch(&Response::Cancelled { id }).is_none());
    assert_eq!(device_answer(&Response::Granted { id: 1 }), Some(Answer::Granted));
}

#[test]
fn access_is_asked_for_once_and_ends() {
    let mut state = State::new();
    let asked = state.ask("web".to_owned(), 70, Device::Camera, Some(5));
    assert_eq!(format!("{asked:?}"), "[Ask { app: \"web\", uid: 70, device: Camera }]");
    state.prompted(70, Device::Camera, Some(900));
    assert!(state.ask("web".to_owned(), 70, Device::Camera, Some(6)).is_empty());
    let said = format!("{:?}", state.answered(70, Device::Camera, Answer::Granted));
    assert!(said.contains("Write { uid: 70, kinds: \"camera\" }"), "{said}");
    assert!(said.contains("Done { ticket: 5, allowed: true }"), "{said}");
    assert!(state.has(70, Device::Camera));
    state.remote(70, 33);
    let gone = format!("{:?}", state.forget(70));
    assert!(gone.contains("Drop { client: 33 }"), "{gone}");
    assert!(!state.has(70, Device::Camera));
}

const SESSION: &str = "/org/freedesktop/portal/desktop/session/1_7/s";

const REFUSED: &str =
    "[Error { to: 11, name: \"org.freedesktop.DBus.Error.Failed\", text: \"Invalid object path\" }]";

#[test]
fn an_empty_token_gets_no_handle() {
    for side in [Side::Bridge, Side::Services] {
        let mut shim = Shim::new(side);
        let chooser = shim.file_chooser(&call(), false, "t".to_owned(), &options(""), None);
        assert_eq!(format!("{chooser:?}"), REFUSED);
        assert_eq!(format!("{:?}", shim.access_camera(&call(), &options(""))), REFUSED);
        let uri = shim.open_uri(&call(), "https://x".to_owned(), &options(""));
        assert_eq!(format!("{uri:?}"), REFUSED);
        assert_eq!(shim.next, 1);
        assert!(shim.waiting.rows.is_empty() && shim.handles.rows.is_empty());
        // The session is made all the same, what is selected is kept, and a start is spent.
        assert_eq!(format!("{:?}", shim.create_session(&call(), &options(""))), REFUSED);
        assert_eq!(shim.next, 2);
        let windows = Options { types: Some(2), ..options("") };
        assert_eq!(format!("{:?}", shim.select_sources(&call(), SESSION, &windows)), REFUSED);
        assert!(shim.sessions.rows[0].1.windows);
        assert_eq!(format!("{:?}", shim.start(&call(), SESSION, &options(""), None)), REFUSED);
        assert!(shim.sessions.rows[0].1.started);
        assert_eq!(shim.next, 3);
        assert!(shim.waiting.rows.is_empty() && shim.handles.rows.is_empty());
        let odd = Call { caller: Some(":1-7".to_owned()), ..call() };
        assert_eq!(format!("{:?}", shim.access_camera(&odd, &options("t"))), REFUSED);
    }
}

#[test]
fn a_session_without_a_path_closes_in_silence() {
    let mut shim = Shim::new(Side::Services);
    let nameless = Options { session_handle_token: Some(String::new()), ..options("t") };
    shim.create_session(&call(), &nameless);
    shim.create_session(&call(), &options("t"));
    assert!(shim.session_closed(1).is_empty());
    assert_eq!(
        format!("{:?}", shim.session_closed(2)),
        format!("[Closed {{ path: \"{SESSION}\", caller: \":1.7\" }}]")
    );
    assert!(shim.sessions.rows.is_empty());
}

#[test]
fn what_cannot_be_sent_fails_its_call() {
    for (side, text) in [(Side::Bridge, "to the bridge: EPIPE"), (Side::Services, "to the service: EPIPE")] {
        let failed =
            format!("[Error {{ to: 11, name: \"org.freedesktop.DBus.Error.Failed\", text: \"{text}\" }}]");
        let mut shim = Shim::new(side);
        let note = shim.notify(&call(), 0, "s".to_owned(), "b".to_owned(), None);
        let (to, req) = match note.into_iter().next() {
            Some(Out::Ask { to, msg }) => (to, msg.req().unwrap()),
            other => panic!("{other:?}"),
        };
        assert_eq!(format!("{:?}", shim.unsent(to, req, "EPIPE")), failed);
        assert!(shim.waiting.rows.is_empty());
        shim.create_session(&call(), &options("t"));
        let closing = shim.session_call(&call(), SESSION, "Close", None);
        assert!(matches!(
            closing[..],
            [Out::Tell { to: 11, msg: ToServer::CastClose { session: 2 } }]
        ));
        assert_eq!(format!("{:?}", shim.told(11, Err("EPIPE".to_owned()))), failed);
        assert_eq!(format!("{:?}", shim.told(11, Ok(()))), "[Reply { to: 11, body: Nothing }]");
    }
}

#[test]
fn a_shim_says_hello_first() {
    assert!(greeted(&ToServer::Hello { version: VERSION }));
    assert!(!greeted(&ToServer::Hello { version: VERSION + 1 }));
    assert!(!greeted(&ToServer::Camera { req: 1 }));
    assert_eq!(ToServer::<String>::Camera { req: 1 }.req(), Some(1));
    assert_eq!(ToServer::<String>::Cancel { req: 1 }.req(), None);
}
