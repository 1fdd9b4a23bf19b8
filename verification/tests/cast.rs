use drv::cast::compositor::{FromCompositor, Output, Window};
use drv::cast::state::{parse_key, Cast, RemoteFor};
use drv::cast::wire::{greeted, Cursor, FromCast, ToCast};
use drv::pw::Device;
use drv::shell::ask::Response;

fn output(name: &str, width: i32) -> Output {
    Output {
        name: name.to_owned(),
        make: "Dell".to_owned(),
        model: "U2".to_owned(),
        width,
        height: 1080,
    }
}

fn cast_of(req: u64, session: u64, again: Option<&str>) -> ToCast {
    ToCast::Cast {
        req,
        session,
        cursor: Cursor::Embedded,
        screens: true,
        windows: true,
        again: again.map(|s| s.to_owned()),
    }
}

fn ready() -> Cast {
    let mut cast = Cast::new();
    cast.connected(1, "web".to_owned(), 100);
    cast.compositor(FromCompositor::Outputs(vec![output("DP-1", 1920), output("DP-2", 0)]));
    cast.compositor(FromCompositor::Windows(vec![Window {
        id: 9,
        title: "Notes".to_owned(),
        app: "pad".to_owned(),
    }]));
    cast
}

#[test]
fn a_cast_is_asked_picked_streamed_and_stopped() {
    let mut cast = ready();
    let acts = format!("{:?}", cast.app(1, cast_of(5, 7, None), false, false));
    assert_eq!(
        acts,
        "[Tell(Outputs), Tell(Windows), Ask(Pick { id: 1, app: \"web\", uid: 100, \
         what: \"see your screen\", \
         note: \"what it may see, until you stop it (Mod+Shift+Esc stops them all)\", \
         choices: [Choice { key: \"screen:DP-1\", name: \"DP-1\", detail: \"Dell U2  1920x1080\" }, \
         Choice { key: \"window:9\", name: \"pad\", detail: \"Notes\" }] })]"
    );
    let picked = Response::Picked { id: 1, key: "screen:DP-1".to_owned() };
    assert_eq!(
        format!("{:?}", cast.shell(picked, None)),
        "[Tell(Start { cast: 2, source: Screen(\"DP-1\"), cursor: Embedded })]"
    );
    let up = FromCompositor::Started { cast: 2, node_id: 44, width: 10, height: 20 };
    assert_eq!(
        format!("{:?}", cast.compositor(up)),
        "[Send { conn: 1, msg: Cast { req: 5, node_id: 44, source: Screen(\"DP-1\"), width: 10, \
         height: 20, token: \"drv1\" } }]"
    );
    assert_eq!(
        format!("{:?}", cast.app(1, ToCast::CastRemote { req: 6, session: 7 }, false, false)),
        "[Remote { conn: 1, req: 6, what: Session { session: 7, node: 44 }, mark: \"node:44\" }]"
    );
    let what = RemoteFor::Session { session: 7, node: 44 };
    assert_eq!(
        format!("{:?}", cast.remote_made(1, 6, what, Ok(33))),
        "[SendRemote { conn: 1, req: 6 }]"
    );
    assert_eq!(
        format!("{:?}", cast.compositor(FromCompositor::Stopped { cast: 2 })),
        "[Drop { client: 33 }, Send { conn: 1, msg: CastClosed { session: 7 } }]"
    );
    assert_eq!(
        format!("{:?}", cast.remote_made(1, 6, what, Ok(34))),
        "[Drop { client: 34 }]"
    );
}

#[test]
fn a_token_is_good_for_its_app_while_it_runs() {
    let mut cast = ready();
    cast.app(1, cast_of(5, 7, None), false, false);
    cast.shell(Response::Picked { id: 1, key: "window:9".to_owned() }, None);
    assert_eq!(
        format!("{:?}", cast.app(1, cast_of(6, 8, Some("drv1")), false, false)),
        "[Tell(Outputs), Tell(Windows), \
         Tell(Start { cast: 3, source: Window(9), cursor: Embedded })]"
    );
    // Another app, with the same token, is asked about.
    cast.connected(2, "other".to_owned(), 200);
    let asked = format!("{:?}", cast.app(2, cast_of(1, 1, Some("drv1")), false, false));
    assert!(asked.contains("Ask(Pick"), "{asked}");
    // Its app gone, the token is nothing.
    cast.gone(1);
    cast.connected(3, "web".to_owned(), 100);
    let asked = format!("{:?}", cast.app(3, cast_of(1, 1, Some("drv1")), false, false));
    assert!(asked.contains("Ask(Pick"), "{asked}");
}

#[test]
fn faults_of_a_cast() {
    let mut cast = ready();
    cast.app(1, cast_of(5, 7, None), false, false);
    assert_eq!(
        format!("{:?}", cast.app(1, cast_of(6, 7, None), false, false)),
        "[Send { conn: 1, msg: Failed { req: 6, reason: \"the session was started already\" } }]"
    );
    assert_eq!(
        format!("{:?}", cast.app(1, ToCast::CastRemote { req: 8, session: 7 }, false, false)),
        "[Send { conn: 1, msg: Failed { req: 8, reason: \"the session is not streaming\" } }]"
    );
    let picked = Response::Picked { id: 1, key: "screen:DP-2".to_owned() };
    assert_eq!(
        format!("{:?}", cast.shell(picked, None)),
        "[Send { conn: 1, msg: Failed { req: 5, reason: \"that source is gone\" } }]"
    );
    cast.app(1, cast_of(9, 7, None), false, false);
    let picked = Response::Picked { id: 2, key: "desk".to_owned() };
    assert_eq!(
        format!("{:?}", cast.shell(picked, None)),
        "[Send { conn: 1, msg: Failed { req: 9, reason: \"the shell picked \\\"desk\\\"\" } }]"
    );
    cast.app(1, cast_of(10, 7, None), false, false);
    assert_eq!(
        format!("{:?}", cast.shell(Response::Cancelled { id: 3 }, None)),
        "[Send { conn: 1, msg: Cancelled { req: 10 } }]"
    );
    assert_eq!(format!("{:?}", cast.shell(Response::Yes { id: 3 }, None)), "[]");
    assert_eq!(
        format!(
            "{:?}",
            cast.compositor(FromCompositor::Started { cast: 77, node_id: 1, width: 1, height: 1 })
        ),
        "[Tell(Stop { cast: 77 })]"
    );
}

#[test]
fn a_waiting_cast_is_withdrawn() {
    let mut cast = ready();
    cast.app(1, cast_of(5, 7, None), false, false);
    assert_eq!(
        format!("{:?}", cast.app(1, ToCast::Cancel { req: 5 }, false, false)),
        "[Ask(Cancel { id: 1 })]"
    );
    assert!(cast.sessions.is_empty() && cast.asks.is_empty());
}

#[test]
fn a_camera_is_asked_for_once() {
    let mut cast = ready();
    assert_eq!(
        format!("{:?}", cast.app(1, ToCast::CameraRemote { req: 1 }, false, true)),
        "[Send { conn: 1, msg: Failed { req: 1, reason: \"the camera was not allowed\" } }]"
    );
    assert_eq!(
        format!("{:?}", cast.app(1, ToCast::Camera { req: 2 }, false, true)),
        "[Ask(Confirm { id: 1, app: \"web\", uid: 100, what: \"use your camera\", \
         note: \"until it exits or you revoke it (Mod+Shift+Esc revokes everything)\" })]"
    );
    assert_eq!(format!("{:?}", cast.app(1, ToCast::Camera { req: 3 }, false, true)), "[]");
    assert_eq!(
        format!("{:?}", cast.shell(Response::Yes { id: 1 }, None)),
        "[Write { uid: 100, kinds: \"camera\" }, Answered { uid: 100, device: Camera }, \
         Tell(Devices { mic: [], camera: [\"web\"] }), \
         Send { conn: 1, msg: Granted { req: 2 } }, Send { conn: 1, msg: Granted { req: 3 } }]"
    );
    assert_eq!(
        format!("{:?}", cast.app(1, ToCast::CameraRemote { req: 4 }, false, true)),
        "[Remote { conn: 1, req: 4, what: Camera, mark: \"camera\" }]"
    );
    cast.remote_made(1, 4, RemoteFor::Camera, Ok(8));
    assert_eq!(
        format!("{:?}", cast.asked(100, Device::Microphone, Some(("web".to_owned(), false)))),
        "[Ask(Confirm { id: 2, app: \"web\", uid: 100, what: \"use your microphone\", \
         note: \"until it exits or you revoke it (Mod+Shift+Esc revokes everything)\" })]"
    );
    assert_eq!(
        format!("{:?}", cast.compositor(FromCompositor::Revoke)),
        "[Write { uid: 100, kinds: \"\" }, Drop { client: 8 }, \
         Tell(Devices { mic: [], camera: [] })]"
    );
    assert_eq!(
        format!("{:?}", cast.gone(1)),
        "[Ask(Cancel { id: 2 }), Forget { uid: 100 }]"
    );
}

#[test]
fn a_standing_camera_needs_no_question() {
    let mut cast = ready();
    assert_eq!(
        format!("{:?}", cast.app(1, ToCast::Camera { req: 2 }, true, true)),
        "[Write { uid: 100, kinds: \"camera\" }, Answered { uid: 100, device: Camera }, \
         Tell(Devices { mic: [], camera: [\"web\"] }), Send { conn: 1, msg: Granted { req: 2 } }]"
    );
    assert_eq!(
        format!("{:?}", cast.app(1, ToCast::CameraPresent { req: 3 }, false, true)),
        "[Send { conn: 1, msg: Present { req: 3, present: true } }]"
    );
    assert_eq!(
        format!("{:?}", cast.asked(7, Device::Camera, Some(("tv".to_owned(), true)))),
        "[Write { uid: 7, kinds: \"camera\" }, Answered { uid: 7, device: Camera }, \
         Tell(Devices { mic: [], camera: [\"tv\", \"web\"] })]"
    );
    assert_eq!(
        format!("{:?}", cast.asked(9, Device::Camera, None)),
        "[Answered { uid: 9, device: Camera }]"
    );
    assert_eq!(
        format!("{:?}", cast.clients_gone(7)),
        "[Tell(Devices { mic: [], camera: [\"web\"] }), Forget { uid: 7 }]"
    );
}

#[test]
fn a_refusal_is_heard_by_all_who_wait() {
    let mut cast = ready();
    cast.app(1, ToCast::Camera { req: 2 }, false, true);
    cast.app(1, ToCast::Camera { req: 3 }, false, true);
    cast.app(1, ToCast::Cancel { req: 3 }, false, true);
    assert_eq!(
        format!("{:?}", cast.shell(Response::Cancelled { id: 1 }, None)),
        "[Answered { uid: 100, device: Camera }, Send { conn: 1, msg: Cancelled { req: 2 } }]"
    );
}

#[test]
fn keys_are_read() {
    assert_eq!(format!("{:?}", parse_key("screen:a:b")), "Some(Screen(\"a:b\"))");
    assert_eq!(format!("{:?}", parse_key("window:12")), "Some(Window(12))");
    assert_eq!(format!("{:?}", parse_key("window:x")), "None");
    assert_eq!(format!("{:?}", parse_key("desk")), "None");
}

#[test]
fn hellos_and_answers() {
    assert!(greeted(&ToCast::Hello { version: 1 }));
    assert!(!greeted(&ToCast::Hello { version: 2 }));
    assert!(!greeted(&ToCast::Camera { req: 1 }));
    assert_eq!(FromCast::<String>::Granted { req: 4 }.req(), Some(4));
    assert_eq!(FromCast::<String>::CastClosed { session: 4 }.req(), None);
}
