use drv::auth::{enrol, serve_verifier, Auth, Compositor, File, Heard, Next, Request, Response, Step, Store};
use drv::bridge::shim::{Call, Options, Shim, Side};
use drv::policy::client::{Begin, PolicyClient};
use drv::policy::daemon::{self, serve_connection, Answer};
use drv::policy::rpc;
use drv::policy::{AppEntry, AppPolicy, PolicyFile, PolicyStore};
use drv::seat::daemon::{closed, Daemon, Devices, Do, Udev};
use drv::seat;

fn data(steps: &[Step<String>]) -> Vec<String> {
    steps
        .iter()
        .filter_map(|step| match step {
            Step::Data { data } => Some(data.clone()),
            _ => None,
        })
        .collect()
}

fn store(pin: &[u8]) -> Store<String> {
    let files = data(&enrol(pin, "c2FsdHNhbHRzYWx0").unwrap());
    Store::new(File::Text(files[0].clone()), File::Text(files[1].clone()))
}

#[test]
fn a_pin_that_is_set_is_the_pin() {
    let set = store(b"1234");
    assert!(set.has_pin());
    assert_eq!(set.failures(), 0);
    assert_eq!(set.check(b"1234"), Ok(true));
    assert_eq!(set.check(b"0000"), Ok(false));
    assert_ne!(
        data(&enrol(b"1234", "c2FsdHNhbHRzYWx0").unwrap()),
        data(&enrol(b"0000", "c2FsdHNhbHRzYWx0").unwrap())
    );
}

#[test]
fn the_service_grants_what_it_unlocked() {
    let mut auth = Auth::new(store(b"1234"));
    let mut line = Compositor { connected: true };
    let mut unlocks = 0;
    let mut replies = Vec::new();
    for (pin, sent) in [("0000", true), ("1234", true), ("1234", false), ("1234", true)] {
        let heard = Heard::Request(Request::Verify { secret: pin.as_bytes().to_vec() });
        let secret = match serve_verifier(heard) {
            Next::Verify { secret } => secret,
            other => panic!("{other:?}"),
        };
        let outcome = auth.verify_at(&secret, 1_000_000_000, Ok(()));
        if line.unlocks(&outcome) && sent {
            unlocks += 1;
        }
        replies.push(line.answer(outcome, sent));
    }
    assert_eq!(unlocks, 1);
    assert!(matches!(replies[0], Response::Denied { retry_after_ms: 0 }));
    assert!(matches!(replies[1], Response::Granted));
    assert!(matches!(&replies[2], Response::Error(e) if e == "compositor not connected"));
    assert!(matches!(&replies[3], Response::Error(e) if e == "compositor not connected"));
    assert!(matches!(serve_verifier(Heard::Closed), Next::End(Ok(()))));
    assert!(matches!(serve_verifier(Heard::Broken("x".to_owned())), Next::End(Err(e)) if e == "x"));
}

fn policy(name: &str) -> AppPolicy {
    AppPolicy { name: name.to_owned(), gpu: false, globals: Vec::new(), grants: Vec::new(), icon: None }
}

#[test]
fn lookups_are_remembered_one_by_one() {
    let mut client = PolicyClient::connected(true);
    assert!(client.cached(7).is_none());
    let refused = rpc::Response::Error("no".to_owned());
    assert_eq!(client.lookup(7, refused, "").unwrap_err(), "no");
    assert!(client.cached(7).is_none());
    assert!(client.lookup(7, rpc::Response::Launched { uid: 1 }, "Launched").is_err());
    client.came_back(false);
    assert_eq!(client.begin(), Ok(Begin::Connect));
    client.came_back(true);
    assert_eq!(client.lookup(7, rpc::Response::Policy(policy("a")), "").unwrap().name, "a");
    assert_eq!(client.cached(7).unwrap().name, "a");
    assert!(client.cached(8).is_none());
    assert_eq!(client.lookup(8, rpc::Response::Policy(policy("b")), "").unwrap().name, "b");
    assert_eq!(client.cached(7).unwrap().name, "a");
}

#[test]
fn a_connection_is_answered_to_its_end() {
    let file = PolicyFile {
        default: policy("unknown"),
        apps: vec![AppEntry { uid: 7, uid_end: None, policy: policy("seven") }],
    };
    let store = PolicyStore::new(file).unwrap();
    let answer = |request: rpc::Request| {
        match serve_connection(&store, 7, daemon::Heard::Request(request)) {
            daemon::Next::Answer(Answer::Reply(r)) => r,
            other => panic!("{other:?}"),
        }
    };
    assert!(matches!(
        answer(rpc::Request::Hello { version: 1 }),
        rpc::Response::Hello { version: rpc::VERSION }
    ));
    assert!(matches!(answer(rpc::Request::Apps), rpc::Response::Error(_)));
    assert!(matches!(answer(rpc::Request::Lookup { uid: 7 }), rpc::Response::Policy(p) if p.name == "seven"));
    assert!(matches!(
        serve_connection(&store, 7, daemon::Heard::Closed),
        daemon::Next::End(Ok(()))
    ));
    assert!(matches!(
        serve_connection(&store, 7, daemon::Heard::Broken("x".to_owned())),
        daemon::Next::End(Err(e)) if e == "x"
    ));
}

fn call() -> Call {
    Call { caller: Some(":1.7".to_owned()), serial: 3, ticket: 11 }
}

fn options(token: &str) -> Options {
    Options {
        handle_token: Some(token.to_owned()),
        session_handle_token: Some("s".to_owned()),
        cursor_mode: Some(4),
        persist_mode: None,
        restore_token: Some("again".to_owned()),
        types: Some(2),
        directory: None,
        current_name: None,
    }
}

#[test]
fn a_session_starts_once_with_what_was_selected() {
    let session = "/org/freedesktop/portal/desktop/session/1_7/s";
    let mut shim = Shim::new(Side::Services);
    let none = format!("{:?}", shim.start(&call(), session, &options("t0"), None));
    assert!(none.contains("no such session"), "{none}");
    shim.create_session(&call(), &options("t1"));
    let number = shim.sessions.rows[0].1.id;
    shim.select_sources(&call(), session, &options("t2"));
    let first = format!("{:?}", shim.start(&call(), session, &options("t3"), None));
    assert!(
        first.contains(&format!(
            "session: {number}, cursor: Metadata, screens: false, windows: true, again: Some(\"again\")"
        )),
        "{first}"
    );
    let second = format!("{:?}", shim.start(&call(), session, &options("t4"), None));
    assert!(second.contains("the session was started already"), "{second}");
    assert!(!second.contains("Cast"), "{second}");
    shim.create_session(&call(), &options("t5"));
    let anew = format!("{:?}", shim.start(&call(), session, &options("t6"), None));
    assert!(anew.contains("screens: true, windows: false, again: None"), "{anew}");
}

#[test]
fn seat_devices_are_numbered_once() {
    let node = "/dev/input/event3";
    let mut devices = Devices::new("seat0".to_owned());
    devices.enumerated(Udev { node: Some(node.to_owned()), dev: Some(9), seat: None, boot_vga: None });
    let mut daemon = Daemon::new(devices);
    let open = |daemon: &mut Daemon| {
        assert!(matches!(
            daemon.request(seat::Request::Open { path: node.to_owned() }),
            Do::Open { .. }
        ));
        match daemon.opened(node, Ok(())) {
            seat::Response::Opened { id } => id,
            other => panic!("{other:?}"),
        }
    };
    assert_eq!(open(&mut daemon), 1);
    assert!(matches!(daemon.request(seat::Request::Close { id: 1 }), Do::Close { id: 1 }));
    assert!(matches!(closed(Ok(())), seat::Response::Done));
    assert!(matches!(daemon.request(seat::Request::Close { id: 1 }), Do::Reply(seat::Response::Error(_))));
    assert!(matches!(
        daemon.request(seat::Request::Hello { version: seat::VERSION }),
        Do::Reply(seat::Response::Error(_))
    ));
    assert_eq!(open(&mut daemon), 2);
    assert!(matches!(daemon.opened(node, Err("EIO".to_owned())), seat::Response::Error(_)));
    assert_eq!(open(&mut daemon), 3);
    assert_eq!(daemon.hung_up(), vec![2, 3]);
    assert!(daemon.hung_up().is_empty());
    assert_eq!(open(&mut daemon), 1);
}
