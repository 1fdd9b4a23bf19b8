use drv::bridge::bus::{sender_component, unique_from_component};
use drv::policy::client::{apps, hello, launch, Begin, PolicyClient};
use drv::policy::daemon::{serve_request, started, Answer};
use drv::policy::rpc::{read_len, uri_scheme, write_msg, Request, Response, VERSION};
use drv::policy::seq::{check_recv, check_send, check_sent, Fault};
use drv::policy::wire::{recv_attach, Attach};
use drv::policy::{AppEntry, AppPolicy, Error, Global, Grant, PolicyFile, PolicyStore};

fn policy(name: &str, gpu: bool, globals: Vec<Global>, grants: Vec<Grant>) -> AppPolicy {
    AppPolicy { name: name.to_owned(), gpu, globals, grants, icon: None }
}

fn entry(uid: u32, uid_end: Option<u32>, policy: AppPolicy) -> AppEntry {
    AppEntry { uid, uid_end, policy }
}

#[test]
fn parses_file() {
    let file = PolicyFile {
        default: policy("unknown", false, vec![], vec![]),
        apps: vec![
            entry(1000, None, policy("me", false, vec![Global::Screencopy], vec![Grant::Lookup])),
            entry(
                100000,
                Some(199999),
                policy("sandboxed", true, vec![Global::LayerShell], vec![]),
            ),
        ],
    };
    let store = PolicyStore::new(file).unwrap();
    assert!(store.lookup(1000).allows(Global::Screencopy));
    assert!(store.lookup(1000).has(Grant::Lookup));
    assert!(!store.lookup(1000).has(Grant::Screencast));
    let sandboxed = store.lookup(150000);
    assert_eq!(sandboxed.name, "sandboxed");
    assert!(sandboxed.allows(Global::Dmabuf));
    assert!(sandboxed.allows(Global::LayerShell));
    assert!(!sandboxed.allows(Global::Screencopy));
    let unknown = store.lookup(5);
    assert_eq!(unknown.name, "unknown");
    assert!(!unknown.allows(Global::Dmabuf));
}

#[test]
fn client_and_daemon_roundtrip() {
    let file = PolicyFile {
        apps: vec![entry(7, None, policy("seven", true, vec![], vec![Grant::Lookup]))],
        ..PolicyFile::default()
    };
    let store = PolicyStore::new(file).unwrap();
    let ask = |request: Request| match serve_request(&store, 7, request) {
        Answer::Reply(r) => r,
        Answer::Start(_) => unreachable!(),
    };
    let mut client = PolicyClient::connected(false);
    hello(&ask(Request::Hello { version: VERSION }), "").unwrap();
    assert_eq!(client.begin(), Ok(Begin::Send));
    assert_eq!(client.lookup(7, ask(Request::Lookup { uid: 7 }), "").unwrap().name, "seven");
    assert!(client.cached(7).unwrap().allows(Global::Dmabuf));
    assert_eq!(client.lookup(8, ask(Request::Lookup { uid: 8 }), "").unwrap().name, "unknown");
    assert!(launch(ask(Request::Launch { app: "seven".to_owned() }), "").is_err());
    assert!(apps(ask(Request::Apps), "").is_err());
}

#[test]
fn rejects_overlap() {
    let file = PolicyFile {
        apps: vec![
            entry(10, Some(20), policy("a", false, vec![], vec![])),
            entry(20, None, policy("b", false, vec![], vec![])),
        ],
        ..PolicyFile::default()
    };
    assert!(matches!(PolicyStore::new(file), Err(Error::Overlap(20))));
    assert_eq!(
        Error::Overlap(20).message(),
        "uid 20 is covered by more than one app entry"
    );
}

#[test]
fn strangers_need_the_grant() {
    let store = PolicyStore::new(PolicyFile::default()).unwrap();
    match serve_request(&store, 5, Request::Lookup { uid: 6 }) {
        Answer::Reply(Response::Error(e)) => assert_eq!(e, "uid 5 may not look up other uids"),
        other => panic!("{other:?}"),
    }
    match serve_request(&store, 5, Request::Open { uri: "https://x".to_owned() }) {
        Answer::Reply(Response::Error(e)) => assert_eq!(e, "no app opens \"https\""),
        other => panic!("{other:?}"),
    }
    match serve_request(&store, 5, Request::Open { uri: "x y".to_owned() }) {
        Answer::Reply(Response::Error(e)) => assert_eq!(e, "not a URI"),
        other => panic!("{other:?}"),
    }
    assert!(matches!(started("forker", 9, Ok(())), Response::Launched { uid: 9 }));
    assert!(matches!(
        started("spawner", 9, Err("full".to_owned())),
        Response::Error(e) if e == "spawner: full"
    ));
}

#[test]
fn everything_is_everything() {
    let all = AppPolicy::everything("me");
    for global in Global::all() {
        assert!(all.allows(global));
    }
    assert_eq!(Global::all().len(), 14);
    assert!(AppPolicy::unknown().is_unknown());
    assert!(!all.is_unknown());
}

#[test]
fn schemes() {
    assert_eq!(uri_scheme("https://example.org").as_deref(), Some("https"));
    assert_eq!(uri_scheme("no scheme"), None);
    assert_eq!(uri_scheme("1a:b"), None);
}

#[test]
fn frames_hold_their_length() {
    let frame = write_msg(&vec![1, 2, 3]).unwrap();
    assert_eq!(frame.len(), 7);
    assert_eq!(read_len(&frame[..4].to_vec()).unwrap(), 3);
    assert_eq!(&frame[4..], &[1, 2, 3]);
    assert!(read_len(&vec![0xff, 0xff, 0xff, 0xff]).is_err());
}

#[test]
fn roundtrip_with_fd_and_eof() {
    assert_eq!(check_send(8, 65536, 1, 16), Ok(()));
    assert_eq!(check_sent(8, 8), Ok(()));
    assert_eq!(check_recv(8, false), Ok(()));
    assert_eq!(check_recv(0, false), Err(Fault::Closed));
    assert_eq!(check_send(65537, 65536, 0, 16), Err(Fault::TooLarge));
    assert_eq!(check_send(1, 65536, 17, 16), Err(Fault::TooManyFds));
    assert_eq!(check_sent(7, 8), Err(Fault::ShortSend));
    assert_eq!(Fault::TooLarge.message(), "message too large");
}

#[test]
fn attach_carries_its_fd() {
    assert_eq!(recv_attach(Attach::Auth, &vec![5]), Ok((Attach::Auth, 5)));
    assert_eq!(recv_attach(Attach::Auth, &vec![]), Err(Fault::NotOneFd));
    assert_eq!(recv_attach(Attach::Auth, &vec![5, 6]), Err(Fault::NotOneFd));
}

#[test]
fn unique_names_round_trip() {
    assert_eq!(sender_component(":1.7"), "1_7");
    assert_eq!(unique_from_component("1_7"), ":1.7");
}

#[test]
fn unique_names_become_path_components() {
    assert_eq!(drv::dbus_shim::sender_component(":1.7"), "1_7");
}

#[test]
fn a_client_of_a_stream_does_not_come_back() {
    let mut client = PolicyClient::connected(false);
    client.came_back(false);
    assert!(client.begin().is_err());
    assert!(client.reconnect().is_err());
    let mut socket = PolicyClient::connected(true);
    socket.came_back(false);
    assert_eq!(socket.begin(), Ok(Begin::Connect));
    assert!(socket.reconnect().is_ok());
    assert!(hello(&Response::Hello { version: 1 }, "").is_err());
}
