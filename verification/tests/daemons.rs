use drv::agent::{
    agent_env, askpass, askpass_answer, askpass_line, authenticator_present, count_keys, knock,
    load_if_empty, load_resident, passing, pin, pin_request, read_message, wait, write_message,
    Node, Shell, Signing,
};
use drv::cli::{launch_fd, socket, APPD};
use drv::forker::{
    self, candidates, command, env_path, fault, goes_back, parse_range, reap, settle, which, Args, Forker, Found, Part,
};
use drv::init::{ended, etc_entry, link, link_tree, state, Ended, Entry, Waited};
use drv::keys::{read_key, read_number, want, wpctl_failed};
use drv::policy::forker::Launch;
use drv::pw::{
    device, is_node_factory, kind, parse_request, remote, Cmd, Device, Global, Watch,
};
use drv::seat::daemon::{closed, describe, switched, Daemon, Devices, Hotplug, Udev};
use drv::seat::{is_allowed_device, Request, Response};
use drv::shell::ask;

#[test]
fn device_allowlist() {
    assert!(is_allowed_device("/dev/dri/card0"));
    assert!(is_allowed_device("/dev/input/event12"));
    assert!(!is_allowed_device("/dev/dri/renderD128"));
    assert!(!is_allowed_device("/dev/dri/card"));
    assert!(!is_allowed_device("/dev/dri/card0/../renderD128"));
    assert!(!is_allowed_device("/dev/input/mice"));
    assert!(!is_allowed_device("/dev/tty0"));
}

fn udev(node: &str, dev: u64) -> Udev {
    Udev {
        node: Some(node.to_owned()),
        dev: Some(dev),
        seat: None,
        boot_vga: Some("1".to_owned()),
    }
}

#[test]
fn roundtrip_with_fd() {
    let mut devices = Devices::new("seat0".to_owned());
    devices.enumerated(udev("/dev/dri/card0", 7));
    devices.enumerated(udev("/dev/tty0", 8));
    let mut daemon = Daemon::new(devices);
    let open = daemon.request(Request::Open { path: "/dev/dri/card0".to_owned() });
    assert_eq!(format!("{open:?}"), "Open { path: \"/dev/dri/card0\" }");
    match daemon.opened("/dev/dri/card0", Ok(())) {
        Response::Opened { id } => assert_eq!(id, 1),
        other => panic!("{other:?}"),
    }
    assert_eq!(daemon.hung_up(), vec![1]);
    let stranger = daemon.request(Request::Open { path: "/dev/dri/card1".to_owned() });
    assert!(format!("{stranger:?}").starts_with("Reply(Error("), "{stranger:?}");
}

#[test]
fn devices_come_and_go() {
    assert!(describe("seat0", udev("/dev/dri/card0", 7)).unwrap().boot_vga);
    assert!(describe("seat1", udev("/dev/dri/card0", 7)).is_none());
    assert!(describe("seat0", udev("/dev/input/mice", 7)).is_none());
    let mut devices = Devices::new("seat0".to_owned());
    assert!(devices.dispatch(Hotplug::Added(udev("/dev/input/event3", 9))).is_some());
    assert!(devices.is_announced("/dev/input/event3"));
    assert_eq!(devices.snapshot().len(), 1);
    assert!(devices.dispatch(Hotplug::Removed { dev: Some(9) }).is_some());
    assert!(devices.dispatch(Hotplug::Removed { dev: Some(9) }).is_none());
    assert!(matches!(closed(Err("x".to_owned())), Response::Error(_)));
    assert!(matches!(switched(2, Err("x".to_owned())), Response::Error(_)));
    let daemon = Daemon::new(devices);
    assert!(daemon.hello(&Request::Hello { version: 99 }).end.is_some());
}

#[test]
fn range_and_which() {
    assert_eq!(parse_range("100000:1000").unwrap(), (100000, 1000));
    assert!(parse_range("0:5").is_err());
    assert!(parse_range("5").is_err());
    assert_eq!(
        parse_range("1:x").unwrap_err(),
        "--range \"x\": invalid digit found in string"
    );
    let path = "/nonexistent:/bin:/usr/bin";
    assert_eq!(candidates("sh", path), vec!["/nonexistent/sh", "/bin/sh", "/usr/bin/sh"]);
    assert!(which("sh", path, &vec![false, true, true]).is_some());
    assert!(which("definitely-not-a-program", "/bin", &vec![false]).is_none());
    assert_eq!(which("/bin/sh", "", &vec![true]).unwrap(), "/bin/sh");
}

fn launch() -> Launch {
    Launch {
        uid: 100001,
        groups: vec![],
        argv: vec!["sh".to_owned(), "-c".to_owned()],
        env: vec![("PATH".to_owned(), "/bin".to_owned())],
        network: false,
        gpu: false,
        nix: false,
        expose: vec![],
        folders: vec![],
    }
}

#[test]
fn a_child_becomes_the_app() {
    let args = Args {
        base: "/base".to_owned(),
        state_base: "/var/lib/drv-apps".to_owned(),
        store: "/nix/store".to_owned(),
        run: "/run/drv".to_owned(),
        daemon_socket: "/nix/var/nix/daemon-socket".to_owned(),
        host_views: "/run/drv-host".to_owned(),
        resolv: "/etc/resolv.conf".to_owned(),
        folders_base: "/files".to_owned(),
    };
    let forker = Forker { start: 100000, count: 1000, args };
    assert!(forker.covers(100001));
    assert!(!forker.covers(99999) && !forker.covers(101000));
    let found = Found { dri: false, sys_gpu: false, daemon_socket: false };
    let steps = format!("{:?}", forker.child(&launch(), found));
    assert!(steps.contains("Switch { uid: 100001 }"), "{steps}");
    assert!(!steps.contains("RejoinNetwork"), "{steps}");
    let net = Launch { network: true, ..launch() };
    assert!(format!("{:?}", forker.child(&net, found)).contains("RejoinNetwork"));
    let all = forker.child(&launch(), found);
    for (i, step) in all.iter().enumerate() {
        let mounts = matches!(step, forker::Step::Mount { .. } | forker::Step::MountNew { .. });
        let state = matches!(step, forker::Step::CloneState { .. });
        assert_eq!(goes_back(&all, i), mounts || state, "{step:?}");
    }
    let said: Vec<String> = forker
        .child(&Launch { folders: vec!["Music".to_owned()], ..launch() }, found)
        .iter()
        .map(|step| fault(step, Part::Main, "EIO"))
        .collect();
    for text in [
        "folders' user namespace: EIO",
        "/files/Music: EIO",
        "folder \"Music\": idmap: EIO",
        "no_new_privs: EIO",
        "euid 100001: EIO",
        "shm: EIO",
        "pts: EIO",
        "proc: EIO",
        "state/100001: EIO",
        "euid back: EIO",
        "cgroup: EIO",
        "cgroup namespace: EIO",
        "EIO",
    ] {
        assert!(said.iter().any(|s| s == text), "{text}: {said:?}");
    }
    let mount = forker::Step::Mount { tree: forker::Tree::Run, at: "/run/drv".to_owned() };
    assert_eq!(fault(&mount, Part::Dir, "EIO"), "mkdir /run/drv: EIO");
    assert_eq!(fault(&mount, Part::Attach, "EIO"), "mount /run/drv: EIO");
    assert_eq!(env_path(&launch().env), "/bin");
    let c = command(&launch(), Some("/bin/sh".to_owned()), true).unwrap();
    assert_eq!(c.env, vec!["PATH=/bin"]);
    assert!(!c.resolv);
    assert!(command(&launch(), None, true).is_err());
    let s = settle(&vec![(5, 50), (6, 60)], &vec![true, false, true]);
    assert!(s.kept.len() + s.reaped.len() == 2);
    assert!(reap(5, 100001, true, 0).contains("100001"));
}

#[test]
fn agent_messages() {
    let wire = write_message(&vec![11]);
    assert_eq!(wire, vec![0, 0, 0, 1, 11]);
    assert_eq!(read_message(&wire[..4].to_vec()).unwrap(), 1);
    assert_eq!(read_message(&vec![0, 0, 0, 0]).unwrap_err(), "message of 0 bytes");
    let p = passing(&vec![11]);
    assert!(p.load && !p.sign);
    let p = passing(&vec![13]);
    assert!(p.load && p.sign);
    assert_eq!(count_keys(&vec![12, 0, 0, 1, 2]).unwrap(), 258);
    assert_eq!(count_keys(&vec![5]).unwrap_err(), "no identities answer");
    assert!(load_if_empty(Ok(0), true));
    assert!(!load_if_empty(Ok(1), true));
    assert!(!load_if_empty(Err("x".to_owned()), true));
    assert!(authenticator_present(&vec![Node { name: "hidraw3".to_owned(), ours: true }]));
    assert!(!authenticator_present(&vec![Node { name: "hidraw3".to_owned(), ours: false }]));
    assert_eq!(load_resident(false, " \n", "exit 1").unwrap_err(), "ssh-add -K: exit 1");
    assert_eq!(load_resident(false, " no key\n", "exit 1").unwrap_err(), "no key");
    assert_eq!(knock(5, Ok(("git".to_owned(), true))).unwrap(), "git");
    assert_eq!(knock(5, Ok(("web".to_owned(), false))).unwrap_err(), "refused uid 5");
    assert_eq!(knock(5, Err("gone".to_owned())).unwrap_err(), "refused uid 5: gone");
    assert_eq!(wait(false, None, false), Ok(false));
    assert_eq!(wait(true, None, true), Ok(true));
    assert!(wait(false, None, true).is_err());
    assert!(!agent_env("/bin/me").is_empty());
}

#[test]
fn prompts_are_for_the_latest_signer() {
    let mut signing = Signing::new();
    assert_eq!(
        format!("{:?}", askpass("none\ttouch it\n", &signing)),
        "Touch { app: \"an app\", uid: 0, prompt: \"touch it\" }"
    );
    signing.start("git".to_owned(), 70);
    signing.start("mail".to_owned(), 80);
    let line = askpass_line("pin", "PIN\nfor key");
    assert_eq!(line, "pin\tPIN for key\n");
    assert_eq!(
        format!("{:?}", askpass(&line, &signing)),
        "Pin { app: \"mail\", uid: 80, prompt: \"PIN for key\" }"
    );
    signing.end("mail", 80);
    assert!(format!("{:?}", askpass(&line, &signing)).contains("git"));
    assert_eq!(askpass_answer("none", String::new()).unwrap(), None);
    assert_eq!(askpass_answer("pin", "1".to_owned()).unwrap().as_deref(), Some("1"));
    assert_eq!(askpass_answer("pin", String::new()).unwrap_err(), "refused");
    let mut shell = Shell::new();
    let id = shell.ask(4);
    assert_eq!(shell.dispatch(&ask::Response::Cancelled { id }), Some(4));
    assert_eq!(shell.dispatch(&ask::Response::Cancelled { id }), None);
    assert!(matches!(pin_request(1, "git", 70, "p"), ask::Request::Secret { id: 1, .. }));
    assert_eq!(
        pin(Some(ask::Response::Secret { id: 1, secret: "12".to_owned() })).unwrap().as_deref(),
        Some("12")
    );
}

#[test]
fn pipewire_is_watched() {
    assert_eq!(kind(Device::Microphone), "mic");
    assert_eq!(device("camera"), Some(Device::Camera));
    assert_eq!(device("x"), None);
    assert_eq!(parse_request("request:7:camera"), Some((7, Device::Camera)));
    assert_eq!(parse_request("request:x:camera"), None);
    let mut watch = Watch::new();
    let camera = Global::Node { class: Some("Video/Source".to_owned()) };
    watch.global(9, &camera);
    assert_eq!(watch.cameras(), vec![9]);
    watch.removed(9);
    assert!(watch.cameras().is_empty());
    assert!(watch.command(Cmd::Write { uid: 7, kinds: "camera".to_owned() }).is_empty());
    watch.bound(3);
    let acts = watch.command(Cmd::Write { uid: 7, kinds: "mic".to_owned() });
    assert_eq!(
        format!("{acts:?}"),
        "[Put { subject: 0, key: \"grant:7\", value: Some(\"mic\") }]"
    );
    let perms = remote(4, &vec![44], false).unwrap();
    assert!(perms.iter().any(|p| p.id == 44 && p.read && !p.write));
    assert!(perms.last().is_some_and(|p| !p.read && !p.write && !p.execute));
    assert!(!is_node_factory(false, None));
}

#[test]
fn keys_do_what_they_say() {
    assert_eq!(
        format!("{:?}", read_key("volume up", 5).unwrap()),
        "Volume { args: [\"set-volume\", \"-l\", \"1.0\", \"@DEFAULT_AUDIO_SINK@\", \"5%+\"] }"
    );
    assert_eq!(
        format!("{:?}", read_key("volume down", 7).unwrap()),
        "Volume { args: [\"set-volume\", \"@DEFAULT_AUDIO_SINK@\", \"7%-\"] }"
    );
    assert_eq!(
        format!("{:?}", read_key("mic mute", 7).unwrap()),
        "Volume { args: [\"set-mute\", \"@DEFAULT_AUDIO_SOURCE@\", \"toggle\"] }"
    );
    assert!(format!("{:?}", read_key("volume mute", 7).unwrap()).contains("SINK"));
    assert_eq!(
        format!("{:?}", read_key("brightness up", 7).unwrap()),
        "Brightness { up: true }"
    );
    assert_eq!(read_key("power", 5).unwrap_err(), "not a key: \"power\"");
    assert_eq!(want(1000, 500, 5, 2, true), 550);
    assert_eq!(want(1000, 980, 5, 2, true), 1000);
    assert_eq!(want(1000, 500, 5, 2, false), 450);
    assert_eq!(want(1000, 30, 5, 2, false), 2);
    assert_eq!(want(10, 5, 5, 2, true), 6);
    assert_eq!(want(1, 1, 5, 2, false), 1);
    assert_eq!(read_number("/b", " 42\n").unwrap(), 42);
    assert_eq!(
        read_number("/b", "x\n").unwrap_err(),
        "/b: \"x\\n\": invalid digit found in string"
    );
    assert_eq!(wpctl_failed("exit status: 1", &b" no sink\n".to_vec()), "wpctl: exit status: 1: no sink");
}

#[test]
fn an_app_is_linked_and_reaped() {
    assert_eq!(
        format!("{:?}", state("/home/a", ".cache/x").unwrap()),
        "[MakeDirs { path: \"/home/a/.state/.cache/x\", said: \"state /home/a/.state/.cache/x\" }, \
         MakeDirs { path: \"/home/a/.cache\", said: \"/home/a/.cache\" }, \
         Link { target: \"/home/a/.state/.cache/x\", link: \"/home/a/.cache/x\", \
         said: \"link /home/a/.cache/x\" }]"
    );
    assert_eq!(
        state("/home/a", "../x").unwrap_err(),
        "state ../x: not a plain relative path"
    );
    assert!(state("/home/a", "/x").is_err() && state("/home/a", "./x").is_err());
    assert_eq!(
        format!("{:?}", etc_entry("/nix/store/e/hosts", "hosts")),
        "[MakeDirs { path: \"/etc\", said: \"/etc\" }, \
         Link { target: \"/nix/store/e/hosts\", link: \"/etc/hosts\", said: \"link /etc/hosts\" }]"
    );
    assert!(matches!(link_tree("/s/d", "d", true, "/home/a"), Entry::Into));
    match link_tree("/s/d/f", "d/f", false, "/home/a") {
        Entry::Steps(steps) => assert_eq!(
            format!("{steps:?}"),
            "[MakeDirs { path: \"/home/a/d\", said: \"/home/a/d\" }, \
             Link { target: \"/s/d/f\", link: \"/home/a/d/f\", said: \"link /home/a/d/f\" }]"
        ),
        other => panic!("{other:?}"),
    }
    assert_eq!(format!("{:?}", link("/t", "/l")[0]), "MakeDirs { path: \"/\", said: \"/\" }");
    assert_eq!(ended(9, Waited::Reaped { pid: 9, ended: Ended::Exited(3) }), Some(3));
    assert_eq!(ended(9, Waited::Reaped { pid: 9, ended: Ended::Killed(15) }), Some(143));
    assert_eq!(ended(9, Waited::Reaped { pid: 9, ended: Ended::Otherwise }), Some(1));
    assert_eq!(ended(9, Waited::Reaped { pid: 8, ended: Ended::Exited(3) }), None);
    assert_eq!(ended(9, Waited::Interrupted), None);
    assert_eq!(ended(9, Waited::Nothing), None);
    assert_eq!(ended(9, Waited::Failed), Some(0));
}

#[test]
fn the_command_line_finds_its_daemon() {
    assert_eq!(launch_fd(Some("7")), Ok(7));
    assert_eq!(launch_fd(Some("+7")), Ok(7));
    assert_eq!(launch_fd(Some("-0")), Ok(0));
    let none = "no launch channel (DRV_LAUNCH_FD unset): only an app with launcher = true may launch";
    for s in [None, Some("-1"), Some("-"), Some(""), Some("x"), Some("2147483648")] {
        assert_eq!(launch_fd(s).unwrap_err(), none, "{s:?}");
    }
    assert_eq!(socket(None, None, APPD), "/run/drv/appd.sock");
    assert_eq!(socket(None, Some("/b".to_owned()), APPD), "/b");
    assert_eq!(socket(Some("/a".to_owned()), Some("/b".to_owned()), APPD), "/a");
}
