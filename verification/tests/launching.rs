use drv::appd::{socket_listening, wait, Appd, Launcher, Wait};
use drv::identity::Identity;
use drv::manifest::{check_config, AppConfig, Config, Env, Error};
use drv::policy::daemon::Handler;
use drv::policy::{Global, Grant};

fn app(name: &str, uid: u32) -> AppConfig {
    AppConfig {
        name: name.to_owned(),
        uid,
        command: None,
        groups: vec![],
        gpu: false,
        network: false,
        globals: vec![],
        grants: vec![],
        icon: None,
        env: Env::new(),
        expose: vec![],
        autostart: false,
    }
}

fn env(pairs: &[(&str, &str)]) -> Env {
    let mut env = Env::new();
    for (k, v) in pairs {
        env.set(k.to_string(), v.to_string());
    }
    env
}

fn config() -> Config {
    let config = Config {
        wayland_socket: "/run/drv-wayland/wayland".to_owned(),
        env: env(&[("PIPEWIRE_RUNTIME_DIR", "/run/pipewire")]),
        apps: vec![
            AppConfig { grants: vec![Grant::Lookup], ..app("compositor", 901) },
            AppConfig {
                command: Some(vec!["firefox".to_owned()]),
                gpu: true,
                groups: vec!["render".to_owned()],
                env: env(&[("MOZ_ENABLE_WAYLAND", "1")]),
                expose: vec!["/run/drv-session".to_owned()],
                ..app("firefox", 100042)
            },
        ],
    };
    check_config(&config).unwrap();
    config
}

fn base() -> Vec<(String, String)> {
    vec![("PATH".to_owned(), "/bin".to_owned())]
}

fn get<'a>(env: &'a [(String, String)], k: &str) -> Option<&'a str> {
    env.iter().find(|(n, _)| n == k).map(|(_, v)| v.as_str())
}

#[test]
fn launch_builds_env_from_manifest_only() {
    let appd = Appd::new(config(), base());
    let req = Launcher { appd: &appd }.launch(5, "firefox").unwrap();
    assert_eq!(req.uid, 100042);
    assert_eq!(req.argv, vec!["firefox"]);
    assert_eq!(req.groups, vec!["render"]);
    assert_eq!(req.expose, vec!["/run/drv-session"]);
    assert_eq!(get(&req.env, "PATH"), Some("/bin"));
    assert_eq!(get(&req.env, "PIPEWIRE_RUNTIME_DIR"), Some("/run/pipewire"));
    assert_eq!(get(&req.env, "MOZ_ENABLE_WAYLAND"), Some("1"));
    assert_eq!(get(&req.env, "WAYLAND_DISPLAY"), Some("/run/drv-wayland/wayland"));
}

#[test]
fn lib_launch_builds_env_from_manifest_only() {
    let id = Identity::new(config(), base());
    let req = id.launch(5, "firefox").unwrap();
    assert_eq!(req.uid, 100042);
    assert_eq!(req.argv, vec!["firefox"]);
    assert_eq!(req.groups, vec!["render"]);
    assert_eq!(req.expose, vec!["/run/drv-session"]);
    assert_eq!(get(&req.env, "PATH"), Some("/bin"));
    assert_eq!(get(&req.env, "PIPEWIRE_RUNTIME_DIR"), Some("/run/pipewire"));
    assert_eq!(get(&req.env, "MOZ_ENABLE_WAYLAND"), Some("1"));
    assert_eq!(get(&req.env, "WAYLAND_DISPLAY"), Some("/run/drv-wayland/wayland"));
}

#[test]
fn the_public_socket_launches_nothing() {
    let appd = Appd::new(config(), base());
    let err = appd.launch(5, "firefox").unwrap_err();
    assert!(err.contains("public socket"), "{err}");
    assert_eq!(
        err,
        "uid 5 asked to launch \"firefox\" on the public socket; only a launch channel may"
    );
    assert!(appd.apps(5).is_err());
    assert!(Launcher { appd: &appd }.lookup(5, 5).is_err());
}

#[test]
fn services_are_not_launchable() {
    let appd = Appd::new(config(), base());
    let err = Launcher { appd: &appd }.launch(5, "compositor").unwrap_err();
    assert!(err.contains("service"), "{err}");
}

#[test]
fn lib_services_are_not_launchable() {
    let err = Identity::new(config(), base()).launch(5, "compositor").unwrap_err();
    assert!(err.contains("service"), "{err}");
}

#[test]
fn lookup_needs_the_grant_for_other_uids() {
    let id = Appd::new(config(), base());
    assert_eq!(id.lookup(100042, 100042).unwrap().name, "firefox");
    assert!(id.lookup(100042, 901).is_err());
    assert_eq!(id.lookup(901, 100042).unwrap().name, "firefox");
    assert!(id.lookup(901, 100042).unwrap().allows(Global::Dmabuf));
    assert_eq!(id.lookup(901, 5).unwrap().name, "unknown");
    assert!(id.lookup(5, 5).is_ok());
}

#[test]
fn lib_lookup_needs_the_grant_for_other_uids() {
    let id = Identity::new(config(), base());
    assert_eq!(id.lookup(100042, 100042).unwrap().name, "firefox");
    assert!(id.lookup(100042, 901).is_err());
    assert_eq!(id.lookup(901, 100042).unwrap().name, "firefox");
    assert!(id.lookup(901, 100042).unwrap().allows(Global::Dmabuf));
    assert_eq!(id.lookup(901, 5).unwrap().name, "unknown");
    assert!(id.lookup(5, 5).is_ok());
}

fn bad(apps: Vec<AppConfig>) -> String {
    check_config(&Config { wayland_socket: "/x".to_owned(), env: Env::new(), apps }).unwrap_err()
}

#[test]
fn rejects_duplicate_uids_and_names_and_bad_autostart() {
    assert!(bad(vec![app("a", 12), app("b", 12)]).contains("uid 12"));
    assert!(bad(vec![app("a", 12), app("a", 13)]).contains("twice"));
    assert!(bad(vec![AppConfig { autostart: true, ..app("a", 12) }]).contains("autostart"));
}

#[test]
fn lib_rejects_duplicate_uids_and_names_and_bad_autostart() {
    assert_eq!(bad(vec![app("a", 12), app("b", 12)]), "uid 12 used by more than one app");
    assert_eq!(bad(vec![app("a", 12), app("a", 13)]), "app \"a\" listed twice");
    assert_eq!(
        bad(vec![AppConfig { autostart: true, ..app("a", 12) }]),
        "app \"a\" is autostart but has no exec"
    );
    assert_eq!(
        bad(vec![AppConfig { command: Some(vec![]), ..app("a", 12) }]),
        "app \"a\" has an empty exec"
    );
}

#[test]
fn unknown_app_is_refused() {
    let appd = Appd::new(config(), base());
    let err = Launcher { appd: &appd }.launch(5, "nope").unwrap_err();
    assert!(err.contains("unknown app"));
    assert_eq!(err, "unknown app \"nope\"; add it to appd.toml");
}

#[test]
fn lib_unknown_app_is_refused() {
    let err = Identity::new(config(), base()).launch(5, "nope").unwrap_err();
    assert!(err.contains("unknown app"));
    assert_eq!(err, "unknown app \"nope\"; add it to identity.toml");
}

#[test]
fn launchable_names_are_listed() {
    let appd = Appd::new(config(), base());
    assert_eq!(Launcher { appd: &appd }.apps(5).unwrap(), vec!["firefox"]);
    assert_eq!(Identity::new(config(), base()).apps(5).unwrap(), vec!["firefox"]);
}

#[test]
fn autostart_goes_by_the_manifest() {
    let mut c = config();
    c.apps.push(AppConfig {
        command: Some(vec!["z".to_owned()]),
        autostart: true,
        ..app("z", 3)
    });
    c.apps.push(AppConfig {
        command: Some(vec!["b".to_owned()]),
        autostart: true,
        ..app("b", 4)
    });
    let appd = Appd::new(c, base());
    let started: Vec<(String, u32)> = appd
        .autostart()
        .into_iter()
        .map(|(name, launch)| (name, launch.unwrap().uid))
        .collect();
    assert_eq!(started, vec![("z".to_owned(), 3), ("b".to_owned(), 4)]);
    assert_eq!(wait(false, 5, 5), Wait::Again);
    assert_eq!(wait(false, 6, 5), Wait::GiveUp);
    assert_eq!(wait(true, 6, 5), Wait::Start);
}

#[test]
fn variables_stand_in_order_and_once() {
    let e = env(&[("B", "1"), ("A", "2"), ("C", "3"), ("B", "4")]);
    let mut out = Vec::new();
    e.add_to(&mut out);
    let shown: Vec<(&str, &str)> = out.iter().map(|(k, v)| (k.as_str(), v.as_str())).collect();
    assert_eq!(shown, vec![("A", "2"), ("B", "4"), ("C", "3")]);
}

#[test]
fn a_socket_listens_by_the_table() {
    let table = "Num RefCount Protocol Flags Type St Inode Path\n\
                 a: 2 0 00010000 0001 01 77 /run/x\n\
                 b: 3 0 00000000 0001 03 78 /run/y\n";
    assert!(socket_listening(table, "/run/x"));
    assert!(!socket_listening(table, "/run/y"));
    assert!(!socket_listening(table, "/run/z"));
    assert!(!socket_listening("a: 2 0 00010000 0001 01 77 /run/x\n", "/run/x"));
}

#[test]
fn manifest_errors_read() {
    let io = Error::Io("/etc/a".to_owned(), "gone".to_owned());
    assert_eq!(io.message(), "/etc/a: gone");
    assert_eq!(Error::Parse("/etc/a".to_owned(), "bad".to_owned()).message(), "/etc/a: bad");
    assert_eq!(Error::Config("why".to_owned()).message(), "why");
}

#[test]
fn variables_go_by_name() {
    let entry = AppConfig { env: env(&[("B", "1"), ("A", "2"), ("B", "3")]), ..app("a", 100001) };
    let config = Config {
        wayland_socket: "/w".to_owned(),
        env: env(&[("Z", "1"), ("M", "2"), ("\u{e9}", "3"), ("a", "4")]),
        apps: Vec::new(),
    };
    let names: Vec<(String, String)> = config.env_for(&base(), &entry);
    let names: Vec<String> = names.into_iter().map(|(k, v)| format!("{k}={v}")).collect();
    assert_eq!(
        names,
        ["PATH=/bin", "M=2", "Z=1", "a=4", "\u{e9}=3", "A=2", "B=3", "WAYLAND_DISPLAY=/w"]
    );
}
