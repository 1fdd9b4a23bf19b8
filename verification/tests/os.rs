use drv::os::approot::{enter, missing, prepare, refuses_exec_gain, RunEntry, Spec};
use drv::os::creds::{
    drop_capability, drop_for_good, empty_bounding_set, lock_securebits, switch_to, CapSets,
};
use drv::os::denied::log_denied;
use drv::os::fds::{check_unix, handoff, take, Fds, Kind, Probe, Var, ENV_FDS, ENV_NAMES};
use drv::os::host::{
    apps_cgroup, group_id, host_pid, map_line, own_cgroup, user_groups, user_ids, Entry, More,
};
use drv::os::landlock::{Found, Rule, Ruleset, READ};
use drv::os::mounts::{dev_fs, ro, set_attrs, set_flags, set_idmap};
use drv::os::root::Root;
use drv::os::sandbox::{Exposed, Sandbox, What};
use drv::os::seccomp::{enabled, entries, filters, program, Action, Allowlist, Arch, Cond, Syscall};

const STREAM: u32 = 1;
const SEQPACKET: u32 = 5;

fn probe(kind: u32) -> Probe {
    Probe { domain: Ok(1), socket_type: Ok(kind), accepting: Ok(false) }
}

#[test]
fn pairs_are_what_they_say() {
    check_unix("a", &probe(STREAM), Some(STREAM), false).unwrap();
    assert!(check_unix("a", &probe(STREAM), Some(SEQPACKET), false).is_err());
    assert!(check_unix("a", &probe(STREAM), Some(STREAM), true).is_err());
    check_unix("c", &probe(SEQPACKET), Some(SEQPACKET), false).unwrap();
    assert_eq!(Kind::Stream.socket_type(), STREAM);
    assert_eq!(Kind::SeqPacket.socket_type(), SEQPACKET);
}

fn pair(name: &str, fd: i32) -> (String, i32) {
    (name.to_owned(), fd)
}

#[test]
fn handoff_numbers_from_three_and_names_in_order() {
    let (env, placed) = handoff(&vec![pair("wire", 10), pair("gpu", 11)]).unwrap();
    assert_eq!(placed[0].0, 3);
    assert_eq!(placed[1].0, 4);
    assert!(env.contains(&(ENV_FDS.to_owned(), "2".to_owned())));
    assert!(env.contains(&(ENV_NAMES.to_owned(), "wire:gpu".to_owned())));
    assert!(handoff(&vec![pair("a", 10), pair("a", 11)]).is_err());
    assert!(handoff(&vec![pair("a:b", 10)]).is_err());
}

#[test]
fn what_is_handed_over_is_taken() {
    let (env, _) = handoff(&vec![pair("wire", 10), pair("gpu", 11)]).unwrap();
    let handed = take(
        &Var::Text(env[0].1.clone()),
        &Var::Text("77".to_owned()),
        &Var::Text(env[1].1.clone()),
        77,
    );
    assert_eq!(handed.taken, vec![pair("wire", 3), pair("gpu", 4)]);
    assert_eq!(handed.wrong, None);
    let none = take(&Var::Unset, &Var::Unset, &Var::Unset, 77);
    assert!(none.taken.is_empty() && none.wrong.is_none());
    let wrong = take(
        &Var::Text("x".to_owned()),
        &Var::Text("77".to_owned()),
        &Var::Text("a".to_owned()),
        77,
    );
    assert!(wrong.wrong.is_some());
}

#[test]
fn fds_are_taken_by_name_and_kind() {
    let mut fds = Fds::new();
    fds.add("wire".to_owned(), 3, probe(STREAM)).unwrap();
    fds.add("gpu".to_owned(), 4, probe(SEQPACKET)).unwrap();
    assert!(fds.add("gpu".to_owned(), 5, probe(STREAM)).is_err());
    assert_eq!(fds.socket("wire", Kind::Stream), Ok(3));
    assert!(fds.socket("wire", Kind::Stream).is_err());
    assert_eq!(fds.leftover(), vec!["gpu"]);
    assert_eq!(fds.file("gpu"), Ok(4));
    assert!(fds.is_empty());
}

#[test]
fn resolves_groups_and_users() {
    assert_eq!(group_id("root", Entry::Found(0)).unwrap(), 0);
    assert!(group_id("no-such-group-xyz", Entry::Unknown).is_err());
    assert_eq!(user_ids("root", Entry::Found((0, 0))).unwrap(), (0, 0));
    assert!(user_ids("no-such-user-xyz", Entry::Unknown).is_err());
    assert_eq!(group_id("x", Entry::Unknown).unwrap_err(), "no such group \"x\"");
    assert_eq!(
        user_ids("x", Entry::Failed("broken".to_owned())).unwrap_err(),
        "getpwnam \"x\": broken"
    );
    assert_eq!(
        group_id("a\0", Entry::Found(1)).unwrap_err(),
        "bad group name \"a\\0\""
    );
}

#[test]
fn the_host_is_read() {
    assert_eq!(own_cgroup("0::/drv/forker\n").unwrap(), "/sys/fs/cgroup/drv/forker");
    assert_eq!(own_cgroup("1:x:/\n").unwrap_err(), "not on cgroup v2");
    assert_eq!(apps_cgroup("/sys/fs/cgroup/drv/forker").unwrap(), "/sys/fs/cgroup/drv/apps");
    assert_eq!(map_line(100, 5), "100 5 1\n");
    assert_eq!(host_pid("pos: 0\nPid:\t42\n").unwrap(), 42);
    assert!(host_pid("Pid:\t-1\n").is_err());
    assert_eq!(user_groups(3, 3, 8), More::Done(3));
    assert_eq!(user_groups(-1, 30, 8), More::Again(30));
    assert_eq!(user_groups(-1, 8, 8), More::Failed);
}

#[test]
fn mount_flags_are_set_or_cleared() {
    let attr = set_attrs(ro(), true);
    assert_eq!((attr.attr_set, attr.attr_clr), (7, 8));
    assert_eq!(attr.propagation, 262144);
    assert_eq!(attr.flags, 0x9000);
    let dev = set_flags(dev_fs(), false);
    assert_eq!((dev.attr_set, dev.attr_clr, dev.propagation), (10, 5, 0));
    assert_eq!(dev.flags, 0x1000);
    assert_eq!(set_idmap(9).userns_fd, 9);
}

#[test]
fn securebits_and_capabilities() {
    let bits = lock_securebits();
    assert_eq!(bits[1], 0xef);
    assert!(bits[0] > bits[1]);
    assert_eq!(drop_capability(0b111, 0b010), 0b101);
    assert_eq!(
        format!("{:?}", empty_bounding_set(0b001, 0b101)),
        "[DropBounding(2)]"
    );
    let acts = format!("{:?}", switch_to(1000, 100, vec![7], 0, 0));
    let gid = acts.find("SetGid(100)").unwrap();
    let uid = acts.find("SetUid(1000)").unwrap();
    assert!(acts.find("SetGroups([7])").unwrap() < gid && gid < uid, "{acts}");
}

#[test]
fn landlock_gives_what_there_is() {
    let c = Ruleset::new(1).unwrap();
    assert_eq!(c.ruleset.all(), 0x1fff);
    assert_eq!(c.size, 8);
    let c = Ruleset::new(6).unwrap();
    assert_eq!((c.attr.scoped, c.size), (3, 24));
    assert_eq!(c.ruleset.allow(READ, Found::Dir), Rule::Add(0xc));
    assert_eq!(c.ruleset.allow(READ, Found::File), Rule::Add(4));
    assert_eq!(c.ruleset.allow(READ, Found::Missing), Rule::Skip);
    assert_eq!(c.ruleset.allow(0x80, Found::File), Rule::Nothing);
    assert!(Ruleset::new(-1).is_err());
}

#[test]
fn the_baseline_is_what_it_is() {
    let list = Allowlist::base(true, 77);
    let of = |list: &Allowlist, call: Syscall| {
        list.entries.iter().find(|e| e.call == call).map(|e| e.rules.len())
    };
    assert_eq!(of(&list, Syscall::Read), Some(0));
    assert_eq!(of(&list, Syscall::Openat), None);
    let mut readers = Allowlist::base(true, 77);
    readers.read_files();
    assert_eq!(of(&readers, Syscall::Openat), Some(1));
    readers.accept();
    assert_eq!(of(&readers, Syscall::Accept4), Some(0));
    assert!(enabled(None) && enabled(Some("1")) && !enabled(Some("0")));
}

#[test]
fn filters_are_compiled() {
    let cond = Cond { arg: 0, wide: false, mask: None, value: 1 };
    let rules = vec![(0i64, vec![]), (1i64, vec![vec![cond]])];
    let p = program(&rules, Action::Trap, Action::Allow, Arch::X86_64).unwrap();
    // The first instruction loads the architecture.
    assert_eq!((p[0].0, p[0].3), (0x20, 4));
    assert!(p.len() > 8);
    let bad = Cond { arg: 6, wide: false, mask: None, value: 1 };
    let rules = vec![(1i64, vec![vec![bad]])];
    let e = program(&rules, Action::Trap, Action::Allow, Arch::X86_64).unwrap_err();
    assert!(e.starts_with("seccomp: "), "{e}");
    let rules = vec![(0i64, vec![])];
    assert!(program(&rules, Action::Allow, Action::Allow, Arch::X86_64).is_err());
    assert!(program(&rules, Action::Errno(1), Action::Allow, Arch::Aarch64).is_ok());
}

#[test]
fn a_refusal_is_one_line() {
    let line = log_denied(0, b"leaf", 257, Some(Syscall::Openat), &[1, 2, 3], Some(&b"/etc"[..]))
        .unwrap();
    let text = String::from_utf8(line.buf[..line.len].to_vec()).unwrap();
    assert!(text.starts_with("leaf"), "{text}");
    assert!(text.contains("257") && text.contains("/etc"), "{text}");
    assert!(text.ends_with('\n') && text.lines().count() == 1);
    assert!(log_denied(u32::MAX, b"leaf", 1, None, &[0, 0, 0], None).is_none());
}

#[test]
fn only_run_is_exposed() {
    let expose = |path: &str| vec![Exposed { path: path.to_owned(), what: What::Dir }];
    let plan = Sandbox::plan(&expose("/run/user"), false, None).unwrap();
    assert!(plan.no_network);
    assert_eq!(plan.binds.len(), 1);
    assert!(!plan.apply().is_empty());
    assert!(Sandbox::plan(&expose("/etc"), false, None).is_err());
}

#[test]
fn a_root_makes_each_directory_once() {
    let mut root = Root::new("/base".to_owned(), true).unwrap();
    root.mount(1, "/a/b").unwrap();
    root.mount(2, "/a/c").unwrap();
    root.symlink("/a/b", "/a/d").unwrap();
    assert_eq!(
        root.dirs.iter().filter(|d| d.as_str() == "/a").count(),
        1
    );
    assert!(root.mount(3, "/a\0").is_err());
    assert!(root.build().len() > 6);
}

#[test]
fn an_apps_root_is_put_together() {
    let spec = Spec {
        store: "/nix/store".to_owned(),
        resolv: "/etc/resolv.conf".to_owned(),
        views: "/run/drv-host".to_owned(),
        gpu: false,
        network: false,
        run: vec![RunEntry { path: "/run/drv".to_owned(), writable: false, what: What::Dir }],
        tmp: "/tmp/a".to_owned(),
        home: "/home/a".to_owned(),
        state: "/var/lib/a".to_owned(),
        closure: vec!["/nix/store/x".to_owned()],
        jit: false,
    };
    let rules = Ruleset::new(6).unwrap().ruleset;
    let acts = format!("{:?}", prepare(&spec, &rules));
    assert!(acts.contains("/nix/store/x"), "{acts}");
    assert!(!acts.contains("dev-gpu"), "{acts}");
    assert_eq!(missing(&vec![true, false, false]), 2);
    assert!(refuses_exec_gain(false) && !refuses_exec_gain(true));
    assert!(enter(false).len() >= enter(true).len());
}

#[test]
fn dropped_for_good_is_dropped_everywhere() {
    let sets = CapSets { effective: 0b110, permitted: 0b111, inheritable: 0b010 };
    let (first, left) = drop_for_good(1, sets);
    assert_eq!(format!("{first:?}"), "DropBounding(1)");
    assert_eq!(left, CapSets { effective: 0b100, permitted: 0b101, inheritable: 0 });
}

#[test]
fn a_process_is_sealed_twice() {
    let list = Allowlist::base(true, 77);
    let rules: Vec<_> = entries(list)
        .into_iter()
        .enumerate()
        .map(|(i, e)| (i as i64, e.rules))
        .collect();
    let (first, second) = filters(&rules, 435, Arch::X86_64).unwrap();
    assert!(first.len() < second.len());
    // The first filter's verdict on its one call is an error with ENOSYS.
    assert!(first.iter().any(|i| i.3 == 0x0005_0000 | 38));
}
