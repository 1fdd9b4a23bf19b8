use drv::init::{state, Step};
use drv::os::approot::{prepare, Act, RunEntry, Spec};
use drv::os::landlock::Ruleset;
use drv::os::path::{
    ancestors_of, below, below_root, comps_of, dirs_above, parent, same_path, under_run,
};
use drv::os::root::{finish, fresh, Build, Root};
use drv::os::sandbox::{Exposed, Sandbox, What};
use drv::os::sandbox_root;
use drv::text::{ctx, join_path, plain_relative};
use std::path::{Component, Path};

/// Every text of up to `len` of these characters.
fn texts(len: usize) -> Vec<String> {
    let mut all = vec![String::new()];
    let mut from = 0;
    for _ in 0..len {
        let to = all.len();
        for i in from..to {
            for c in ['/', '.', 'a'] {
                all.push(format!("{}{c}", all[i]));
            }
        }
        from = to;
    }
    all
}

fn text(path: &Path) -> String {
    path.to_str().unwrap().to_owned()
}

#[test]
fn parents_are_those_of_std() {
    for s in texts(7) {
        let path = Path::new(&s);
        assert_eq!(parent(&s), path.parent().map(text), "{s:?}");
        let mut all: Vec<String> = path.ancestors().map(text).collect();
        all.reverse();
        assert_eq!(ancestors_of(&s), all, "{s:?}");
        all.pop();
        assert_eq!(dirs_above(&s), all, "{s:?}");
    }
}

#[test]
fn components_are_those_of_std() {
    for s in texts(7) {
        let all: Vec<String> = Path::new(&s)
            .components()
            .map(|c| match c {
                Component::RootDir => "/".to_owned(),
                other => other.as_os_str().to_str().unwrap().to_owned(),
            })
            .collect();
        assert_eq!(comps_of(&s), all, "{s:?}");
    }
    let some = texts(4);
    for a in &some {
        for b in &some {
            assert_eq!(same_path(a, b), Path::new(a) == Path::new(b), "{a:?} {b:?}");
            assert_eq!(below(a, b), Path::new(a).starts_with(b), "{a:?} {b:?}");
        }
    }
}

#[test]
fn prefixes_are_stripped_as_in_std() {
    for s in texts(7) {
        let path = Path::new(&s);
        assert_eq!(below_root(&s), text(path.strip_prefix("/").unwrap_or(path)), "{s:?}");
    }
    for lead in ["/run", "//run", "/./run", "/run/", "run", "/runx", "/a/run", "./run", "/"] {
        for tail in texts(5) {
            let s = format!("{lead}{tail}");
            assert_eq!(under_run(&s), Path::new(&s).strip_prefix("/run").ok().map(text), "{s:?}");
        }
    }
}

#[test]
fn plain_paths_are_those_of_std() {
    for s in texts(7) {
        let path = Path::new(&s);
        let plain =
            !path.is_absolute() && path.components().all(|c| matches!(c, Component::Normal(_)));
        assert_eq!(plain_relative(&s), plain, "{s:?}");
    }
    let some = texts(4);
    for a in &some {
        for b in &some {
            assert_eq!(join_path(a, b), text(&Path::new(a).join(b)), "{a:?} {b:?}");
        }
    }
}

#[test]
fn a_trailing_slash_is_no_directory() {
    let steps = state("/h", "a/").unwrap();
    let paths: Vec<String> = steps
        .into_iter()
        .map(|step| match step {
            Step::MakeDirs { path, said } => format!("{path} ({said})"),
            Step::Link { target, link, said } => format!("{link} -> {target} ({said})"),
        })
        .collect();
    assert_eq!(
        paths,
        [
            "/h/.state/a/ (state /h/.state/a/)",
            "/h (/h)",
            "/h/a/ -> /h/.state/a/ (link /h/a/)",
        ]
    );
}

fn lines(root: &Root) -> Vec<String> {
    root.build()
        .into_iter()
        .map(|step| match step {
            Build::Hang { said, .. }
            | Build::Chdir { said, .. }
            | Build::Pivot { said }
            | Build::Mkdir { said, .. }
            | Build::Attach { said, .. }
            | Build::Symlink { said, .. } => said,
            other => panic!("{other:?}"),
        })
        .collect()
}

#[test]
fn a_root_keeps_its_paths_text() {
    let mut root = Root::new("/base".to_owned(), false).unwrap();
    root.mount(1, "/a//b/").unwrap();
    root.mount(2, "/a/b").unwrap();
    root.symlink("/x", "/a/c").unwrap();
    assert_eq!(root.dirs, ["/a", "/a//b/", "/a/b"]);
    assert_eq!(
        lines(&root),
        [
            "root: attach root",
            "root: chdir base",
            "root: pivot_root",
            "root: chdir /",
            "root: mkdir /a",
            "root: mkdir /a//b/",
            "root: mount /a//b/",
            "root: mkdir /a/b",
            "root: mount /a/b",
            "root: symlink /a/c",
        ]
    );
    let left = format!("{:?}", root.unshare());
    assert!(left.contains("root: unshare") && left.contains("root: make private"), "{left}");
    let done = format!("{:?}", finish(fresh().attrs));
    assert!(done.contains("root: detach old root") && done.contains("root: root attrs"), "{done}");
    assert_eq!(fresh().said, "root tmpfs");
    assert_eq!(root.mount(3, "/d//\0").unwrap_err(), "NUL in /d//\0");
}

fn exposed(path: &str, what: What) -> Vec<Exposed> {
    vec![Exposed { path: path.to_owned(), what }]
}

#[test]
fn a_sandbox_keeps_its_paths_text() {
    let mut entries = exposed("/run/a//b/", What::Dir);
    entries.extend(exposed("/run/a/b/c", What::Link("/x".to_owned())));
    let plan = Sandbox::plan(&entries, true, None).unwrap();
    assert_eq!(plan.dirs, ["/dev/shm/.run", "/dev/shm/.run/a", "/dev/shm/.run/a//b"]);
    assert_eq!(plan.binds, [("/run/a//b/".to_owned(), "/dev/shm/.run/a//b".to_owned())]);
    assert_eq!(plan.symlinks, [("/x".to_owned(), "/dev/shm/.run/a/b/c".to_owned())]);
}

fn spec(what: What) -> Spec {
    Spec {
        store: "/nix//store/".to_owned(),
        resolv: "/etc/resolv.conf".to_owned(),
        views: "/run/drv-host".to_owned(),
        gpu: true,
        network: true,
        run: vec![RunEntry { path: "/run/gl".to_owned(), writable: true, what }],
        tmp: "/tmp/a".to_owned(),
        home: "/home/a".to_owned(),
        state: "/var/lib/a".to_owned(),
        closure: Vec::new(),
        jit: false,
    }
}

#[test]
fn a_link_that_cannot_be_read_is_named() {
    let unread = || What::Unread("EIO".to_owned());
    let err = Sandbox::plan(&exposed("/run/gl", unread()), true, None).unwrap_err();
    assert_eq!(err, "readlink /run/gl: EIO");
    let dir = || sandbox_root::HostView { there: true, at: sandbox_root::Fact::Dir };
    let root = sandbox_root::RootSpec {
        store: "/nix/store".to_owned(),
        store_at: sandbox_root::Fact::Dir,
        etc: None,
        resolv: None,
        views: "/run/drv-host".to_owned(),
        dev: dir(),
        dri: dir(),
        sys: dir(),
        gpu: false,
        network: false,
        run_expose: exposed("/run/gl", unread()),
        tmp: "/tmp/a".to_owned(),
        tmp_at: sandbox_root::Fact::Dir,
        home: "/home/a".to_owned(),
        home_at: sandbox_root::Fact::Dir,
    };
    assert_eq!(sandbox_root::Root::plan(&root).unwrap_err(), "readlink /run/gl: EIO");
    let rules = Ruleset::new(6).unwrap().ruleset;
    let acts = prepare(&spec(unread()), &rules);
    assert!(matches!(acts.last(), Some(Act::Fail(e)) if e == "EIO"));
}

#[test]
fn what_cannot_be_had_is_named() {
    let rules = Ruleset::new(6).unwrap().ruleset;
    let acts = prepare(&spec(What::Dir), &rules);
    let said: Vec<String> = acts
        .iter()
        .filter_map(|act| match act {
            Act::New { said, .. } | Act::Bind { said, .. } | Act::Mount { said, .. } => {
                Some(ctx(said.as_deref(), "EIO"))
            }
            _ => None,
        })
        .collect();
    assert_eq!(
        said,
        [
            "root tmpfs: EIO",
            "store: EIO",
            "host view dev (drv-host-views not run?): EIO",
            "host view dev-gpu/dri (drv-host-views not run?): EIO",
            "EIO",
            "host view sys-gpu (drv-host-views not run?): EIO",
            "proc: EIO",
            "resolv.conf: EIO",
            "etc tmpfs: EIO",
            "home tmpfs: EIO",
            "state: EIO",
            "tmp: EIO",
            "run entry /run/gl: EIO",
        ]
    );
    let made: Vec<&str> = acts
        .iter()
        .filter_map(|act| match act {
            Act::Mkdir { at, .. } => Some(at.as_str()),
            _ => None,
        })
        .collect();
    assert_eq!(made[..2], ["nix", "nix/store"]);
    assert!(acts.iter().any(|a| matches!(a, Act::Bind { at, .. } if at == "nix//store")));
}
