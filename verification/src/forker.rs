//! drv-appd's privileged helper, as plans: the handles taken on the host, what a request makes
//! of the new root, the switch, and the command. Each step is one privileged act; the plan says
//! which acts, in which order, and what is refused.
use vstd::prelude::*;
use vstd::string::*;

use crate::os::fds::{given_names, good_name, handoff, handoff_env, name_fault};
use crate::os::mounts::{dev_fs, dev_view, ro, ro_noexec, rw_noexec, Attrs};
use crate::policy::forker::Launch;
use crate::text::{
    chars_of, copied, ctx, cut, decimal, decimal_int, find_char, is_plain_relative, join_path, number,
    number_int, parse_u32, path_under, pieces, plain_relative, quote, quoted, same_text, split,
    split_once, string_of, u32_fault, unsigned, with_context,
};
use crate::views::{group_views, kept, lemma_kept_step, view_opt, views};

verus! {

/// The app's persistent directory, the one mount made for its UID.
pub const STATE: &'static str = "/state";

/// Where the person's folders an app is given go, one idmapped bind each.
pub const FILES: &'static str = "/files";

/// The root tmpfs's size.
pub const ROOT_SIZE: &'static str = "1g";

/// Where things are on this host.
#[derive(Debug)]
pub struct Args {
    /// A directory to hang an app's new root on for the moment the pivot takes.
    pub base: String,
    /// Per-UID state parent: `<state-base>/<uid>` is the app's `/state`.
    pub state_base: String,
    /// The store: the only executable thing in an app's root.
    pub store: String,
    /// The doors: every socket an app may reach and the documents mount.
    pub run: String,
    /// The nix daemon's socket directory.
    pub daemon_socket: String,
    /// The host's generated views of itself.
    pub host_views: String,
    /// The host's resolv.conf.
    pub resolv: String,
    /// The person's files.
    pub folders_base: String,
}

/// The UIDs apps may run as, and where things are.
#[derive(Debug)]
pub struct Forker {
    pub start: u32,
    pub count: u32,
    pub args: Args,
}

/// A detached mount that a step made.
#[derive(Clone, Copy, Debug, PartialEq, Eq, Structural)]
pub enum Tree {
    Store,
    Dev,
    Dri,
    Sys,
    SysGpu,
    Run,
    DaemonSocket,
    State,
    Folder(usize),
}

/// Which of the host's trees that may be missing are there.
#[derive(Clone, Copy, Debug, PartialEq, Eq, Structural)]
pub struct Found {
    pub dri: bool,
    pub sys_gpu: bool,
    pub daemon_socket: bool,
}

/// One act of the child. `T` is text, `L` a list of filesystem options.
#[derive(Debug)]
pub enum Step<T, L> {
    /// A handle on the host's network namespace.
    HoldNetwork,
    /// A handle on the apps' cgroup, our cgroup's sibling `apps`.
    HoldAppsCgroup,
    /// A detached clone of what is at `path` (and beneath); a missing one ends the child only
    /// where it is `needed`.
    Clone { tree: Tree, path: T, attrs: Attrs, needed: bool },
    /// The top of the clone of `path` given `attrs`, the mounts inside it left as they are.
    SetTop { tree: Tree, path: T, attrs: Attrs },
    /// The resolver, open for reading, if it is there.
    HoldResolv { path: T },
    /// A user namespace in which the owner of `base` is the app.
    MapOwner { base: T, uid: u32 },
    /// The clone of a folder shown through that mapping.
    IdMap { tree: Tree, name: T },
    LockSecurebits,
    EmptyBoundingSet,
    DropSetpcap,
    NoNewPrivs,
    /// A mount and a network namespace of our own.
    Unshare,
    /// A handle on the state directories' parent.
    HoldState { path: T },
    /// Back into the host's network.
    RejoinNetwork,
    ReleaseNetwork,
    /// A fresh tmpfs with `options` made the root.
    Pivot { base: T, options: L },
    /// Act as the app's UID, keeping the capabilities.
    ActAs { uid: u32 },
    Mount { tree: Tree, at: T },
    /// A new filesystem instance, `said` to be this where it cannot be had.
    MountNew { fs: T, options: L, attrs: Attrs, at: T, said: T },
    /// A clone of the app's own directory below the handle on its parent.
    CloneState { name: T, attrs: Attrs },
    ActAsSelf,
    ReleaseState,
    /// The old root detached, the top of the new one given `attrs`.
    Finish { attrs: Attrs },
    /// The app's cgroup, made if it is not there, and entered.
    EnterCgroup { name: T },
    UnshareCgroup,
    /// The UID and the group of the same number, no other group, no capability.
    Switch { uid: u32 },
    /// The child ends with this error.
    Fail(T),
}

pub type Options = Vec<(String, String)>;

pub type OptionsView = Seq<(Seq<char>, Seq<char>)>;

pub type StepView = Step<Seq<char>, OptionsView>;

impl View for Step<String, Options> {
    type V = StepView;

    open spec fn view(&self) -> StepView {
        match *self {
            Step::HoldNetwork => Step::HoldNetwork,
            Step::HoldAppsCgroup => Step::HoldAppsCgroup,
            Step::Clone { tree, path, attrs, needed } => Step::Clone {
                tree,
                path: path@,
                attrs,
                needed,
            },
            Step::SetTop { tree, path, attrs } => Step::SetTop { tree, path: path@, attrs },
            Step::HoldResolv { path } => Step::HoldResolv { path: path@ },
            Step::MapOwner { base, uid } => Step::MapOwner { base: base@, uid },
            Step::IdMap { tree, name } => Step::IdMap { tree, name: name@ },
            Step::LockSecurebits => Step::LockSecurebits,
            Step::EmptyBoundingSet => Step::EmptyBoundingSet,
            Step::DropSetpcap => Step::DropSetpcap,
            Step::NoNewPrivs => Step::NoNewPrivs,
            Step::Unshare => Step::Unshare,
            Step::HoldState { path } => Step::HoldState { path: path@ },
            Step::RejoinNetwork => Step::RejoinNetwork,
            Step::ReleaseNetwork => Step::ReleaseNetwork,
            Step::Pivot { base, options } => Step::Pivot {
                base: base@,
                options: views(options@),
            },
            Step::ActAs { uid } => Step::ActAs { uid },
            Step::Mount { tree, at } => Step::Mount { tree, at: at@ },
            Step::MountNew { fs, options, attrs, at, said } => Step::MountNew {
                fs: fs@,
                options: views(options@),
                attrs,
                at: at@,
                said: said@,
            },
            Step::CloneState { name, attrs } => Step::CloneState { name: name@, attrs },
            Step::ActAsSelf => Step::ActAsSelf,
            Step::ReleaseState => Step::ReleaseState,
            Step::Finish { attrs } => Step::Finish { attrs },
            Step::EnterCgroup { name } => Step::EnterCgroup { name: name@ },
            Step::UnshareCgroup => Step::UnshareCgroup,
            Step::Switch { uid } => Step::Switch { uid },
            Step::Fail(text) => Step::Fail(text@),
        }
    }
}

/// A UID of the range.
pub open spec fn in_range(start: u32, count: u32, uid: u32) -> bool {
    start <= uid < start + count
}

/// The handles taken on the host, before anything of the request is looked at.
pub open spec fn handle_steps(args: Args) -> Seq<StepView> {
    seq![
        Step::HoldNetwork,
        Step::HoldAppsCgroup,
        Step::Clone { tree: Tree::Store, path: args.store@, attrs: ro(), needed: true },
        Step::Clone {
            tree: Tree::Dev,
            path: path_under(args.host_views@, "dev"@),
            attrs: dev_view(),
            needed: true,
        },
        Step::Clone {
            tree: Tree::Dri,
            path: path_under(args.host_views@, "dev-gpu/dri"@),
            attrs: dev_view(),
            needed: false,
        },
        Step::Clone {
            tree: Tree::Sys,
            path: path_under(args.host_views@, "sys"@),
            attrs: ro_noexec(),
            needed: true,
        },
        Step::Clone {
            tree: Tree::SysGpu,
            path: path_under(args.host_views@, "sys-gpu"@),
            attrs: ro_noexec(),
            needed: false,
        },
        Step::Clone { tree: Tree::Run, path: args.run@, attrs: rw_noexec(), needed: true },
        Step::SetTop { tree: Tree::Run, path: args.run@, attrs: ro_noexec() },
        Step::Clone {
            tree: Tree::DaemonSocket,
            path: args.daemon_socket@,
            attrs: ro_noexec(),
            needed: false,
        },
        Step::HoldResolv { path: args.resolv@ },
    ]
}

/// The error for a folder that could lead out of the person's files.
pub open spec fn bad_folder(name: Seq<char>) -> Seq<char> {
    "folder "@ + quoted(name) + ": not a plain relative path"@
}

/// The clones of the first folders of a request, up to the first that is refused.
pub open spec fn folder_steps(base: Seq<char>, names: Seq<Seq<char>>) -> Seq<StepView>
    decreases names.len(),
{
    if names.len() == 0 {
        Seq::empty()
    } else {
        let before = folder_steps(base, names.drop_last());
        let n = (names.len() - 1) as usize;
        if !all_plain(names.drop_last()) {
            before
        } else if !is_plain_relative(names.last()) {
            before.push(Step::Fail(bad_folder(names.last())))
        } else {
            before.push(
                Step::Clone {
                    tree: Tree::Folder(n),
                    path: path_under(base, names.last()),
                    attrs: rw_noexec(),
                    needed: true,
                },
            ).push(Step::IdMap { tree: Tree::Folder(n), name: names.last() })
        }
    }
}

/// Folders that stay below the person's files.
pub open spec fn all_plain(names: Seq<Seq<char>>) -> bool {
    forall|i: int| 0 <= i < names.len() ==> is_plain_relative(#[trigger] names[i])
}

/// The privilege given up and the namespaces taken, before the root.
pub open spec fn unshare_steps(args: Args, network: bool) -> Seq<StepView> {
    let isolated: Seq<StepView> = seq![
        Step::LockSecurebits,
        Step::EmptyBoundingSet,
        Step::DropSetpcap,
        Step::NoNewPrivs,
        Step::Unshare,
        Step::HoldState { path: args.state_base@ },
    ];
    if network {
        isolated.push(Step::RejoinNetwork)
    } else {
        isolated
    }
}

/// The root, and the mounts every app has.
pub open spec fn root_steps(args: Args, uid: u32) -> Seq<StepView> {
    let id = decimal(uid as nat);
    seq![
        Step::ReleaseNetwork,
        Step::Pivot {
            base: args.base@,
            options: seq![("uid"@, id), ("gid"@, id), ("size"@, ROOT_SIZE@)],
        },
        Step::ActAs { uid },
        Step::Mount { tree: Tree::Store, at: args.store@ },
        Step::Mount { tree: Tree::Dev, at: "/dev"@ },
        Step::MountNew {
            fs: "tmpfs"@,
            options: seq![("mode"@, "1777"@), ("uid"@, id), ("gid"@, id)],
            attrs: rw_noexec(),
            at: "/dev/shm"@,
            said: "shm"@,
        },
        Step::MountNew {
            fs: "devpts"@,
            options: seq![("ptmxmode"@, "0666"@)],
            attrs: dev_fs(),
            at: "/dev/pts"@,
            said: "pts"@,
        },
        Step::MountNew {
            fs: "proc"@,
            options: seq![("hidepid"@, "invisible"@), ("subset"@, "pid"@)],
            attrs: rw_noexec(),
            at: "/proc"@,
            said: "proc"@,
        },
    ]
}

/// What the mounts that depend on the manifest lack on this host, if anything, and the mounts
/// made before that is noticed.
pub open spec fn manifest_steps(args: Args, launch: Launch, found: Found) -> (
    Seq<StepView>,
    Option<Seq<char>>,
) {
    let none = Seq::<StepView>::empty();
    if launch.gpu && !found.dri {
        (none, Some("no render node view (no GPU on this host?)"@))
    } else {
        let dri = none.push(Step::Mount { tree: Tree::Dri, at: "/dev/dri"@ });
        if launch.gpu && !found.sys_gpu {
            (dri, Some("no sys-gpu view"@))
        } else {
            let sys = if launch.gpu {
                dri.push(Step::Mount { tree: Tree::SysGpu, at: "/sys"@ })
            } else {
                none.push(Step::Mount { tree: Tree::Sys, at: "/sys"@ })
            };
            let run = sys.push(Step::Mount { tree: Tree::Run, at: args.run@ });
            if launch.nix && !found.daemon_socket {
                (run, Some("no nix daemon socket directory on this host"@))
            } else if launch.nix {
                (
                    run.push(Step::Mount { tree: Tree::DaemonSocket, at: args.daemon_socket@ }),
                    None,
                )
            } else {
                (run, None)
            }
        }
    }
}

/// Where the folders are mounted.
pub open spec fn folder_mounts(names: Seq<Seq<char>>) -> Seq<StepView> {
    Seq::new(
        names.len(),
        |i: int|
            Step::Mount { tree: Tree::Folder(i as usize), at: FILES@ + "/"@ + names[i] },
    )
}

/// The app's own state, and the folders it was given.
pub open spec fn own_mounts(launch: Launch) -> Seq<StepView> {
    let state: Seq<StepView> = seq![
        Step::CloneState { name: decimal(launch.uid as nat), attrs: rw_noexec() },
        Step::Mount { tree: Tree::State, at: STATE@ },
    ];
    state + folder_mounts(views(launch.folders@))
}

/// What closes the root, and the switch to the app.
pub open spec fn closing_steps(uid: u32) -> Seq<StepView> {
    seq![
        Step::ActAsSelf,
        Step::ReleaseState,
        Step::Finish { attrs: rw_noexec() },
        Step::EnterCgroup { name: "app-"@ + decimal(uid as nat) },
        Step::UnshareCgroup,
        Step::Switch { uid },
    ]
}

/// What is done before the folders are looked at.
pub open spec fn owner_steps(args: Args, launch: Launch) -> Seq<StepView> {
    if launch.folders@.len() == 0 {
        Seq::empty()
    } else {
        seq![Step::MapOwner { base: args.folders_base@, uid: launch.uid }]
    }
}

/// Everything from the request to the switch.
pub open spec fn launch_steps(forker: Forker, launch: Launch, found: Found) -> Seq<StepView> {
    let args = forker.args;
    let names = views(launch.folders@);
    if !in_range(forker.start, forker.count, launch.uid) {
        seq![Step::Fail("uid "@ + decimal(launch.uid as nat) + " is outside the app range"@)]
    } else if launch.argv@.len() == 0 {
        seq![Step::Fail("empty argv"@)]
    } else {
        let folders = owner_steps(args, launch) + folder_steps(args.folders_base@, names);
        if !all_plain(names) {
            folders
        } else {
            let (mounts, lacking) = manifest_steps(args, launch, found);
            let root = folders + unshare_steps(args, launch.network) + root_steps(args, launch.uid)
                + mounts;
            match lacking {
                Some(text) => root.push(Step::ActAsSelf).push(Step::Fail(text)),
                None => root + own_mounts(launch) + closing_steps(launch.uid),
            }
        }
    }
}

fn option(k: &str, v: &str) -> (r: (String, String))
    ensures
        r@ == (k@, v@),
{
    (k.to_owned(), v.to_owned())
}

fn push_all(steps: &mut Vec<Step<String, Options>>, more: Vec<Step<String, Options>>)
    ensures
        final(steps)@ == old(steps)@ + more@,
{
    let mut more = more;
    steps.append(&mut more);
}

impl Forker {
    /// Whether an app may run as `uid`.
    pub fn covers(&self, uid: u32) -> (r: bool)
        ensures
            r == in_range(self.start, self.count, uid),
    {
        self.start <= uid && (uid as u64) < self.start as u64 + self.count as u64
    }

    /// The handles on everything of the host's that the child will need.
    pub fn handles(&self) -> (r: Vec<Step<String, Options>>)
        ensures
            views(r@) == handle_steps(self.args),
    {
        broadcast use group_views;

        let a = &self.args;
        let mut steps: Vec<Step<String, Options>> = Vec::new();
        steps.push(Step::HoldNetwork);
        steps.push(Step::HoldAppsCgroup);
        steps.push(
            Step::Clone { tree: Tree::Store, path: a.store.clone(), attrs: ro(), needed: true },
        );
        steps.push(
            Step::Clone {
                tree: Tree::Dev,
                path: join_path(a.host_views.as_str(), "dev"),
                attrs: dev_view(),
                needed: true,
            },
        );
        steps.push(
            Step::Clone {
                tree: Tree::Dri,
                path: join_path(a.host_views.as_str(), "dev-gpu/dri"),
                attrs: dev_view(),
                needed: false,
            },
        );
        steps.push(
            Step::Clone {
                tree: Tree::Sys,
                path: join_path(a.host_views.as_str(), "sys"),
                attrs: ro_noexec(),
                needed: true,
            },
        );
        steps.push(
            Step::Clone {
                tree: Tree::SysGpu,
                path: join_path(a.host_views.as_str(), "sys-gpu"),
                attrs: ro_noexec(),
                needed: false,
            },
        );
        steps.push(
            Step::Clone { tree: Tree::Run, path: a.run.clone(), attrs: rw_noexec(), needed: true },
        );
        steps.push(
            Step::SetTop { tree: Tree::Run, path: self.args.run.clone(), attrs: ro_noexec() },
        );
        steps.push(
            Step::Clone {
                tree: Tree::DaemonSocket,
                path: a.daemon_socket.clone(),
                attrs: ro_noexec(),
                needed: false,
            },
        );
        steps.push(Step::HoldResolv { path: a.resolv.clone() });
        assert(views(steps@) =~= handle_steps(self.args));
        steps
    }

    /// The clones of the folders, and whether all of them are taken.
    fn folders(&self, names: &Vec<String>) -> (r: (Vec<Step<String, Options>>, bool))
        ensures
            views(r.0@) == folder_steps(self.args.folders_base@, views(names@)),
            r.1 == all_plain(views(names@)),
    {
        broadcast use group_views;

        let ghost all = views(names@);
        let mut steps: Vec<Step<String, Options>> = Vec::new();
        let mut i: usize = 0;
        while i < names.len()
            invariant
                i <= names@.len(),
                all == views(names@),
                all_plain(all.take(i as int)),
                views(steps@) == folder_steps(self.args.folders_base@, all.take(i as int)),
            decreases names@.len() - i,
        {
            let ghost so_far = all.take(i + 1);
            assert(so_far.drop_last() =~= all.take(i as int));
            assert(so_far.last() == names@[i as int]@);
            let name = names[i].as_str();
            if !plain_relative(name) {
                let mut text = "folder ".to_owned();
                text.append(quote(name).as_str());
                text.append(": not a plain relative path");
                steps.push(Step::Fail(text));
                assert(!is_plain_relative(all[i as int]));
                proof {
                    lemma_folder_steps_stop(self.args.folders_base@, all, i as int);
                }
                return (steps, false);
            }
            steps.push(
                Step::Clone {
                    tree: Tree::Folder(i),
                    path: join_path(self.args.folders_base.as_str(), name),
                    attrs: rw_noexec(),
                    needed: true,
                },
            );
            steps.push(Step::IdMap { tree: Tree::Folder(i), name: name.to_owned() });
            assert forall|j: int| 0 <= j < so_far.len() implies is_plain_relative(
                #[trigger] so_far[j],
            ) by {
                if j < i {
                    assert(so_far[j] == all.take(i as int)[j]);
                }
            }
            i = i + 1;
        }
        assert(all.take(i as int) =~= all);
        (steps, true)
    }

    /// The privilege given up and the namespaces taken.
    fn unshared(&self, network: bool) -> (r: Vec<Step<String, Options>>)
        ensures
            views(r@) == unshare_steps(self.args, network),
    {
        broadcast use group_views;

        let mut steps: Vec<Step<String, Options>> = Vec::new();
        steps.push(Step::LockSecurebits);
        steps.push(Step::EmptyBoundingSet);
        steps.push(Step::DropSetpcap);
        steps.push(Step::NoNewPrivs);
        steps.push(Step::Unshare);
        steps.push(Step::HoldState { path: self.args.state_base.clone() });
        if network {
            steps.push(Step::RejoinNetwork);
        }
        assert(views(steps@) =~= unshare_steps(self.args, network));
        steps
    }

    /// The root and the mounts every app has.
    fn root(&self, uid: u32) -> (r: Vec<Step<String, Options>>)
        ensures
            views(r@) == root_steps(self.args, uid),
    {
        broadcast use group_views;

        let ghost id = decimal(uid as nat);
        let uid_s = number(uid as u64);
        let mut steps: Vec<Step<String, Options>> = Vec::new();
        steps.push(Step::ReleaseNetwork);
        let owned: Options = vec![
            option("uid", uid_s.as_str()),
            option("gid", uid_s.as_str()),
            option("size", ROOT_SIZE),
        ];
        assert(views(owned@) =~= seq![("uid"@, id), ("gid"@, id), ("size"@, ROOT_SIZE@)]);
        steps.push(Step::Pivot { base: self.args.base.clone(), options: owned });
        steps.push(Step::ActAs { uid });
        steps.push(Step::Mount { tree: Tree::Store, at: self.args.store.clone() });
        steps.push(Step::Mount { tree: Tree::Dev, at: "/dev".to_owned() });
        let shm: Options = vec![
            option("mode", "1777"),
            option("uid", uid_s.as_str()),
            option("gid", uid_s.as_str()),
        ];
        assert(views(shm@) =~= seq![("mode"@, "1777"@), ("uid"@, id), ("gid"@, id)]);
        steps.push(
            Step::MountNew {
                fs: "tmpfs".to_owned(),
                options: shm,
                attrs: rw_noexec(),
                at: "/dev/shm".to_owned(),
                said: "shm".to_owned(),
            },
        );
        let pts: Options = vec![option("ptmxmode", "0666")];
        assert(views(pts@) =~= seq![("ptmxmode"@, "0666"@)]);
        steps.push(
            Step::MountNew {
                fs: "devpts".to_owned(),
                options: pts,
                attrs: dev_fs(),
                at: "/dev/pts".to_owned(),
                said: "pts".to_owned(),
            },
        );
        let proc_options: Options = vec![option("hidepid", "invisible"), option("subset", "pid")];
        assert(views(proc_options@) =~= seq![("hidepid"@, "invisible"@), ("subset"@, "pid"@)]);
        steps.push(
            Step::MountNew {
                fs: "proc".to_owned(),
                options: proc_options,
                attrs: rw_noexec(),
                at: "/proc".to_owned(),
                said: "proc".to_owned(),
            },
        );
        assert(views(steps@) =~= root_steps(self.args, uid));
        steps
    }

    /// The mounts that depend on the manifest, and what this host lacks for them.
    fn by_manifest(&self, launch: &Launch, found: Found) -> (r: (
        Vec<Step<String, Options>>,
        Option<String>,
    ))
        ensures
            (views(r.0@), view_opt(r.1)) == manifest_steps(self.args, *launch, found),
    {
        broadcast use group_views;

        let mut steps: Vec<Step<String, Options>> = Vec::new();
        if launch.gpu {
            if !found.dri {
                return (steps, Some("no render node view (no GPU on this host?)".to_owned()));
            }
            steps.push(Step::Mount { tree: Tree::Dri, at: "/dev/dri".to_owned() });
            if !found.sys_gpu {
                return (steps, Some("no sys-gpu view".to_owned()));
            }
            steps.push(Step::Mount { tree: Tree::SysGpu, at: "/sys".to_owned() });
        } else {
            steps.push(Step::Mount { tree: Tree::Sys, at: "/sys".to_owned() });
        }
        steps.push(Step::Mount { tree: Tree::Run, at: self.args.run.clone() });
        if launch.nix {
            if !found.daemon_socket {
                return (steps, Some("no nix daemon socket directory on this host".to_owned()));
            }
            steps.push(
                Step::Mount { tree: Tree::DaemonSocket, at: self.args.daemon_socket.clone() },
            );
        }
        (steps, None)
    }

    /// The app's own state, and the folders it was given.
    fn own(&self, launch: &Launch) -> (r: Vec<Step<String, Options>>)
        ensures
            views(r@) == own_mounts(*launch),
    {
        broadcast use group_views;

        let ghost names = views(launch.folders@);
        let mut steps: Vec<Step<String, Options>> = Vec::new();
        steps.push(Step::CloneState { name: number(launch.uid as u64), attrs: rw_noexec() });
        steps.push(Step::Mount { tree: Tree::State, at: STATE.to_owned() });
        let ghost state = views(steps@);
        assert(state + folder_mounts(names.take(0)) =~= state);
        let mut i: usize = 0;
        while i < launch.folders.len()
            invariant
                i <= launch.folders@.len(),
                names == views(launch.folders@),
                views(steps@) == state + folder_mounts(names.take(i as int)),
            decreases launch.folders@.len() - i,
        {
            let mut at = FILES.to_owned();
            at.append("/");
            at.append(launch.folders[i].as_str());
            let ghost step: StepView = Step::Mount {
                tree: Tree::Folder(i),
                at: FILES@ + "/"@ + names[i as int],
            };
            steps.push(Step::Mount { tree: Tree::Folder(i), at });
            assert(steps@.last()@ == step);
            assert(folder_mounts(names.take(i + 1)) =~= folder_mounts(names.take(i as int)).push(
                step,
            ));
            assert(views(steps@) == (state + folder_mounts(names.take(i as int))).push(step));
            assert((state + folder_mounts(names.take(i as int))).push(step) =~= state
                + folder_mounts(names.take(i as int)).push(step));
            i = i + 1;
        }
        assert(names.take(i as int) =~= names);
        assert(views(steps@) =~= own_mounts(*launch));
        steps
    }

    /// What closes the root, and the switch.
    fn closing(&self, uid: u32) -> (r: Vec<Step<String, Options>>)
        ensures
            views(r@) == closing_steps(uid),
    {
        broadcast use group_views;

        let mut steps: Vec<Step<String, Options>> = Vec::new();
        steps.push(Step::ActAsSelf);
        steps.push(Step::ReleaseState);
        steps.push(Step::Finish { attrs: rw_noexec() });
        let mut name = "app-".to_owned();
        name.append(number(uid as u64).as_str());
        steps.push(Step::EnterCgroup { name });
        steps.push(Step::UnshareCgroup);
        steps.push(Step::Switch { uid });
        assert(views(steps@) =~= closing_steps(uid));
        steps
    }

    /// The child from the request to the switch: what is checked, mounted and given up, in
    /// order. `found` is what of the host's optional trees could be cloned.
    pub fn child(&self, launch: &Launch, found: Found) -> (r: Vec<Step<String, Options>>)
        ensures
            views(r@) == launch_steps(*self, *launch, found),
    {
        broadcast use group_views;

        let mut steps: Vec<Step<String, Options>> = Vec::new();
        if !self.covers(launch.uid) {
            let mut text = "uid ".to_owned();
            text.append(number(launch.uid as u64).as_str());
            text.append(" is outside the app range");
            steps.push(Step::Fail(text));
            assert(views(steps@) =~= launch_steps(*self, *launch, found));
            return steps;
        }
        if launch.argv.len() == 0 {
            steps.push(Step::Fail("empty argv".to_owned()));
            assert(views(steps@) =~= launch_steps(*self, *launch, found));
            return steps;
        }
        if launch.folders.len() != 0 {
            steps.push(
                Step::MapOwner { base: self.args.folders_base.clone(), uid: launch.uid },
            );
        }
        assert(views(steps@) =~= owner_steps(self.args, *launch));
        let (clones, plain) = self.folders(&launch.folders);
        push_all(&mut steps, clones);
        if !plain {
            return steps;
        }
        push_all(&mut steps, self.unshared(launch.network));
        push_all(&mut steps, self.root(launch.uid));
        let (mounts, lacking) = self.by_manifest(launch, found);
        push_all(&mut steps, mounts);
        match lacking {
            Some(text) => {
                steps.push(Step::ActAsSelf);
                steps.push(Step::Fail(text));
            },
            None => {
                push_all(&mut steps, self.own(launch));
                push_all(&mut steps, self.closing(launch.uid));
            },
        }
        steps
    }
}

/// The child acts as the app's UID once the first `n` steps are done.
pub open spec fn acts_as_app(steps: Seq<StepView>, n: int) -> bool
    decreases n,
{
    if n <= 0 {
        false
    } else if steps[n - 1] is ActAs {
        true
    } else if steps[n - 1] is ActAsSelf {
        false
    } else {
        acts_as_app(steps, n - 1)
    }
}

/// Whether the child goes back to its own UID before it ends with the failure of a step; where
/// it cannot, it ends with that instead.
pub fn goes_back(steps: &Vec<Step<String, Options>>, failed: usize) -> (r: bool)
    requires
        failed < steps@.len(),
    ensures
        r == (acts_as_app(views(steps@), failed as int) && !(steps@[failed as int] is ActAsSelf)),
{
    broadcast use group_views;

    if let Step::ActAsSelf = steps[failed] {
        return false;
    }
    let ghost all = views(steps@);
    let mut n: usize = failed;
    while n > 0
        invariant
            n <= failed < steps@.len(),
            all == views(steps@),
            acts_as_app(all, n as int) == acts_as_app(all, failed as int),
            !(steps@[failed as int] is ActAsSelf),
        decreases n,
    {
        assert(all[n - 1] == steps@[n - 1]@);
        match &steps[n - 1] {
            Step::ActAs { .. } => return true,
            Step::ActAsSelf => return false,
            _ => {},
        }
        n = n - 1;
    }
    false
}

/// Where in a step something failed.
#[derive(Clone, Copy, Debug, PartialEq, Eq, Structural)]
pub enum Part {
    /// In what the step is for.
    Main,
    /// Finding the owner of a directory.
    Owner,
    /// Making the directory a mount goes on, or a cgroup.
    Dir,
    /// Attaching a mount.
    Attach,
    /// Entering a cgroup.
    Procs,
}

/// What is said of a failure in front of the error; nothing where the error names itself.
pub open spec fn blamed(step: StepView, part: Part) -> Option<Seq<char>> {
    match step {
        Step::HoldNetwork => Some("/proc/self/ns/net"@),
        Step::Clone { path, .. } => Some(path),
        Step::SetTop { path, .. } => Some(path),
        Step::MapOwner { base, .. } => if part == Part::Owner {
            Some(base)
        } else {
            Some("folders' user namespace"@)
        },
        Step::IdMap { name, .. } => Some("folder "@ + quoted(name) + ": idmap"@),
        Step::NoNewPrivs => Some("no_new_privs"@),
        Step::RejoinNetwork => Some("rejoin the network"@),
        Step::ActAs { uid } => Some("euid "@ + decimal(uid as nat)),
        Step::ActAsSelf => Some("euid back"@),
        Step::Mount { at, .. } => Some(mount_blamed(at, part)),
        Step::MountNew { at, said, .. } => if part == Part::Main {
            Some(said)
        } else {
            Some(mount_blamed(at, part))
        },
        Step::CloneState { name, .. } => Some("state/"@ + name),
        Step::EnterCgroup { .. } => if part == Part::Procs {
            Some("cgroup.procs"@)
        } else {
            Some("cgroup"@)
        },
        Step::UnshareCgroup => Some("cgroup namespace"@),
        _ => None,
    }
}

/// What is said of a mount that failed.
pub open spec fn mount_blamed(at: Seq<char>, part: Part) -> Seq<char> {
    if part == Part::Dir {
        "mkdir "@ + at
    } else {
        "mount "@ + at
    }
}

fn text2(a: &str, b: &str) -> (r: String)
    ensures
        r@ == a@ + b@,
{
    let mut text = a.to_owned();
    text.append(b);
    text
}

fn blame_mount(at: &str, part: Part) -> (r: String)
    ensures
        r@ == mount_blamed(at@, part),
{
    if part == Part::Dir {
        text2("mkdir ", at)
    } else {
        text2("mount ", at)
    }
}

fn blame(step: &Step<String, Options>, part: Part) -> (r: Option<String>)
    ensures
        view_opt(r) == blamed(step@, part),
{
    match step {
        Step::HoldNetwork => Some("/proc/self/ns/net".to_owned()),
        Step::Clone { path, .. } => Some(path.clone()),
        Step::SetTop { path, .. } => Some(path.clone()),
        Step::MapOwner { base, .. } => if part == Part::Owner {
            Some(base.clone())
        } else {
            Some("folders' user namespace".to_owned())
        },
        Step::IdMap { name, .. } => {
            let mut text = text2("folder ", quote(name.as_str()).as_str());
            text.append(": idmap");
            Some(text)
        },
        Step::NoNewPrivs => Some("no_new_privs".to_owned()),
        Step::RejoinNetwork => Some("rejoin the network".to_owned()),
        Step::ActAs { uid } => Some(text2("euid ", number(*uid as u64).as_str())),
        Step::ActAsSelf => Some("euid back".to_owned()),
        Step::Mount { at, .. } => Some(blame_mount(at.as_str(), part)),
        Step::MountNew { at, said, .. } => if part == Part::Main {
            Some(said.clone())
        } else {
            Some(blame_mount(at.as_str(), part))
        },
        Step::CloneState { name, .. } => Some(text2("state/", name.as_str())),
        Step::EnterCgroup { .. } => if part == Part::Procs {
            Some("cgroup.procs".to_owned())
        } else {
            Some("cgroup".to_owned())
        },
        Step::UnshareCgroup => Some("cgroup namespace".to_owned()),
        _ => None,
    }
}

/// The error that a failed step ends the child with.
pub fn fault(step: &Step<String, Options>, part: Part, err: &str) -> (r: String)
    ensures
        r@ == with_context(blamed(step@, part), err@),
{
    match blame(step, part) {
        Some(what) => ctx(Some(what.as_str()), err),
        None => ctx(None, err),
    }
}

proof fn lemma_folder_steps_stop(base: Seq<char>, names: Seq<Seq<char>>, i: int)
    requires
        0 <= i < names.len(),
        all_plain(names.take(i)),
        !is_plain_relative(names[i]),
    ensures
        !all_plain(names),
        folder_steps(base, names) == folder_steps(base, names.take(i)).push(
            Step::Fail(bad_folder(names[i])),
        ),
    decreases names.len(),
{
    let front = names.drop_last();
    if i == names.len() - 1 {
        assert(front =~= names.take(i));
    } else {
        assert(front.take(i) =~= names.take(i));
        assert(front[i] == names[i]);
        lemma_folder_steps_stop(base, front, i);
    }
}

/// A mount that no set-id program and, but for the store, no program at all runs from.
pub open spec fn confined(step: StepView) -> bool {
    match step {
        Step::Clone { tree, attrs, .. } => attrs.nosuid && (attrs.noexec || tree == Tree::Store),
        Step::SetTop { attrs, .. } => attrs.nosuid && attrs.noexec,
        Step::MountNew { attrs, .. } => attrs.nosuid && attrs.noexec,
        Step::CloneState { attrs, .. } => attrs.nosuid && attrs.noexec,
        Step::Finish { attrs } => attrs.nosuid && attrs.noexec,
        _ => true,
    }
}

/// Every step is confined.
pub open spec fn all_confined(steps: Seq<StepView>) -> bool {
    forall|i: int| 0 <= i < steps.len() ==> confined(#[trigger] steps[i])
}

proof fn lemma_folders_confined(base: Seq<char>, names: Seq<Seq<char>>)
    ensures
        all_confined(folder_steps(base, names)),
    decreases names.len(),
{
    if names.len() > 0 {
        lemma_folders_confined(base, names.drop_last());
    }
}

/// Nothing in an app's root runs with another's identity, and nothing runs at all but what the
/// store holds.
pub proof fn only_the_store_runs(forker: Forker, launch: Launch, found: Found)
    ensures
        all_confined(handle_steps(forker.args)),
        all_confined(launch_steps(forker, launch, found)),
{
    let args = forker.args;
    let names = views(launch.folders@);
    lemma_folders_confined(args.folders_base@, names);
    let folders = owner_steps(args, launch) + folder_steps(args.folders_base@, names);
    assert(all_confined(folders));
    assert(all_confined(unshare_steps(args, launch.network)));
    assert(all_confined(root_steps(args, launch.uid)));
    assert(all_confined(manifest_steps(args, launch, found).0));
    assert(all_confined(own_mounts(launch)));
    assert(all_confined(closing_steps(launch.uid)));
}

/// A step that takes something from the host by its path.
pub open spec fn takes_from_host(step: StepView) -> bool {
    match step {
        Step::Clone { .. } => true,
        Step::MapOwner { .. } => true,
        _ => false,
    }
}

/// A step that needs the namespaces to be our own.
pub open spec fn inside(step: StepView) -> bool {
    match step {
        Step::Pivot { .. } => true,
        Step::Mount { .. } => true,
        Step::MountNew { .. } => true,
        Step::Finish { .. } => true,
        Step::Switch { .. } => true,
        _ => false,
    }
}

proof fn lemma_folders_outside(base: Seq<char>, names: Seq<Seq<char>>)
    ensures
        forall|i: int|
            0 <= i < folder_steps(base, names).len() ==> {
                let step = #[trigger] folder_steps(base, names)[i];
                !inside(step) && step != Step::<Seq<char>, OptionsView>::Unshare
                    && step != Step::<Seq<char>, OptionsView>::RejoinNetwork
            },
        all_plain(names) ==> forall|i: int|
            0 <= i < folder_steps(base, names).len() ==> !(#[trigger] folder_steps(base, names)[i]
                is Fail),
    decreases names.len(),
{
    if names.len() > 0 {
        lemma_folders_outside(base, names.drop_last());
        if all_plain(names) {
            assert forall|j: int| 0 <= j < names.drop_last().len() implies is_plain_relative(
                #[trigger] names.drop_last()[j],
            ) by {
                assert(names.drop_last()[j] == names[j]);
            }
        }
    }
}

/// Nothing is mounted and no identity is taken before the namespaces are the child's own, and
/// nothing is taken from the host by path after that.
pub proof fn the_host_is_left_first(forker: Forker, launch: Launch, found: Found, i: int, j: int)
    requires
        0 <= i < launch_steps(forker, launch, found).len(),
        0 <= j < launch_steps(forker, launch, found).len(),
        inside(launch_steps(forker, launch, found)[i]),
        takes_from_host(launch_steps(forker, launch, found)[j]),
    ensures
        j < i,
        exists|u: int|
            j < u < i && (#[trigger] launch_steps(forker, launch, found)[u]) is Unshare,
{
    let args = forker.args;
    let names = views(launch.folders@);
    lemma_folders_outside(args.folders_base@, names);
    let steps = launch_steps(forker, launch, found);
    let folders = owner_steps(args, launch) + folder_steps(args.folders_base@, names);
    let taken = folders + unshare_steps(args, launch.network);
    let u = folders.len() + 4;
    assert forall|k: int| 0 <= k < folders.len() implies !inside(#[trigger] folders[k]) by {
        let n = owner_steps(args, launch).len();
        if k >= n {
            assert(folders[k] == folder_steps(args.folders_base@, names)[k - n]);
        }
    }
    if in_range(forker.start, forker.count, launch.uid) && launch.argv@.len() > 0 && all_plain(
        names,
    ) {
        assert(steps[u as int] is Unshare);
        assert forall|k: int| u < k < steps.len() implies !takes_from_host(#[trigger] steps[k]) by {
            let rest = root_steps(args, launch.uid) + manifest_steps(args, launch, found).0;
            let m = taken.len();
            if k >= m && k < m + rest.len() {
                assert(steps[k] == rest[k - m]);
            }
        }
    }
}

/// The child ends at its first refusal, or as the app: the last step is a failure or the
/// switch, and there is no failure before it.
pub proof fn it_fails_or_switches(forker: Forker, launch: Launch, found: Found)
    ensures
        launch_steps(forker, launch, found).len() > 0,
        launch_steps(forker, launch, found).last() is Fail || launch_steps(
            forker,
            launch,
            found,
        ).last() == (Step::<Seq<char>, OptionsView>::Switch { uid: launch.uid }),
        forall|i: int|
            0 <= i < launch_steps(forker, launch, found).len() - 1 ==> !(#[trigger] launch_steps(
                forker,
                launch,
                found,
            )[i] is Fail),
{
    let args = forker.args;
    let names = views(launch.folders@);
    let steps = launch_steps(forker, launch, found);
    let owner = owner_steps(args, launch);
    let clones = folder_steps(args.folders_base@, names);
    lemma_folders_outside(args.folders_base@, names);
    if !all_plain(names) {
        lemma_folders_end(args.folders_base@, names);
        assert forall|i: int| 0 <= i < (owner + clones).len() - 1 implies !(#[trigger] (owner
            + clones)[i] is Fail) by {
            if i >= owner.len() {
                assert((owner + clones)[i] == clones[i - owner.len()]);
            }
        }
    } else {
        let folders = owner + clones;
        assert forall|i: int| 0 <= i < folders.len() implies !(#[trigger] folders[i] is Fail) by {
            if i >= owner.len() {
                assert(folders[i] == clones[i - owner.len()]);
            }
        }
        let rest = unshare_steps(args, launch.network) + root_steps(args, launch.uid)
            + manifest_steps(args, launch, found).0;
        assert forall|i: int| 0 <= i < rest.len() implies !(#[trigger] rest[i] is Fail) by {}
        let n = folders.len();
        if in_range(forker.start, forker.count, launch.uid) && launch.argv@.len() > 0 {
            assert forall|i: int| 0 <= i < steps.len() - 1 implies !(#[trigger] steps[i]
                is Fail) by {
                if i < n {
                    assert(steps[i] == folders[i]);
                } else if i < n + rest.len() {
                    assert(steps[i] == rest[i - n]);
                }
            }
        }
    }
}

proof fn lemma_folders_end(base: Seq<char>, names: Seq<Seq<char>>)
    requires
        !all_plain(names),
    ensures
        folder_steps(base, names).len() > 0,
        folder_steps(base, names).last() is Fail,
        forall|i: int|
            0 <= i < folder_steps(base, names).len() - 1 ==> !(#[trigger] folder_steps(
                base,
                names,
            )[i] is Fail),
    decreases names.len(),
{
    if names.len() > 0 {
        let front = names.drop_last();
        if !all_plain(front) {
            lemma_folders_end(base, front);
        } else {
            lemma_folders_outside(base, front);
            if is_plain_relative(names.last()) {
                assert forall|j: int| 0 <= j < names.len() implies is_plain_relative(
                    #[trigger] names[j],
                ) by {
                    if j < front.len() {
                        assert(front[j] == names[j]);
                    }
                }
            }
        }
    }
}

/// The host's network is joined again for a networked app, and for no other.
pub proof fn the_network_is_asked_for(forker: Forker, launch: Launch, found: Found, i: int)
    requires
        0 <= i < launch_steps(forker, launch, found).len(),
        launch_steps(forker, launch, found)[i] is RejoinNetwork,
    ensures
        launch.network,
{
    let args = forker.args;
    let names = views(launch.folders@);
    lemma_folders_outside(args.folders_base@, names);
    let folders = owner_steps(args, launch) + folder_steps(args.folders_base@, names);
    let n = owner_steps(args, launch).len();
    if i < folders.len() && i >= n && in_range(forker.start, forker.count, launch.uid)
        && launch.argv@.len() > 0 {
        assert(launch_steps(forker, launch, found)[i] == folder_steps(
            args.folders_base@,
            names,
        )[i - n]);
    }
}

/// Where `argv[0]` is looked for: itself if it has a slash, else in every directory of `path`.
pub open spec fn exe_candidates(name: Seq<char>, path: Seq<char>) -> Seq<Seq<char>> {
    if name.contains('/') {
        seq![name]
    } else {
        kept(pieces(path, ':'), |d: Seq<char>| d.len() > 0).map_values(
            |d: Seq<char>| path_under(d, name),
        )
    }
}

/// Where `argv[0]` is looked for.
pub fn candidates(name: &str, path: &str) -> (r: Vec<String>)
    ensures
        views(r@) == exe_candidates(name@, path@),
{
    broadcast use group_views;

    let cs = chars_of(name);
    let mut out: Vec<String> = Vec::new();
    if let Some(i) = find_char(&cs, '/') {
        assert(name@[i as int] == '/');
        out.push(name.to_owned());
        assert(views(out@) =~= seq![name@]);
        return out;
    }
    let dirs = split(&chars_of(path), ':');
    let ghost all = pieces(path@, ':');
    let ghost full = |d: Seq<char>| d.len() > 0;
    let ghost under = |d: Seq<char>| path_under(d, name@);
    let mut i: usize = 0;
    assert(kept(all.take(0), full).map_values(under) =~= Seq::<Seq<char>>::empty());
    while i < dirs.len()
        invariant
            i <= dirs@.len(),
            views(dirs@) == all,
            full == (|d: Seq<char>| d.len() > 0),
            under == (|d: Seq<char>| path_under(d, name@)),
            views(out@) == kept(all.take(i as int), full).map_values(under),
        decreases dirs@.len() - i,
    {
        proof {
            lemma_kept_step(all, full, i as int);
        }
        assert(all[i as int] == dirs@[i as int]@);
        if dirs[i].len() > 0 {
            let dir = string_of(&dirs[i], 0, dirs[i].len());
            assert(dir@ =~= dirs@[i as int]@);
            let ghost before = kept(all.take(i as int), full);
            out.push(join_path(dir.as_str(), name));
            assert(before.push(dir@).map_values(under) =~= before.map_values(under).push(
                under(dir@),
            ));
        }
        i = i + 1;
    }
    assert(all.take(i as int) =~= all);
    out
}

/// A text that C can hold: no NUL in it.
pub open spec fn no_nul(s: Seq<char>) -> bool {
    !s.contains('\0')
}

fn without_nul(s: &str) -> (r: bool)
    ensures
        r == no_nul(s@),
{
    match find_char(&chars_of(s), '\0') {
        Some(i) => {
            assert(s@[i as int] == '\0');
            false
        },
        None => true,
    }
}

/// `i` is the first candidate that may be executed.
pub open spec fn first_hit(hits: Seq<bool>, i: int) -> bool {
    0 <= i < hits.len() && hits[i] && forall|j: int| 0 <= j < i ==> !hits[j]
}

/// `argv[0]` as a path: the first of its candidates that may be executed. `hits` says of each
/// candidate whether it may.
pub fn which(name: &str, path: &str, hits: &Vec<bool>) -> (r: Option<String>)
    requires
        hits@.len() == exe_candidates(name@, path@).len(),
    ensures
        match r {
            Some(exe) => exists|i: int| #[trigger]
                first_hit(hits@, i) && exe@ == exe_candidates(name@, path@)[i] && no_nul(exe@),
            None => forall|i: int| #[trigger]
                first_hit(hits@, i) ==> !no_nul(exe_candidates(name@, path@)[i]),
        },
{
    broadcast use group_views;

    let list = candidates(name, path);
    let mut i: usize = 0;
    while i < hits.len()
        invariant
            i <= hits@.len() == list@.len(),
            views(list@) == exe_candidates(name@, path@),
            forall|j: int| 0 <= j < i ==> !hits@[j],
        decreases hits@.len() - i,
    {
        if hits[i] {
            assert(first_hit(hits@, i as int));
            assert(list@[i as int]@ == exe_candidates(name@, path@)[i as int]);
            if without_nul(list[i].as_str()) {
                return Some(list[i].clone());
            }
            return None;
        }
        i = i + 1;
    }
    None
}

/// The value of the first `key` in an environment.
pub open spec fn env_value(env: Seq<(Seq<char>, Seq<char>)>, key: Seq<char>) -> Option<Seq<char>>
    decreases env.len(),
{
    if env.len() == 0 {
        None
    } else if env[0].0 == key {
        Some(env[0].1)
    } else {
        env_value(env.skip(1), key)
    }
}

/// The `PATH` of an environment, empty where it has none.
pub fn env_path(env: &Vec<(String, String)>) -> (r: String)
    ensures
        r@ == match env_value(views(env@), "PATH"@) {
            Some(v) => v,
            None => Seq::empty(),
        },
{
    broadcast use group_views;

    let mut i: usize = 0;
    assert(views(env@).skip(0) =~= views(env@));
    while i < env.len()
        invariant
            i <= env@.len(),
            env_value(views(env@), "PATH"@) == env_value(views(env@).skip(i as int), "PATH"@),
        decreases env@.len() - i,
    {
        assert(views(env@).skip(i as int)[0] == env@[i as int]@);
        if same_text(env[i].0.as_str(), "PATH") {
            return env[i].1.clone();
        }
        assert(views(env@).skip(i as int).skip(1) =~= views(env@).skip(i + 1));
        i = i + 1;
    }
    String::new()
}

/// The command the child becomes.
#[derive(Debug)]
pub struct Command {
    pub exe: String,
    pub argv: Vec<String>,
    /// `KEY=value`, in order.
    pub env: Vec<String>,
    /// The resolver goes on fd 3.
    pub resolv: bool,
}

/// The environment as `execve` takes it.
pub open spec fn env_strings(env: Seq<(Seq<char>, Seq<char>)>) -> Seq<Seq<char>> {
    env.map_values(|e: (Seq<char>, Seq<char>)| e.0 + "="@ + e.1)
}

/// The environment the child gets: the request's, and what says that the resolver's fd was
/// handed over, for a networked app.
pub open spec fn child_env(launch: Launch) -> Seq<(Seq<char>, Seq<char>)> {
    if launch.network {
        views(launch.env@) + handoff_env(seq!["resolv"@])
    } else {
        views(launch.env@)
    }
}

/// No NUL in any of them.
pub open spec fn all_no_nul(list: Seq<Seq<char>>) -> bool {
    forall|i: int| 0 <= i < list.len() ==> no_nul(#[trigger] list[i])
}

/// Why the command cannot be run, if it cannot: `found` is whether `argv[0]` was found,
/// `resolv` whether the host has a resolver.
pub open spec fn command_fault(launch: Launch, found: bool, resolv: bool) -> Option<Seq<char>> {
    if !found {
        Some(launch.argv@[0]@ + ": not found in PATH"@)
    } else if launch.network && !resolv {
        Some("no resolv.conf on the host"@)
    } else if !all_no_nul(views(launch.argv@)) {
        Some("NUL in argv"@)
    } else if !all_no_nul(env_strings(child_env(launch))) {
        Some("NUL in env"@)
    } else {
        None
    }
}

fn all_without_nul(list: &Vec<String>) -> (r: bool)
    ensures
        r == all_no_nul(views(list@)),
{
    broadcast use group_views;

    let mut i: usize = 0;
    while i < list.len()
        invariant
            i <= list@.len(),
            forall|j: int| 0 <= j < i ==> no_nul(#[trigger] views(list@)[j]),
        decreases list@.len() - i,
    {
        if !without_nul(list[i].as_str()) {
            assert(!no_nul(views(list@)[i as int]));
            return false;
        }
        i = i + 1;
    }
    true
}

fn push_env(out: &mut Vec<String>, env: &Vec<(String, String)>)
    ensures
        views(final(out)@) == views(old(out)@) + env_strings(views(env@)),
{
    broadcast use group_views;

    let ghost start = views(out@);
    let ghost all = env_strings(views(env@));
    let mut i: usize = 0;
    assert(start + all.take(0) =~= start);
    while i < env.len()
        invariant
            i <= env@.len() == all.len(),
            all == env_strings(views(env@)),
            views(out@) == start + all.take(i as int),
        decreases env@.len() - i,
    {
        let mut line = env[i].0.clone();
        line.append("=");
        line.append(env[i].1.as_str());
        assert(views(env@)[i as int] == env@[i as int]@);
        assert(all[i as int] == line@);
        out.push(line);
        assert(all.take(i + 1) =~= all.take(i as int).push(all[i as int]));
        assert(start + all.take(i + 1) =~= (start + all.take(i as int)).push(all[i as int]));
        i = i + 1;
    }
    assert(all.take(i as int) =~= all);
}

/// The command of a request, once the process is the app: `exe` is where `argv[0]` was found,
/// `resolv` whether the host has a resolver.
pub fn command(launch: &Launch, exe: Option<String>, resolv: bool) -> (r: Result<Command, String>)
    requires
        launch.argv@.len() > 0,
    ensures
        match r {
            Ok(c) => {
                &&& command_fault(*launch, exe is Some, resolv) is None
                &&& Some(c.exe) == exe
                &&& views(c.argv@) == views(launch.argv@)
                &&& views(c.env@) == env_strings(child_env(*launch))
                &&& c.resolv == launch.network
            },
            Err(e) => command_fault(*launch, exe is Some, resolv) == Some(e@),
        },
{
    broadcast use group_views;

    let exe = match exe {
        Some(exe) => exe,
        None => {
            let mut text = launch.argv[0].clone();
            text.append(": not found in PATH");
            return Err(text);
        },
    };
    let mut env: Vec<String> = Vec::new();
    push_env(&mut env, &launch.env);
    assert(views(env@) =~= env_strings(views(launch.env@)));
    if launch.network {
        if !resolv {
            return Err("no resolv.conf on the host".to_owned());
        }
        let given: Vec<(String, i32)> = vec![("resolv".to_owned(), 0)];
        let ghost names = given_names(given@);
        assert(names =~= seq!["resolv"@]);
        proof {
            reveal_strlit("resolv");
            assert(names.drop_last() =~= Seq::empty());
            assert(name_fault(names.drop_last()) is None);
            assert(good_name("resolv"@));
            assert(name_fault(names) is None);
        }
        if let Ok((fd_env, _)) = handoff(&given) {
            push_env(&mut env, &fd_env);
            assert(views(env@) =~= env_strings(child_env(*launch)));
        }
    }
    if !all_without_nul(&launch.argv) {
        return Err("NUL in argv".to_owned());
    }
    if !all_without_nul(&env) {
        return Err("NUL in env".to_owned());
    }
    let argv = copied(&launch.argv);
    Ok(Command { exe, argv, env, resolv: launch.network })
}

/// What reads as the range of UIDs, or what is wrong with it.
pub open spec fn range_of(s: Seq<char>) -> Result<(nat, nat), Seq<char>> {
    match cut(s, ':') {
        None => Err("--range "@ + quoted(s) + ": expected start:count"@),
        Some((start, count)) => match (
            unsigned(start, u32::MAX as nat),
            unsigned(count, u32::MAX as nat),
        ) {
            (None, _) => Err("--range "@ + quoted(start) + ": "@ + u32_fault(start)),
            (Some(_), None) => Err("--range "@ + quoted(count) + ": "@ + u32_fault(count)),
            (Some(a), Some(b)) => if a == 0 {
                Err("--range must not include root"@)
            } else {
                Ok((a, b))
            },
        },
    }
}

fn range_number(s: &str) -> (r: Result<u32, String>)
    ensures
        match r {
            Ok(n) => unsigned(s@, u32::MAX as nat) == Some(n as nat),
            Err(e) => unsigned(s@, u32::MAX as nat) is None && e@ == "--range "@ + quoted(s@)
                + ": "@ + u32_fault(s@),
        },
{
    match parse_u32(s) {
        Ok(n) => Ok(n),
        Err(e) => {
            let mut text = "--range ".to_owned();
            text.append(quote(s).as_str());
            text.append(": ");
            text.append(e.as_str());
            Err(text)
        },
    }
}

/// Reads `start:count`, the UIDs apps may run as. Root is never one of them.
pub fn parse_range(s: &str) -> (r: Result<(u32, u32), String>)
    ensures
        match r {
            Ok((start, count)) => range_of(s@) == Ok::<(nat, nat), Seq<char>>(
                (start as nat, count as nat),
            ),
            Err(e) => range_of(s@) == Err::<(nat, nat), Seq<char>>(e@),
        },
{
    let (start, count) = match split_once(&chars_of(s), ':') {
        None => {
            let mut text = "--range ".to_owned();
            text.append(quote(s).as_str());
            text.append(": expected start:count");
            return Err(text);
        },
        Some(parts) => parts,
    };
    let start_s = string_of(&start, 0, start.len());
    let count_s = string_of(&count, 0, count.len());
    assert(start_s@ =~= start@);
    assert(count_s@ =~= count@);
    match range_number(start_s.as_str()) {
        Err(e) => Err(e),
        Ok(a) => match range_number(count_s.as_str()) {
            Err(e) => Err(e),
            Ok(b) => if a == 0 {
                Err("--range must not include root".to_owned())
            } else {
                Ok((a, b))
            },
        },
    }
}

/// What the forker's parent does once the poll returns: the children that ended are reaped,
/// the others kept, and the channel read if there is something on it.
#[derive(Debug)]
pub struct Settled {
    pub kept: Vec<(i32, i32)>,
    pub reaped: Vec<i32>,
    pub channel: bool,
}

/// The children, by pid and pidfd, that are not ready.
pub open spec fn unready(children: Seq<(i32, i32)>, ready: Seq<bool>) -> Seq<(i32, i32)>
    decreases children.len(),
{
    if children.len() == 0 {
        Seq::empty()
    } else {
        let before = unready(children.drop_last(), ready);
        if ready[children.len() as int] {
            before
        } else {
            before.push(children.last())
        }
    }
}

/// The pids of the children that are ready.
pub open spec fn ready_pids(children: Seq<(i32, i32)>, ready: Seq<bool>) -> Seq<i32>
    decreases children.len(),
{
    if children.len() == 0 {
        Seq::empty()
    } else {
        let before = ready_pids(children.drop_last(), ready);
        if ready[children.len() as int] {
            before.push(children.last().0)
        } else {
            before
        }
    }
}

/// `ready` is the channel's readiness, and then each child's.
pub fn settle(children: &Vec<(i32, i32)>, ready: &Vec<bool>) -> (r: Settled)
    requires
        ready@.len() == children@.len() + 1,
    ensures
        r.kept@ == unready(children@, ready@),
        r.reaped@ == ready_pids(children@, ready@),
        r.channel == ready@[0],
{
    let mut kept: Vec<(i32, i32)> = Vec::new();
    let mut reaped: Vec<i32> = Vec::new();
    let mut i: usize = 0;
    while i < children.len()
        invariant
            i <= children@.len(),
            ready@.len() == children@.len() + 1,
            kept@ == unready(children@.take(i as int), ready@),
            reaped@ == ready_pids(children@.take(i as int), ready@),
        decreases children@.len() - i,
    {
        assert(children@.take(i + 1).drop_last() =~= children@.take(i as int));
        if ready[i + 1] {
            reaped.push(children[i].0);
        } else {
            kept.push(children[i]);
        }
        i = i + 1;
    }
    assert(children@.take(i as int) =~= children@);
    Settled { kept, reaped, channel: ready[0] }
}

/// What is logged of a child that ended: `exited` by itself, or by a signal.
pub fn reap(pid: i32, uid: u32, exited: bool, status: i32) -> (r: String)
    ensures
        r@ == "pid "@ + decimal_int(pid as int) + " (uid "@ + decimal(uid as nat) + ") exited: "@
            + (if exited {
            "exit status: "@
        } else {
            "signal: "@
        }) + decimal_int(status as int),
{
    let mut text = "pid ".to_owned();
    text.append(number_int(pid as i64).as_str());
    text.append(" (uid ");
    text.append(number(uid as u64).as_str());
    text.append(") exited: ");
    text.append(if exited { "exit status: " } else { "signal: " });
    text.append(number_int(status as i64).as_str());
    text
}

} // verus!
