//! What a launched app finds in its root, where it comes from, and as whom it runs.
use vstd::prelude::*;

use crate::forker::{
    child_env, closing_steps, command_fault, env_value, exe_candidates, folder_steps, handle_steps,
    in_range, it_fails_or_switches, launch_steps, manifest_steps, own_mounts, owner_steps, range_of,
    ready_pids, root_steps, unready, unshare_steps, Args, Forker, Found, OptionsView, Part, Step,
    StepView, Tree,
};
use crate::os::mounts::Attrs;
use crate::policy::forker::Launch;
use crate::text::{decimal, is_plain_relative, path_under, pieces, quoted, unsigned};
use crate::views::{kept, lemma_kept_contains, views};

verus! {

/// The place is `dir` itself or lies below it.
pub open spec fn at_or_below(at: Seq<char>, dir: Seq<char>) -> bool {
    at == dir || (at.len() > dir.len() && at.take(dir.len() as int) == dir && at[dir.len() as int]
        == '/')
}

/// A launch that is let through: an identity of the range, a command, folders that stay below
/// the person's files, and everything on this host that it asks for.
pub open spec fn goes_through(forker: Forker, launch: Launch, found: Found) -> bool {
    &&& forker.start <= launch.uid < forker.start + forker.count
    &&& launch.argv@.len() > 0
    &&& forall|i: int| 0 <= i < launch.folders@.len() ==> is_plain_relative(#[trigger] launch.folders@[i]@)
    &&& launch.gpu ==> found.dri && found.sys_gpu
    &&& launch.nix ==> found.daemon_socket
}

/// The steps of a launch that is let through, part by part.
proof fn lemma_whole(forker: Forker, launch: Launch, found: Found)
    requires
        goes_through(forker, launch, found),
    ensures
        launch_steps(forker, launch, found) == owner_steps(forker.args, launch) + folder_steps(
            forker.args.folders_base@,
            views(launch.folders@),
        ) + unshare_steps(forker.args, launch.network) + root_steps(forker.args, launch.uid)
            + manifest_steps(forker.args, launch, found).0 + own_mounts(launch) + closing_steps(
            launch.uid,
        ),
        manifest_steps(forker.args, launch, found).1 is None,
{
    let names = views(launch.folders@);
    assert forall|i: int| 0 <= i < names.len() implies is_plain_relative(#[trigger] names[i]) by {
        assert(names[i] == launch.folders@[i]@);
    }
}

/// A launch ends in the switch to the app's identity exactly where the identity is of the
/// range, there is a command, every folder stays below the person's files, and the host has
/// the graphics and the nix daemon that are asked for; else it ends in a failure.
pub proof fn only_what_is_sound_is_launched(forker: Forker, launch: Launch, found: Found)
    ensures
        launch_steps(forker, launch, found).len() > 0,
        launch_steps(forker, launch, found).last() == (Step::<Seq<char>, OptionsView>::Switch {
            uid: launch.uid,
        }) <==> goes_through(forker, launch, found),
        launch_steps(forker, launch, found).last() is Fail <==> !goes_through(
            forker,
            launch,
            found,
        ),
{
    it_fails_or_switches(forker, launch, found);
    let steps = launch_steps(forker, launch, found);
    let names = views(launch.folders@);
    if goes_through(forker, launch, found) {
        lemma_whole(forker, launch, found);
    } else if in_range(forker.start, forker.count, launch.uid) && launch.argv@.len() > 0 {
        if crate::forker::all_plain(names) {
            assert forall|i: int| 0 <= i < launch.folders@.len() implies is_plain_relative(
                #[trigger] launch.folders@[i]@,
            ) by {
                assert(is_plain_relative(names[i]));
            }
        } else {
            lemma_no_switch(forker.args.folders_base@, names);
            let folders = owner_steps(forker.args, launch) + folder_steps(
                forker.args.folders_base@,
                names,
            );
            assert(!(steps.last() is Switch));
        }
    }
}

proof fn lemma_no_switch(base: Seq<char>, names: Seq<Seq<char>>)
    ensures
        forall|i: int|
            0 <= i < folder_steps(base, names).len() ==> {
                let step = #[trigger] folder_steps(base, names)[i];
                step is Clone || step is IdMap || step is Fail
            },
    decreases names.len(),
{
    if names.len() > 0 {
        lemma_no_switch(base, names.drop_last());
    }
}

/// Why a launch is refused: first the identity, then a command that is missing.
pub proof fn the_refusal_says_why(forker: Forker, launch: Launch, found: Found)
    ensures
        !(forker.start <= launch.uid < forker.start + forker.count) ==> launch_steps(
            forker,
            launch,
            found,
        ) == seq![
            Step::<Seq<char>, OptionsView>::Fail(
                "uid "@ + decimal(launch.uid as nat) + " is outside the app range"@,
            ),
        ],
        forker.start <= launch.uid < forker.start + forker.count && launch.argv@.len() == 0
            ==> launch_steps(forker, launch, found) == seq![
            Step::<Seq<char>, OptionsView>::Fail("empty argv"@),
        ],
        ({
            let fine = goes_through(
                forker,
                launch,
                Found { dri: true, sys_gpu: true, daemon_socket: true },
            );
            let last = launch_steps(forker, launch, found).last();
            &&& fine && launch.gpu && !found.dri ==> last == Step::<Seq<char>, OptionsView>::Fail(
                "no render node view (no GPU on this host?)"@,
            )
            &&& fine && launch.gpu && found.dri && !found.sys_gpu ==> last == Step::<
                Seq<char>,
                OptionsView,
            >::Fail("no sys-gpu view"@)
            &&& fine && (launch.gpu ==> found.dri && found.sys_gpu) && launch.nix
                && !found.daemon_socket ==> last == Step::<Seq<char>, OptionsView>::Fail(
                "no nix daemon socket directory on this host"@,
            )
        }),
{
    let names = views(launch.folders@);
    if goes_through(forker, launch, Found { dri: true, sys_gpu: true, daemon_socket: true }) {
        assert forall|i: int| 0 <= i < names.len() implies is_plain_relative(
            #[trigger] names[i],
        ) by {
            assert(names[i] == launch.folders@[i]@);
        }
    }
}

/// A folder that could lead out of the person's files ends the launch, and the first such is
/// named.
pub proof fn the_first_bad_folder_is_named(forker: Forker, launch: Launch, found: Found, k: int)
    requires
        forker.start <= launch.uid < forker.start + forker.count,
        launch.argv@.len() > 0,
        0 <= k < launch.folders@.len(),
        !is_plain_relative(launch.folders@[k]@),
        forall|i: int| 0 <= i < k ==> is_plain_relative(#[trigger] launch.folders@[i]@),
    ensures
        launch_steps(forker, launch, found).last() == Step::<Seq<char>, OptionsView>::Fail(
            "folder "@ + quoted(launch.folders@[k]@) + ": not a plain relative path"@,
        ),
{
    let names = views(launch.folders@);
    assert(names[k] == launch.folders@[k]@);
    assert(!crate::forker::all_plain(names));
    assert forall|i: int| 0 <= i < k implies is_plain_relative(#[trigger] names[i]) by {
        assert(names[i] == launch.folders@[i]@);
    }
    lemma_bad_folder(forker.args.folders_base@, names, k);
}

proof fn lemma_bad_folder(base: Seq<char>, names: Seq<Seq<char>>, k: int)
    requires
        0 <= k < names.len(),
        !is_plain_relative(names[k]),
        forall|i: int| 0 <= i < k ==> is_plain_relative(#[trigger] names[i]),
    ensures
        folder_steps(base, names).len() > 0,
        folder_steps(base, names).last() == Step::<Seq<char>, OptionsView>::Fail(
            "folder "@ + quoted(names[k]) + ": not a plain relative path"@,
        ),
    decreases names.len(),
{
    let front = names.drop_last();
    if k < names.len() - 1 {
        assert(front[k] == names[k]);
        assert(!crate::forker::all_plain(front));
        lemma_bad_folder(base, front, k);
    } else {
        assert forall|i: int| 0 <= i < front.len() implies is_plain_relative(#[trigger] front[i]) by {
            assert(front[i] == names[i]);
        }
    }
}

/// Where each tree is mounted: the store, the doors and the daemon's socket at the host's own
/// paths, the devices at "/dev", the graphics at "/dev/dri" where they are asked for, one view
/// of "/sys", the state at "/state", and a folder at its name below "/files".
pub open spec fn in_its_place(args: Args, launch: Launch, step: StepView) -> bool {
    step is Mount ==> match step->Mount_tree {
        Tree::Store => step->Mount_at == args.store@,
        Tree::Dev => step->Mount_at == "/dev"@,
        Tree::Dri => launch.gpu && step->Mount_at == "/dev/dri"@,
        Tree::Sys => !launch.gpu && step->Mount_at == "/sys"@,
        Tree::SysGpu => launch.gpu && step->Mount_at == "/sys"@,
        Tree::Run => step->Mount_at == args.run@,
        Tree::DaemonSocket => launch.nix && step->Mount_at == args.daemon_socket@,
        Tree::State => step->Mount_at == "/state"@,
        Tree::Folder(i) => i < launch.folders@.len() && step->Mount_at == "/files/"@
            + launch.folders@[i as int]@,
    }
}

proof fn lemma_files_text(name: Seq<char>)
    ensures
        crate::forker::FILES@ + "/"@ + name == "/files/"@ + name,
{
    reveal_strlit("/files");
    reveal_strlit("/files/");
    reveal_strlit("/");
    assert(crate::forker::FILES@ + "/"@ =~= "/files/"@);
}

/// Nothing is mounted but in its place, whatever is launched; and what a graphical app gets of
/// the devices, or an app of the daemon's socket, goes by what was asked.
pub proof fn everything_is_in_its_place(forker: Forker, launch: Launch, found: Found, k: int)
    requires
        0 <= k < launch_steps(forker, launch, found).len(),
        launch.folders@.len() <= usize::MAX,
    ensures
        in_its_place(forker.args, launch, launch_steps(forker, launch, found)[k]),
{
    let args = forker.args;
    let steps = launch_steps(forker, launch, found);
    let names = views(launch.folders@);
    let owner = owner_steps(args, launch);
    let clones = folder_steps(args.folders_base@, names);
    lemma_no_switch(args.folders_base@, names);
    let a = owner + clones;
    assert forall|j: int| 0 <= j < a.len() implies in_its_place(args, launch, #[trigger] a[j]) by {
        if j >= owner.len() {
            assert(a[j] == clones[j - owner.len()]);
        }
    }
    let b = unshare_steps(args, launch.network);
    let c = root_steps(args, launch.uid);
    let d = manifest_steps(args, launch, found).0;
    let e = own_mounts(launch);
    assert forall|j: int| 0 <= j < e.len() implies in_its_place(args, launch, #[trigger] e[j]) by {
        if j >= 2 {
            lemma_files_text(names[j - 2]);
            assert(names[j - 2] == launch.folders@[j - 2]@);
        }
    }
    if in_range(forker.start, forker.count, launch.uid) && launch.argv@.len() > 0
        && crate::forker::all_plain(names) {
        let root = a + b + c + d;
        if k < a.len() {
            assert(steps[k] == a[k]);
        } else if k < a.len() + b.len() {
            assert(steps[k] == b[k - a.len()]);
        } else if k < a.len() + b.len() + c.len() {
            assert(steps[k] == c[k - a.len() - b.len()]);
        } else if k < root.len() {
            assert(steps[k] == d[k - a.len() - b.len() - c.len()]);
        } else if manifest_steps(args, launch, found).1 is None {
            if k < root.len() + e.len() {
                assert(steps[k] == e[k - root.len()]);
            }
        }
    }
}

/// In a launch that is let through every folder is cloned from below the person's files, shown
/// as the app's own, and mounted at its name below "/files".
pub proof fn folders_are_found_at_their_names(forker: Forker, launch: Launch, found: Found, i: int)
    requires
        goes_through(forker, launch, found),
        launch.folders@.len() <= usize::MAX,
        0 <= i < launch.folders@.len(),
    ensures
        ({
            let steps = launch_steps(forker, launch, found);
            let name = launch.folders@[i]@;
            &&& steps.contains(
                Step::Mount { tree: Tree::Folder(i as usize), at: "/files/"@ + name },
            )
            &&& steps.contains(
                Step::Clone {
                    tree: Tree::Folder(i as usize),
                    path: path_under(forker.args.folders_base@, name),
                    attrs: Attrs { rdonly: false, nosuid: true, nodev: true, noexec: true },
                    needed: true,
                },
            )
            &&& steps.contains(Step::IdMap { tree: Tree::Folder(i as usize), name })
            &&& steps.contains(
                Step::MapOwner { base: forker.args.folders_base@, uid: launch.uid },
            )
        }),
{
    let args = forker.args;
    let steps = launch_steps(forker, launch, found);
    let names = views(launch.folders@);
    lemma_whole(forker, launch, found);
    let owner = owner_steps(args, launch);
    let clones = folder_steps(args.folders_base@, names);
    let front = owner + clones + unshare_steps(args, launch.network) + root_steps(args, launch.uid)
        + manifest_steps(args, launch, found).0;
    assert(names[i] == launch.folders@[i]@);
    lemma_files_text(names[i]);
    assert(steps[front.len() + 2 + i] == own_mounts(launch)[2 + i]);
    assert(steps[0] == owner[0]);
    assert forall|j: int| 0 <= j < names.len() implies is_plain_relative(#[trigger] names[j]) by {
        assert(names[j] == launch.folders@[j]@);
    }
    lemma_folder_clones(args.folders_base@, names, i);
    assert(steps[owner.len() + 2 * i] == clones[2 * i]);
    assert(steps[owner.len() + 2 * i + 1] == clones[2 * i + 1]);
}

proof fn lemma_folder_clones(base: Seq<char>, names: Seq<Seq<char>>, i: int)
    requires
        0 <= i < names.len() <= usize::MAX,
        forall|j: int| 0 <= j < names.len() ==> is_plain_relative(#[trigger] names[j]),
    ensures
        folder_steps(base, names).len() == 2 * names.len(),
        folder_steps(base, names)[2 * i] == (Step::<Seq<char>, OptionsView>::Clone {
            tree: Tree::Folder(i as usize),
            path: path_under(base, names[i]),
            attrs: Attrs { rdonly: false, nosuid: true, nodev: true, noexec: true },
            needed: true,
        }),
        folder_steps(base, names)[2 * i + 1] == (Step::<Seq<char>, OptionsView>::IdMap {
            tree: Tree::Folder(i as usize),
            name: names[i],
        }),
    decreases names.len(),
{
    let front = names.drop_last();
    assert forall|j: int| 0 <= j < front.len() implies is_plain_relative(#[trigger] front[j]) by {
        assert(front[j] == names[j]);
    }
    if i < names.len() - 1 {
        lemma_folder_clones(base, front, i);
    } else if front.len() > 0 {
        lemma_folder_clones(base, front, 0);
    }
}

/// The one tree mounted at or below "/state" is the app's own state, which is the directory of
/// its number; where the host keeps its store, its doors or the daemon's socket there, those
/// are its own doing.
pub proof fn the_state_is_the_apps_own(forker: Forker, launch: Launch, found: Found, k: int)
    requires
        goes_through(forker, launch, found),
        launch.folders@.len() <= usize::MAX,
        !at_or_below(forker.args.store@, "/state"@),
        !at_or_below(forker.args.run@, "/state"@),
        !at_or_below(forker.args.daemon_socket@, "/state"@),
    ensures
        ({
            let steps = launch_steps(forker, launch, found);
            let id = decimal(launch.uid as nat);
            &&& steps.contains(Step::Mount { tree: Tree::State, at: "/state"@ })
            &&& steps.contains(
                Step::CloneState {
                    name: id,
                    attrs: Attrs { rdonly: false, nosuid: true, nodev: true, noexec: true },
                },
            )
            &&& steps.contains(Step::HoldState { path: forker.args.state_base@ })
            &&& 0 <= k < steps.len() && steps[k] is Mount && at_or_below(
                steps[k]->Mount_at,
                "/state"@,
            ) ==> steps[k]->Mount_tree == Tree::State
            &&& 0 <= k < steps.len() && steps[k] is MountNew ==> !at_or_below(
                steps[k]->MountNew_at,
                "/state"@,
            )
            &&& 0 <= k < steps.len() && steps[k] is CloneState ==> steps[k]->CloneState_name == id
        }),
{
    reveal_strlit("/state");
    reveal_strlit("/dev");
    reveal_strlit("/dev/dri");
    reveal_strlit("/dev/shm");
    reveal_strlit("/dev/pts");
    reveal_strlit("/proc");
    reveal_strlit("/sys");
    reveal_strlit("/files/");
    let args = forker.args;
    let steps = launch_steps(forker, launch, found);
    let names = views(launch.folders@);
    lemma_whole(forker, launch, found);
    lemma_no_switch(args.folders_base@, names);
    let a = owner_steps(args, launch) + folder_steps(args.folders_base@, names);
    let b = unshare_steps(args, launch.network);
    let c = root_steps(args, launch.uid);
    let d = manifest_steps(args, launch, found).0;
    let e = own_mounts(launch);
    let front = a + b + c + d;
    assert(steps[front.len() as int] == e[0]);
    assert(steps[front.len() as int + 1] == e[1]);
    assert(steps[a.len() as int + 5] == b[5]);
    if 0 <= k < steps.len() {
        everything_is_in_its_place(forker, launch, found, k);
        let owner = owner_steps(args, launch);
        if k < a.len() {
            assert(steps[k] == a[k]);
            if k >= owner.len() {
                assert(a[k] == folder_steps(args.folders_base@, names)[k - owner.len()]);
            }
        } else if k < a.len() + b.len() {
            assert(steps[k] == b[k - a.len()]);
        } else if k < a.len() + b.len() + c.len() {
            assert(steps[k] == c[k - a.len() - b.len()]);
        } else if k < front.len() {
            assert(steps[k] == d[k - a.len() - b.len() - c.len()]);
        } else if k < front.len() + e.len() {
            assert(steps[k] == e[k - front.len()]);
        } else {
            assert(steps[k] == closing_steps(launch.uid)[k - front.len() - e.len()]);
        }
        let other = |at: Seq<char>|
            at.len() >= 6 ==> at.take(6)[1] == at[1];
        if steps[k] is Mount {
            let at = steps[k]->Mount_at;
            assert(other(at));
            if let Tree::Folder(i) = steps[k]->Mount_tree {
                assert(at[1] == 'f');
                assert(at != "/state"@) by {
                    assert("/state"@[1] == 's');
                }
                assert(!at_or_below(at, "/state"@));
            }
            if steps[k]->Mount_tree == Tree::Dev || steps[k]->Mount_tree == Tree::Dri {
                assert(at[1] == 'd');
                assert("/state"@[1] == 's');
            }
            if steps[k]->Mount_tree == Tree::Sys || steps[k]->Mount_tree == Tree::SysGpu {
                assert(at.len() == 4);
            }
        }
        if steps[k] is MountNew {
            let at = steps[k]->MountNew_at;
            assert(other(at));
            assert(at[1] == 'd' || at[1] == 'p');
            assert("/state"@[1] == 's');
        }
    }
}

/// What every app that is let through finds: the store, the devices with a shared memory and
/// terminals of its own, the processes it may see, a view of the system, and the doors; the
/// graphics and the nix daemon's socket where it asked for them.
pub proof fn every_app_has_its_mounts(forker: Forker, launch: Launch, found: Found)
    requires
        goes_through(forker, launch, found),
    ensures
        ({
            let args = forker.args;
            let steps = launch_steps(forker, launch, found);
            let id = decimal(launch.uid as nat);
            let closed = Attrs { rdonly: false, nosuid: true, nodev: true, noexec: true };
            let nodes = Attrs { rdonly: false, nosuid: true, nodev: false, noexec: true };
            &&& steps.contains(
                Step::Pivot {
                    base: args.base@,
                    options: seq![("uid"@, id), ("gid"@, id), ("size"@, "1g"@)],
                },
            )
            &&& steps.contains(Step::Mount { tree: Tree::Store, at: args.store@ })
            &&& steps.contains(Step::Mount { tree: Tree::Dev, at: "/dev"@ })
            &&& steps.contains(
                Step::MountNew {
                    fs: "tmpfs"@,
                    options: seq![("mode"@, "1777"@), ("uid"@, id), ("gid"@, id)],
                    attrs: closed,
                    at: "/dev/shm"@,
                    said: "shm"@,
                },
            )
            &&& steps.contains(
                Step::MountNew {
                    fs: "devpts"@,
                    options: seq![("ptmxmode"@, "0666"@)],
                    attrs: nodes,
                    at: "/dev/pts"@,
                    said: "pts"@,
                },
            )
            &&& steps.contains(
                Step::MountNew {
                    fs: "proc"@,
                    options: seq![("hidepid"@, "invisible"@), ("subset"@, "pid"@)],
                    attrs: closed,
                    at: "/proc"@,
                    said: "proc"@,
                },
            )
            &&& steps.contains(Step::Mount { tree: Tree::Run, at: args.run@ })
            &&& launch.gpu ==> steps.contains(Step::Mount { tree: Tree::Dri, at: "/dev/dri"@ })
            &&& launch.gpu ==> steps.contains(Step::Mount { tree: Tree::SysGpu, at: "/sys"@ })
            &&& !launch.gpu ==> steps.contains(Step::Mount { tree: Tree::Sys, at: "/sys"@ })
            &&& launch.nix ==> steps.contains(
                Step::Mount { tree: Tree::DaemonSocket, at: args.daemon_socket@ },
            )
            &&& launch.network <==> steps.contains(Step::RejoinNetwork)
        }),
{
    let args = forker.args;
    let steps = launch_steps(forker, launch, found);
    let names = views(launch.folders@);
    lemma_whole(forker, launch, found);
    let a = owner_steps(args, launch) + folder_steps(args.folders_base@, names);
    let b = unshare_steps(args, launch.network);
    let c = root_steps(args, launch.uid);
    let d = manifest_steps(args, launch, found).0;
    let n = a.len() + b.len();
    assert(steps[n as int + 1] == c[1]);
    assert(steps[n as int + 3] == c[3]);
    assert(steps[n as int + 4] == c[4]);
    assert(steps[n as int + 5] == c[5]);
    assert(steps[n as int + 6] == c[6]);
    assert(steps[n as int + 7] == c[7]);
    let m = n + c.len();
    assert(steps[m as int] == d[0]);
    assert(steps[m as int + 1] == d[1]);
    if launch.gpu {
        assert(steps[m as int + 2] == d[2]);
    }
    if launch.nix {
        assert(steps[m as int + d.len() - 1] == d[d.len() - 1]);
    }
    if launch.network {
        assert(steps[a.len() as int + 6] == b[6]);
    } else if steps.contains(Step::RejoinNetwork) {
        let k = choose|k: int| 0 <= k < steps.len() && steps[k] is RejoinNetwork;
        crate::forker::the_network_is_asked_for(forker, launch, found, k);
    }
}

/// The privileges go before anything is mounted; every mount is made as the app; and at the end
/// the root is closed, the app's own cgroup entered and its identity taken, in this order.
pub proof fn privileges_go_in_order(forker: Forker, launch: Launch, found: Found)
    requires
        goes_through(forker, launch, found),
    ensures
        ({
            let steps = launch_steps(forker, launch, found);
            let n = steps.len();
            &&& n > 6
            &&& steps[n - 6] is ActAsSelf
            &&& steps[n - 5] is ReleaseState
            &&& steps[n - 4] == (Step::<Seq<char>, OptionsView>::Finish {
                attrs: Attrs { rdonly: false, nosuid: true, nodev: true, noexec: true },
            })
            &&& steps[n - 3] == Step::<Seq<char>, OptionsView>::EnterCgroup {
                name: "app-"@ + decimal(launch.uid as nat),
            }
            &&& steps[n - 2] is UnshareCgroup
            &&& steps[n - 1] == (Step::<Seq<char>, OptionsView>::Switch { uid: launch.uid })
            &&& exists|u: int|
                {
                    &&& 4 <= u < n - 6
                    &&& #[trigger] steps[u] is Unshare
                    &&& steps[u - 4] is LockSecurebits
                    &&& steps[u - 3] is EmptyBoundingSet
                    &&& steps[u - 2] is DropSetpcap
                    &&& steps[u - 1] is NoNewPrivs
                }
            &&& exists|s: int|
                0 <= s < n && #[trigger] steps[s] == (Step::<Seq<char>, OptionsView>::ActAs {
                    uid: launch.uid,
                }) && forall|k: int|
                    0 <= k < n && (#[trigger] steps[k] is Mount || steps[k] is MountNew
                        || steps[k] is CloneState) ==> s < k < n - 6
        }),
{
    let args = forker.args;
    let steps = launch_steps(forker, launch, found);
    let names = views(launch.folders@);
    lemma_whole(forker, launch, found);
    lemma_no_switch(args.folders_base@, names);
    let owner = owner_steps(args, launch);
    let clones = folder_steps(args.folders_base@, names);
    let a = owner + clones;
    let b = unshare_steps(args, launch.network);
    let c = root_steps(args, launch.uid);
    let d = manifest_steps(args, launch, found).0;
    let e = own_mounts(launch);
    let z = closing_steps(launch.uid);
    let n = steps.len();
    let u = a.len() as int + 4;
    assert(steps[u] == b[4]);
    assert(steps[u - 4] == b[0]);
    assert(steps[u - 3] == b[1]);
    assert(steps[u - 2] == b[2]);
    assert(steps[u - 1] == b[3]);
    assert forall|k: int| 0 <= k < 6 implies #[trigger] z[k] == steps[n - 6 + k] by {}
    assert(steps[n - 6] == z[0]);
    assert(steps[n - 5] == z[1]);
    assert(steps[n - 4] == z[2]);
    assert(steps[n - 3] == z[3]);
    assert(steps[n - 2] == z[4]);
    assert(steps[n - 1] == z[5]);
    let s = (a.len() + b.len()) as int + 2;
    assert(steps[s] == c[2]);
    assert forall|k: int|
        0 <= k < n && (#[trigger] steps[k] is Mount || steps[k] is MountNew || steps[k]
            is CloneState) implies s < k < n - 6 by {
        if k < a.len() {
            assert(steps[k] == a[k]);
            if k >= owner.len() {
                assert(a[k] == clones[k - owner.len()]);
            }
        } else if k < a.len() + b.len() {
            assert(steps[k] == b[k - a.len()]);
        } else if k <= s {
            assert(steps[k] == c[k - a.len() - b.len()]);
        } else if k >= n - 6 {
            assert(steps[k] == z[k - (n - 6)]);
        }
    }
}

/// What is taken on the host, before anything of a request is read: each tree from its own
/// place and no more writable or runnable than this. Only the store may hold programs, only
/// the views of devices device nodes, and of the doors themselves nothing can be changed at
/// the top.
pub proof fn the_host_is_taken_as_it_should_be(args: Args)
    ensures
        ({
            let steps = handle_steps(args);
            let sealed = Attrs { rdonly: true, nosuid: true, nodev: true, noexec: true };
            let nodes = Attrs { rdonly: true, nosuid: true, nodev: false, noexec: true };
            &&& steps.len() == 11
            &&& steps[0] is HoldNetwork
            &&& steps[1] is HoldAppsCgroup
            &&& steps.contains(
                Step::Clone {
                    tree: Tree::Store,
                    path: args.store@,
                    attrs: Attrs { rdonly: true, nosuid: true, nodev: true, noexec: false },
                    needed: true,
                },
            )
            &&& steps.contains(
                Step::Clone {
                    tree: Tree::Dev,
                    path: path_under(args.host_views@, "dev"@),
                    attrs: nodes,
                    needed: true,
                },
            )
            &&& steps.contains(
                Step::Clone {
                    tree: Tree::Dri,
                    path: path_under(args.host_views@, "dev-gpu/dri"@),
                    attrs: nodes,
                    needed: false,
                },
            )
            &&& steps.contains(
                Step::Clone {
                    tree: Tree::Sys,
                    path: path_under(args.host_views@, "sys"@),
                    attrs: sealed,
                    needed: true,
                },
            )
            &&& steps.contains(
                Step::Clone {
                    tree: Tree::SysGpu,
                    path: path_under(args.host_views@, "sys-gpu"@),
                    attrs: sealed,
                    needed: false,
                },
            )
            &&& steps.contains(
                Step::Clone {
                    tree: Tree::Run,
                    path: args.run@,
                    attrs: Attrs { rdonly: false, nosuid: true, nodev: true, noexec: true },
                    needed: true,
                },
            )
            &&& steps[8] == (Step::<Seq<char>, OptionsView>::SetTop {
                tree: Tree::Run,
                path: args.run@,
                attrs: sealed,
            })
            &&& steps.contains(
                Step::Clone {
                    tree: Tree::DaemonSocket,
                    path: args.daemon_socket@,
                    attrs: sealed,
                    needed: false,
                },
            )
            &&& steps[10] == (Step::<Seq<char>, OptionsView>::HoldResolv { path: args.resolv@ })
        }),
{
    let steps = handle_steps(args);
    let k = |i: int| steps[i];
    assert(k(2) == steps[2] && k(3) == steps[3] && k(4) == steps[4] && k(5) == steps[5] && k(6)
        == steps[6] && k(7) == steps[7] && k(9) == steps[9]);
}

/// A command is looked for where it says, if it says a path, and else at its name in each
/// directory of the path that is not empty, and nowhere else.
pub proof fn commands_are_looked_for_in_the_path(name: Seq<char>, path: Seq<char>, exe: Seq<char>)
    ensures
        name.contains('/') ==> exe_candidates(name, path) == seq![name],
        !name.contains('/') ==> (exe_candidates(name, path).contains(exe) <==> exists|i: int|
            0 <= i < pieces(path, ':').len() && (#[trigger] pieces(path, ':')[i]).len() > 0 && exe
                == path_under(pieces(path, ':')[i], name)),
{
    if !name.contains('/') {
        let full = |d: Seq<char>| d.len() > 0;
        let under = |d: Seq<char>| path_under(d, name);
        let dirs = pieces(path, ':');
        let some = kept(dirs, full);
        assert(exe_candidates(name, path) == some.map_values(under));
        if exe_candidates(name, path).contains(exe) {
            let k = choose|k: int|
                0 <= k < exe_candidates(name, path).len() && exe_candidates(name, path)[k] == exe;
            assert(some.contains(some[k]));
            lemma_kept_contains(dirs, full, some[k]);
            let i = choose|i: int| 0 <= i < dirs.len() && dirs[i] == some[k];
            assert(dirs[i].len() > 0 && exe == path_under(dirs[i], name));
        }
        if exists|i: int|
            0 <= i < dirs.len() && (#[trigger] dirs[i]).len() > 0 && exe == path_under(
                dirs[i],
                name,
            ) {
            let i = choose|i: int|
                0 <= i < dirs.len() && (#[trigger] dirs[i]).len() > 0 && exe == path_under(
                    dirs[i],
                    name,
                );
            assert(dirs.contains(dirs[i]));
            lemma_kept_contains(dirs, full, dirs[i]);
            let k = choose|k: int| 0 <= k < some.len() && some[k] == dirs[i];
            assert(some.map_values(under)[k] == exe);
        }
    }
}

/// The value of a variable is that of its first entry.
pub proof fn the_first_of_a_variable_counts(
    env: Seq<(Seq<char>, Seq<char>)>,
    key: Seq<char>,
    i: int,
)
    requires
        0 <= i < env.len(),
        env[i].0 == key,
        forall|j: int| 0 <= j < i ==> (#[trigger] env[j]).0 != key,
    ensures
        env_value(env, key) == Some(env[i].1),
    decreases env.len(),
{
    if i > 0 {
        assert(env[0].0 != key);
        let rest = env.skip(1);
        assert(rest[i - 1] == env[i]);
        assert forall|j: int| 0 <= j < i - 1 implies (#[trigger] rest[j]).0 != key by {
            assert(rest[j] == env[j + 1]);
        }
        the_first_of_a_variable_counts(rest, key, i - 1);
    }
}

/// A variable that is not set has no value.
pub proof fn what_is_not_set_has_no_value(env: Seq<(Seq<char>, Seq<char>)>, key: Seq<char>)
    requires
        forall|j: int| 0 <= j < env.len() ==> (#[trigger] env[j]).0 != key,
    ensures
        env_value(env, key) is None,
    decreases env.len(),
{
    if env.len() > 0 {
        assert(env[0].0 != key);
        let rest = env.skip(1);
        assert forall|j: int| 0 <= j < rest.len() implies (#[trigger] rest[j]).0 != key by {
            assert(rest[j] == env[j + 1]);
        }
        what_is_not_set_has_no_value(rest, key);
    }
}

/// The app's environment is the request's own, and for a networked app the two variables that
/// announce the resolver behind it.
pub proof fn the_environment_is_the_requests(launch: Launch)
    ensures
        !launch.network ==> child_env(launch) == views(launch.env@),
        launch.network ==> child_env(launch) == views(launch.env@) + seq![
            ("LISTEN_FDS"@, decimal(1)),
            ("LISTEN_FDNAMES"@, "resolv"@),
        ],
        forall|i: int|
            0 <= i < child_env(launch).len() ==> crate::forker::env_strings(
                child_env(launch),
            )[i] == (#[trigger] child_env(launch)[i]).0 + "="@ + child_env(launch)[i].1,
{
    reveal_strlit("LISTEN_FDS");
    reveal_strlit("LISTEN_FDNAMES");
    let names = seq!["resolv"@];
    assert(crate::text::joined(names, ":"@) == names[0]);
}

/// What keeps a command from being run, in the order in which it is looked at.
pub proof fn commands_fail_for_a_reason(launch: Launch, found: bool, resolv: bool)
    requires
        launch.argv@.len() > 0,
    ensures
        !found ==> command_fault(launch, found, resolv) == Some(
            launch.argv@[0]@ + ": not found in PATH"@,
        ),
        found && launch.network && !resolv ==> command_fault(launch, found, resolv) == Some(
            "no resolv.conf on the host"@,
        ),
        found && (launch.network ==> resolv) && (exists|i: int|
            0 <= i < launch.argv@.len() && (#[trigger] launch.argv@[i])@.contains('\0'))
            ==> command_fault(launch, found, resolv) == Some("NUL in argv"@),
        command_fault(launch, found, resolv) is None ==> found && (launch.network ==> resolv)
            && forall|i: int|
            0 <= i < launch.argv@.len() ==> !(#[trigger] launch.argv@[i])@.contains('\0'),
{
    let argv = views(launch.argv@);
    if exists|i: int| 0 <= i < launch.argv@.len() && (#[trigger] launch.argv@[i])@.contains('\0') {
        let i = choose|i: int|
            0 <= i < launch.argv@.len() && (#[trigger] launch.argv@[i])@.contains('\0');
        assert(!crate::forker::no_nul(argv[i]));
    }
    if command_fault(launch, found, resolv) is None {
        assert forall|i: int| 0 <= i < launch.argv@.len() implies !(#[trigger] launch.argv@[i])@.contains(
            '\0',
        ) by {
            assert(crate::forker::no_nul(argv[i]));
        }
    }
}

/// The range of identities reads as two numbers with a colon between them, and never starts at
/// root.
pub proof fn ranges_read_back(start: u32, count: u32)
    ensures
        start > 0 ==> range_of(decimal(start as nat) + ":"@ + decimal(count as nat)) == Ok::<
            (nat, nat),
            Seq<char>,
        >((start as nat, count as nat)),
        start == 0 ==> range_of(decimal(start as nat) + ":"@ + decimal(count as nat)) == Err::<
            (nat, nat),
            Seq<char>,
        >("--range must not include root"@),
        forall|s: Seq<char>|
            !s.contains(':') ==> #[trigger] range_of(s) == Err::<(nat, nat), Seq<char>>(
                "--range "@ + quoted(s) + ": expected start:count"@,
            ),
{
    reveal_strlit(":");
    let a = decimal(start as nat);
    let b = decimal(count as nat);
    let s = a + ":"@ + b;
    crate::text::lemma_decimal_digits(start as nat);
    crate::text::decimal_reads_back(start as nat, u32::MAX as nat);
    crate::text::decimal_reads_back(count as nat, u32::MAX as nat);
    let at = a.len() as int;
    assert(s[at] == ':');
    assert forall|j: int| 0 <= j < at implies s[j] != ':' by {
        assert(s[j] == a[j]);
        assert(crate::text::is_digit(a[j]));
    }
    crate::text::lemma_first_at(s, ':', at);
    assert(s.take(at) =~= a);
    assert(s.skip(at + 1) =~= b);
    assert(unsigned(a, u32::MAX as nat) == Some(start as nat));
}

/// Every child that is ready is reaped and every other kept.
pub proof fn each_child_is_reaped_or_kept(children: Seq<(i32, i32)>, ready: Seq<bool>, i: int)
    requires
        ready.len() == children.len() + 1,
        0 <= i < children.len(),
    ensures
        ready[i + 1] ==> ready_pids(children, ready).contains(children[i].0),
        !ready[i + 1] ==> unready(children, ready).contains(children[i]),
        ready_pids(children, ready).len() + unready(children, ready).len() == children.len(),
{
    lemma_reaped_or_kept(children, ready, i);
}

proof fn lemma_reaped_or_kept(children: Seq<(i32, i32)>, ready: Seq<bool>, i: int)
    requires
        ready.len() > children.len(),
    ensures
        0 <= i < children.len() && ready[i + 1] ==> ready_pids(children, ready).contains(
            children[i].0,
        ),
        0 <= i < children.len() && !ready[i + 1] ==> unready(children, ready).contains(children[i]),
        ready_pids(children, ready).len() + unready(children, ready).len() == children.len(),
    decreases children.len(),
{
    if children.len() > 0 {
        let front = children.drop_last();
        lemma_reaped_or_kept(front, ready, i);
        let last = children.last();
        vstd::seq_lib::lemma_seq_contains_after_push(ready_pids(front, ready), last.0, last.0);
        vstd::seq_lib::lemma_seq_contains_after_push(unready(front, ready), last, last);
        if 0 <= i < front.len() {
            assert(front[i] == children[i]);
            vstd::seq_lib::lemma_seq_contains_after_push(
                ready_pids(front, ready),
                last.0,
                children[i].0,
            );
            vstd::seq_lib::lemma_seq_contains_after_push(
                unready(front, ready),
                last,
                children[i],
            );
        }
    }
}

/// What is said of a step that fails: the path that it is about, or what it does.
pub proof fn a_failed_step_is_blamed(
    path: Seq<char>,
    tree: Tree,
    attrs: Attrs,
    name: Seq<char>,
    uid: u32,
    needed: bool,
)
    ensures
        ({
            let said = |step: StepView, part: Part| crate::forker::blamed(step, part);
            &&& said(Step::HoldNetwork, Part::Main) == Some("/proc/self/ns/net"@)
            &&& said(Step::Clone { tree, path, attrs, needed }, Part::Main) == Some(path)
            &&& said(Step::SetTop { tree, path, attrs }, Part::Main) == Some(path)
            &&& said(Step::MapOwner { base: path, uid }, Part::Owner) == Some(path)
            &&& said(Step::MapOwner { base: path, uid }, Part::Main) == Some(
                "folders' user namespace"@,
            )
            &&& said(Step::IdMap { tree, name }, Part::Main) == Some(
                "folder "@ + quoted(name) + ": idmap"@,
            )
            &&& said(Step::NoNewPrivs, Part::Main) == Some("no_new_privs"@)
            &&& said(Step::RejoinNetwork, Part::Main) == Some("rejoin the network"@)
            &&& said(Step::ActAs { uid }, Part::Main) == Some("euid "@ + decimal(uid as nat))
            &&& said(Step::ActAsSelf, Part::Main) == Some("euid back"@)
            &&& said(Step::Mount { tree, at: path }, Part::Dir) == Some("mkdir "@ + path)
            &&& said(Step::Mount { tree, at: path }, Part::Attach) == Some("mount "@ + path)
            &&& said(Step::CloneState { name, attrs }, Part::Main) == Some("state/"@ + name)
            &&& said(Step::EnterCgroup { name }, Part::Procs) == Some("cgroup.procs"@)
            &&& said(Step::EnterCgroup { name }, Part::Dir) == Some("cgroup"@)
            &&& said(Step::UnshareCgroup, Part::Main) == Some("cgroup namespace"@)
            &&& said(Step::LockSecurebits, Part::Main) is None
            &&& said(Step::Unshare, Part::Main) is None
            &&& said(Step::Switch { uid }, Part::Main) is None
        }),
{
}

/// The child acts as the app from the step that says so to the one that takes it back.
pub proof fn the_child_acts_as_the_app_between(steps: Seq<StepView>, s: int, n: int)
    requires
        0 <= s < n <= steps.len(),
        forall|k: int| s < k < n ==> !(#[trigger] steps[k] is ActAs) && !(steps[k] is ActAsSelf),
    ensures
        steps[s] is ActAs ==> crate::forker::acts_as_app(steps, n),
        steps[s] is ActAsSelf ==> !crate::forker::acts_as_app(steps, n),
        !crate::forker::acts_as_app(steps, 0),
    decreases n,
{
    if n - 1 > s {
        assert(!(steps[n - 1] is ActAs) && !(steps[n - 1] is ActAsSelf));
        the_child_acts_as_the_app_between(steps, s, n - 1);
    }
}

/// A command is looked for in the directories of the path in their order, empty ones left out.
pub proof fn commands_are_looked_for_in_order(name: Seq<char>, dirs: Seq<Seq<char>>, dir: Seq<char>)
    requires
        !name.contains('/'),
        dirs.len() > 0,
        forall|i: int| 0 <= i < dirs.len() ==> !(#[trigger] dirs[i]).contains(':'),
        !dir.contains(':'),
    ensures
        ({
            let before = exe_candidates(name, crate::text::joined(dirs, seq![':']));
            let now = exe_candidates(name, crate::text::joined(dirs.push(dir), seq![':']));
            &&& dir.len() > 0 ==> now == before.push(path_under(dir, name))
            &&& dir.len() == 0 ==> now == before
        }),
{
    let full = |d: Seq<char>| d.len() > 0;
    let under = |d: Seq<char>| path_under(d, name);
    let more = dirs.push(dir);
    assert forall|i: int| 0 <= i < more.len() implies !(#[trigger] more[i]).contains(':') by {
        if i < dirs.len() {
            assert(more[i] == dirs[i]);
        }
    }
    crate::text::joined_comes_apart(dirs, ':');
    crate::text::joined_comes_apart(more, ':');
    assert(more.drop_last() =~= dirs);
    let some = kept(dirs, full);
    if dir.len() > 0 {
        assert(some.push(dir).map_values(under) =~= some.map_values(under).push(
            path_under(dir, name),
        ));
    }
}

/// A NUL in the environment keeps a command from being run, where nothing else does.
pub proof fn a_nul_in_the_environment_is_refused(launch: Launch, i: int)
    requires
        launch.argv@.len() > 0,
        !launch.network,
        forall|k: int| 0 <= k < launch.argv@.len() ==> !(#[trigger] launch.argv@[k])@.contains('\0'),
        0 <= i < launch.env@.len(),
        launch.env@[i].0@.contains('\0') || launch.env@[i].1@.contains('\0'),
    ensures
        command_fault(launch, true, false) == Some("NUL in env"@),
{
    let argv = views(launch.argv@);
    assert forall|k: int| 0 <= k < argv.len() implies crate::forker::no_nul(#[trigger] argv[k]) by {
        assert(argv[k] == launch.argv@[k]@);
    }
    let env = views(launch.env@);
    let list = crate::forker::env_strings(env);
    assert(env[i] == launch.env@[i]@);
    let s = list[i];
    let a = launch.env@[i].0@;
    let b = launch.env@[i].1@;
    assert(s == a + "="@ + b);
    if a.contains('\0') {
        let k = choose|k: int| 0 <= k < a.len() && a[k] == '\0';
        assert(s[k] == '\0');
    } else {
        let k = choose|k: int| 0 <= k < b.len() && b[k] == '\0';
        assert(s[a.len() + "="@.len() + k] == '\0');
    }
    assert(!crate::forker::no_nul(list[i]));
}

/// A range that does not read as two numbers is refused for the first that does not.
pub proof fn bad_ranges_are_refused(start: Seq<char>, count: Seq<char>)
    requires
        !start.contains(':'),
    ensures
        ({
            let r = range_of(start + seq![':'] + count);
            let a = unsigned(start, u32::MAX as nat);
            let b = unsigned(count, u32::MAX as nat);
            &&& a is None ==> r == Err::<(nat, nat), Seq<char>>(
                "--range "@ + quoted(start) + ": "@ + crate::text::u32_fault(start),
            )
            &&& a is Some && b is None ==> r == Err::<(nat, nat), Seq<char>>(
                "--range "@ + quoted(count) + ": "@ + crate::text::u32_fault(count),
            )
            &&& a is Some && b is Some && a->0 > 0 ==> r == Ok::<(nat, nat), Seq<char>>(
                (a->0, b->0),
            )
        }),
{
    crate::text::a_text_is_cut_at_the_first(start, ':', count);
}

} // verus!
