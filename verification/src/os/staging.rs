//! What a staged root shows of the host, and the calls that stage it.
use vstd::prelude::*;

use super::mounts::Attrs;
use super::path::{
    above, ancestors, below_run, comps, has_path, is_below, paths_go_on_from_the_root,
};
use super::root;
use super::sandbox::{
    self, all_exposed, exposed, made_binds, made_dirs, made_links, sandbox_calls, sandbox_head,
    sandbox_tail, Exposed, Sandbox, Sys, SysView, What,
};
use super::sandbox_root::{
    root_head, root_plan, root_tail, staged, step_calls, steps_calls, viewed, with_etc, with_run,
    with_runs, with_views, Fact, HostView, Planned, RootSpec, Step, StepView,
};
use crate::text::path_under;
use crate::views::{view_opt, views};

verus! {

/// A place is staged below the new root, at its own path.
pub proof fn places_are_staged_at_their_paths(s: Seq<char>)
    requires
        super::path::is_neat(s),
    ensures
        staged(seq!['/'] + s) == "/dev/shm/.root/"@ + s,
{
    paths_go_on_from_the_root(s);
    reveal_strlit("/dev/shm/.root");
    reveal_strlit("/dev/shm/.root/");
    assert("/dev/shm/.root"@.push('/') =~= "/dev/shm/.root/"@);
}

/// A step that only makes directories changes nothing else.
proof fn lemma_dirs(p: Planned, list: Seq<Seq<char>>, s: StepView)
    requires
        !(s is Dir),
    ensures
        p.dirs(list).steps.contains(s) <==> p.steps.contains(s),
        p.dirs(list).fault is None ==> p.fault is None,
    decreases list.len(),
{
    if list.len() > 0 {
        lemma_dirs(p, list.drop_last(), s);
        let q = p.dirs(list.drop_last());
        let path = list.last();
        vstd::seq_lib::lemma_seq_contains_after_push(q.steps, Step::Dir(path), s);
    }
}

proof fn lemma_step(p: Planned, step: StepView, s: StepView)
    requires
        p.step(step).fault is None,
    ensures
        p.fault is None,
        p.step(step).steps.contains(s) <==> p.steps.contains(s) || s == step,
{
    vstd::seq_lib::lemma_seq_contains_after_push(p.steps, step, s);
}

proof fn lemma_bind(p: Planned, src: Seq<char>, at: Fact, dst: Seq<char>, attrs: Attrs, s: StepView)
    requires
        p.bind(src, at, dst, attrs).fault is None,
        !(s is Dir),
        !(s is File),
    ensures
        p.fault is None,
        !(at is Missing),
        p.bind(src, at, dst, attrs).steps.contains(s) <==> p.steps.contains(s) || s == (Step::Bind {
            src,
            dst,
            attrs,
        }),
{
    let q = match at {
        Fact::Missing(err) => p.fails(src + ": "@ + err@),
        Fact::Dir => p.dir(dst),
        Fact::File => p.dirs(above(dst)).checked(dst).step(Step::File(dst)),
    };
    lemma_dirs(p, ancestors(dst), s);
    lemma_dirs(p, above(dst), s);
    lemma_step(q.checked(src).checked(dst), Step::Bind { src, dst, attrs }, s);
    match at {
        Fact::File => {
            lemma_step(p.dirs(above(dst)).checked(dst), Step::File(dst), s);
        },
        _ => {},
    }
}

proof fn lemma_viewed(
    p: Planned,
    dir: Seq<char>,
    src: Seq<char>,
    v: HostView,
    at: Seq<char>,
    attrs: Attrs,
    s: StepView,
)
    requires
        viewed(p, dir, src, v, at, attrs).fault is None,
        !(s is Dir),
        !(s is File),
    ensures
        p.fault is None,
        v.there,
        viewed(p, dir, src, v, at, attrs).steps.contains(s) <==> p.steps.contains(s) || s
            == (Step::Bind { src, dst: staged(at), attrs }),
{
    let q = if v.there { p } else { p.fails(super::sandbox_root::no_view(dir)) };
    lemma_bind(q, src, v.at, staged(at), attrs, s);
}

/// What the app's `/etc` adds: itself, sealed, and over its `resolv.conf` the host's where the
/// app has the network.
pub open spec fn of_etc(spec: RootSpec, s: StepView) -> bool {
    let sealed = Attrs { rdonly: true, nosuid: true, nodev: true, noexec: true };
    &&& spec.etc is Some
    &&& spec.etc->0.followed is Ok
    &&& {
        ||| s == (Step::Bind {
            src: spec.etc->0.followed->Ok_0@,
            dst: staged("/etc"@),
            attrs: sealed,
        })
        ||| spec.network && spec.etc->0.resolv && spec.resolv is Some && s == (Step::Bind {
            src: (spec.resolv->0).0@,
            dst: staged("/etc/resolv.conf"@),
            attrs: sealed,
        })
    }
}

proof fn lemma_etc(p: Planned, spec: RootSpec, s: StepView)
    requires
        with_etc(p, spec).fault is None,
        !(s is Dir),
        !(s is File),
    ensures
        p.fault is None,
        spec.etc is Some ==> spec.etc->0.followed is Ok && is_below(
            spec.etc->0.followed->Ok_0@,
            spec.store@,
        ),
        with_etc(p, spec).steps.contains(s) <==> p.steps.contains(s) || of_etc(spec, s),
{
    let sealed = Attrs { rdonly: true, nosuid: true, nodev: true, noexec: true };
    if let Some(etc) = spec.etc {
        if let Ok(path) = etc.followed {
            if is_below(path@, spec.store@) {
                let bound = p.bind(path@, etc.at, staged("/etc"@), sealed);
                if let Some((resolv, at)) = spec.resolv {
                    if spec.network && etc.resolv {
                        lemma_bind(bound, resolv@, at, staged("/etc/resolv.conf"@), sealed, s);
                    }
                }
                lemma_bind(p, path@, etc.at, staged("/etc"@), sealed, s);
            }
        }
    }
}

/// What the host's views add: its devices at "/dev", the graphics for an app that has them, a
/// memory to share, a sealed view of "/sys", and the processes.
pub open spec fn of_views(spec: RootSpec, s: StepView) -> bool {
    let nodes = Attrs { rdonly: true, nosuid: true, nodev: false, noexec: true };
    let sealed = Attrs { rdonly: true, nosuid: true, nodev: true, noexec: true };
    ||| s == (Step::Bind {
        src: path_under(spec.views@, "dev"@),
        dst: staged("/dev"@),
        attrs: nodes,
    })
    ||| spec.gpu && s == (Step::Bind {
        src: path_under(path_under(spec.views@, "dev-gpu"@), "dri"@),
        dst: staged("/dev/dri"@),
        attrs: nodes,
    })
    ||| s == (Step::Tmpfs { dst: staged("/dev/shm"@), data: "mode=1777"@ })
    ||| s == (Step::Bind {
        src: path_under(
            spec.views@,
            if spec.gpu {
                "sys-gpu"@
            } else {
                "sys"@
            },
        ),
        dst: staged("/sys"@),
        attrs: sealed,
    })
    ||| s == Step::Proc(staged("/proc"@))
}

proof fn lemma_views(p: Planned, spec: RootSpec, s: StepView)
    requires
        with_views(p, spec).fault is None,
        !(s is Dir),
        !(s is File),
    ensures
        p.fault is None,
        with_views(p, spec).steps.contains(s) <==> p.steps.contains(s) || of_views(spec, s),
{
    let nodes = Attrs { rdonly: true, nosuid: true, nodev: false, noexec: true };
    let sealed = Attrs { rdonly: true, nosuid: true, nodev: true, noexec: true };
    let dev = path_under(spec.views@, "dev"@);
    let a = viewed(p, dev, dev, spec.dev, "/dev"@, nodes);
    let gpu = path_under(spec.views@, "dev-gpu"@);
    let b = if spec.gpu {
        viewed(a, gpu, path_under(gpu, "dri"@), spec.dri, "/dev/dri"@, nodes)
    } else {
        a
    };
    let shm = staged("/dev/shm"@);
    let c0 = b.dir(shm).checked(shm);
    let c = c0.step(Step::Tmpfs { dst: shm, data: "mode=1777"@ });
    let sys = path_under(spec.views@, if spec.gpu { "sys-gpu"@ } else { "sys"@ });
    let d = viewed(c, sys, sys, spec.sys, "/sys"@, sealed);
    let pr = staged("/proc"@);
    lemma_step(d.dir(pr).checked(pr), Step::Proc(pr), s);
    lemma_dirs(d, ancestors(pr), s);
    lemma_viewed(c, sys, sys, spec.sys, "/sys"@, sealed, s);
    lemma_step(c0, Step::Tmpfs { dst: shm, data: "mode=1777"@ }, s);
    lemma_dirs(b, ancestors(shm), s);
    if spec.gpu {
        lemma_viewed(a, gpu, path_under(gpu, "dri"@), spec.dri, "/dev/dri"@, nodes, s);
    }
    lemma_viewed(p, dev, dev, spec.dev, "/dev"@, nodes, s);
}

/// What an entry of `/run` adds: a directory is bound at its own path, writable but with nothing
/// to run; a link is made anew.
pub open spec fn of_run(entry: Exposed, s: StepView) -> bool {
    &&& below_run(entry.path@) is Some
    &&& {
        let dst = path_under(staged("/run"@), below_run(entry.path@)->0);
        ||| entry.what is Dir && s == (Step::Bind {
            src: entry.path@,
            dst,
            attrs: Attrs { rdonly: false, nosuid: true, nodev: true, noexec: true },
        })
        ||| entry.what is Link && s == (Step::Symlink {
            target: entry.what->Link_0@,
            link: dst,
        })
    }
}

proof fn lemma_run(p: Planned, entry: Exposed, s: StepView)
    requires
        with_run(p, entry).fault is None,
        !(s is Dir),
        !(s is File),
    ensures
        p.fault is None,
        with_run(p, entry).steps.contains(s) <==> p.steps.contains(s) || of_run(entry, s),
{
    if let Some(rel) = below_run(entry.path@) {
        let dst = path_under(staged("/run"@), rel);
        match entry.what {
            What::Link(target) => {
                let q = p.dirs(above(dst)).checked(target@).checked(dst);
                lemma_step(q, Step::Symlink { target: target@, link: dst }, s);
                lemma_dirs(p, above(dst), s);
            },
            What::Dir => {
                lemma_bind(
                    p,
                    entry.path@,
                    Fact::Dir,
                    dst,
                    Attrs { rdonly: false, nosuid: true, nodev: true, noexec: true },
                    s,
                );
            },
            _ => {},
        }
    }
}

proof fn lemma_runs(p: Planned, entries: Seq<Exposed>, s: StepView)
    requires
        with_runs(p, entries).fault is None,
        !(s is Dir),
        !(s is File),
    ensures
        p.fault is None,
        with_runs(p, entries).steps.contains(s) <==> p.steps.contains(s) || exists|i: int|
            0 <= i < entries.len() && of_run(#[trigger] entries[i], s),
    decreases entries.len(),
{
    if entries.len() > 0 {
        let front = entries.drop_last();
        lemma_run(with_runs(p, front), entries.last(), s);
        lemma_runs(p, front, s);
        if exists|i: int| 0 <= i < front.len() && of_run(#[trigger] front[i], s) {
            let i = choose|i: int| 0 <= i < front.len() && of_run(#[trigger] front[i], s);
            assert(entries[i] == front[i]);
        }
        if exists|i: int| 0 <= i < entries.len() && of_run(#[trigger] entries[i], s) {
            let i = choose|i: int| 0 <= i < entries.len() && of_run(#[trigger] entries[i], s);
            if i < front.len() {
                assert(entries[i] == front[i]);
            }
        }
        if of_run(entries.last(), s) {
            assert(of_run(entries[entries.len() - 1], s));
        }
    }
}

/// What a root shows, and all it shows: the store at its own path, the app's `/etc`, the host's
/// views, its home at its own path, its own `/tmp`, and the entries of `/run` it was given.
/// Each is there where the plan is sound, and nothing else is bound, linked or mounted.
pub proof fn a_root_shows_this_and_nothing_else(spec: RootSpec, s: StepView)
    requires
        root_plan(spec).fault is None,
        !(s is Dir),
        !(s is File),
    ensures
        root_plan(spec).steps.contains(s) <==> {
            let closed = Attrs { rdonly: false, nosuid: true, nodev: true, noexec: true };
            ||| s == (Step::Bind {
                src: spec.store@,
                dst: staged(spec.store@),
                attrs: Attrs { rdonly: true, nosuid: true, nodev: true, noexec: false },
            })
            ||| of_etc(spec, s)
            ||| of_views(spec, s)
            ||| s == (Step::Bind { src: spec.home@, dst: staged(spec.home@), attrs: closed })
            ||| s == (Step::Bind { src: spec.tmp@, dst: staged("/tmp"@), attrs: closed })
            ||| exists|i: int|
                0 <= i < spec.run_expose@.len() && of_run(#[trigger] spec.run_expose@[i], s)
        },
{
    let closed = Attrs { rdonly: false, nosuid: true, nodev: true, noexec: true };
    let open = Attrs { rdonly: true, nosuid: true, nodev: true, noexec: false };
    let none = Planned::empty();
    let store = none.bind(spec.store@, spec.store_at, staged(spec.store@), open);
    let etc = with_etc(store, spec);
    let host = with_views(etc, spec);
    let home = host.bind(spec.home@, spec.home_at, staged(spec.home@), closed);
    let own = home.bind(spec.tmp@, spec.tmp_at, staged("/tmp"@), closed);
    let ready = own.dir(staged("/run"@));
    let all = with_runs(ready, spec.run_expose@);
    lemma_dirs(all, ancestors(staged("/.old"@)), s);
    lemma_runs(ready, spec.run_expose@, s);
    lemma_dirs(own, ancestors(staged("/run"@)), s);
    lemma_bind(home, spec.tmp@, spec.tmp_at, staged("/tmp"@), closed, s);
    lemma_bind(host, spec.home@, spec.home_at, staged(spec.home@), closed, s);
    lemma_views(etc, spec, s);
    lemma_etc(store, spec, s);
    lemma_bind(none, spec.store@, spec.store_at, staged(spec.store@), open, s);
}

/// What keeps a root from being planned: a path that is missing, an `/etc` that is not of the
/// store, a view of the host that was not made; and the first of them is told.
pub proof fn a_root_fails_for_a_reason(
    p: Planned,
    spec: RootSpec,
    src: Seq<char>,
    err: String,
    dst: Seq<char>,
    attrs: Attrs,
    dir: Seq<char>,
    v: HostView,
    at: Seq<char>,
)
    requires
        p.fault is None,
    ensures
        p.bind(src, Fact::Missing(err), dst, attrs).fault == Some(src + ": "@ + err@),
        !v.there ==> viewed(p, dir, src, v, at, attrs).fault == Some(
            "host view "@ + dir + " is missing (drv-host-views not run?)"@,
        ),
        spec.etc is Some && spec.etc->0.followed is Err ==> with_etc(p, spec).fault == Some(
            "etc "@ + spec.etc->0.given@ + ": "@ + spec.etc->0.followed->Err_0@,
        ),
        spec.etc is Some && spec.etc->0.followed is Ok && !is_below(
            spec.etc->0.followed->Ok_0@,
            spec.store@,
        ) ==> with_etc(p, spec).fault == Some(
            "etc "@ + spec.etc->0.followed->Ok_0@ + ": not in the store"@,
        ),
        spec.etc is None ==> with_etc(p, spec) == p,
        src.contains('\0') ==> p.checked(src).fault == Some("NUL in "@ + src),
{
    let q = p.fails(super::sandbox_root::no_view(dir));
    lemma_fault_stays(q, ancestors(staged(at)));
    lemma_fault_stays(q, above(staged(at)));
}

proof fn lemma_fault_stays(p: Planned, list: Seq<Seq<char>>)
    requires
        p.fault is Some,
    ensures
        p.dirs(list).fault == p.fault,
    decreases list.len(),
{
    if list.len() > 0 {
        lemma_fault_stays(p, list.drop_last());
    }
}

/// What keeps an entry of `/run` out: a path that is not below it, all of it, what is missing or
/// cannot be read, and what is neither a directory nor a link.
pub proof fn run_entries_fail_for_a_reason(p: Planned, entry: Exposed)
    requires
        p.fault is None,
    ensures
        ({
            let fault = with_run(p, entry).fault;
            let rel = below_run(entry.path@);
            &&& rel is None ==> fault == Some("expose "@ + entry.path@ + ": not under /run"@)
            &&& rel is Some && rel->0.len() == 0 ==> fault == Some(
                "expose /run: exposing everything defeats the sandbox"@,
            )
            &&& rel is Some && rel->0.len() > 0 ==> match entry.what {
                What::Missing(err) => fault == Some("expose "@ + entry.path@ + ": "@ + err@),
                What::Unread(err) => fault == Some("readlink "@ + entry.path@ + ": "@ + err@),
                What::Other => fault == Some(
                    "expose "@ + entry.path@ + ": only directories and symlinks"@,
                ),
                _ => true,
            }
        }),
        ({
            let q = sandbox::Planned {
                dirs: Seq::empty(),
                binds: Seq::empty(),
                symlinks: Seq::empty(),
                fault: None,
            };
            let fault = exposed(q, entry).fault;
            let rel = below_run(entry.path@);
            &&& rel is None ==> fault == Some("expose "@ + entry.path@ + ": not under /run"@)
            &&& rel is Some && rel->0.len() == 0 ==> fault == Some(
                "expose /run: exposing everything defeats the sandbox"@,
            )
        }),
{
}

proof fn lemma_parents(p: sandbox::Planned, list: Seq<Seq<char>>)
    ensures
        p.parents(list).binds == p.binds,
        p.parents(list).symlinks == p.symlinks,
        p.parents(list).fault is None ==> p.fault is None,
    decreases list.len(),
{
    if list.len() > 0 {
        lemma_parents(p, list.drop_last());
    }
}

/// An entry that is kept is staged at its path below `/run`: a directory bound there, a link
/// made anew; and nothing of what was kept before changes.
pub proof fn kept_entries_are_staged(p: sandbox::Planned, entry: Exposed)
    requires
        exposed(p, entry).fault is None,
    ensures
        ({
            let q = exposed(p, entry);
            let at = path_under("/dev/shm/.run"@, below_run(entry.path@)->0);
            &&& p.fault is None
            &&& below_run(entry.path@) is Some
            &&& entry.what is Dir || entry.what is Link
            &&& entry.what is Dir ==> q.binds == p.binds.push((entry.path@, at)) && q.symlinks
                == p.symlinks
            &&& entry.what is Link ==> q.symlinks == p.symlinks.push((entry.what->Link_0@, at))
                && q.binds == p.binds
        }),
{
    let at = path_under("/dev/shm/.run"@, below_run(entry.path@)->0);
    lemma_parents(p, above(at));
}

/// The entries are kept in their order, each once.
pub proof fn entries_are_kept_in_order(entries: Seq<Exposed>, entry: Exposed)
    ensures
        all_exposed(Seq::empty()).binds.len() == 0,
        all_exposed(Seq::empty()).symlinks.len() == 0,
        all_exposed(Seq::empty()).dirs.len() == 0,
        all_exposed(Seq::empty()).fault is None,
        all_exposed(entries.push(entry)) == exposed(all_exposed(entries), entry),
        all_exposed(entries).fault is Some ==> all_exposed(entries.push(entry)).fault
            == all_exposed(entries).fault,
{
    assert(entries.push(entry).drop_last() =~= entries);
}

/// A private mount of the kernel's, with no set-id bits and no device nodes.
pub open spec fn fresh_tmpfs(dst: Seq<char>, data: Seq<char>, step: Seq<char>) -> SysView {
    Sys::Mount {
        src: Some("tmpfs"@),
        dst,
        fs: Some("tmpfs"@),
        flags: 6,
        data: Some(data),
        step,
    }
}

/// The calls of a sandbox: namespaces of its own, with no network where it has none, nothing
/// seen outside; its own `/tmp`, shared memory and processes; what was planned of `/run` staged
/// as it was planned; and the stage made `/run`, read-only.
pub proof fn a_sandbox_takes_these_calls(s: Sandbox, i: int)
    ensures
        ({
            let calls = sandbox_calls(s);
            let h: int = if s.tmp is Some { 8 } else { 7 };
            let d = s.dirs@.len() as int;
            let b = s.binds@.len() as int;
            let l = s.symlinks@.len() as int;
            &&& calls.len() == h + d + b + l + 3
            &&& calls[0] == (SysView::Unshare {
                net: s.no_network,
                step: "unshare(CLONE_NEWNS | CLONE_NEWNET)"@,
            })
            &&& calls[1] == (SysView::Mount {
                src: Some("none"@),
                dst: "/"@,
                fs: None,
                flags: 278528,
                data: None,
                step: "make / private"@,
            })
            &&& s.tmp is None ==> calls[2] == fresh_tmpfs(
                "/tmp"@,
                "mode=1777"@,
                "tmpfs on /tmp"@,
            )
            &&& s.tmp is Some ==> calls[2] == (SysView::Mount {
                src: Some(s.tmp->0@),
                dst: "/tmp"@,
                fs: None,
                flags: 4096,
                data: None,
                step: "bind own /tmp"@,
            })
            &&& s.tmp is Some ==> calls[3] == (SysView::Mount {
                src: Some("none"@),
                dst: "/tmp"@,
                fs: None,
                flags: 4134,
                data: None,
                step: "remount own /tmp nosuid"@,
            })
            &&& calls[h - 4] == fresh_tmpfs("/dev/shm"@, "mode=1777"@, "tmpfs on /dev/shm"@)
            &&& calls[h - 3] == (SysView::Mount {
                src: Some("proc"@),
                dst: "/proc"@,
                fs: Some("proc"@),
                flags: 14,
                data: Some("hidepid=invisible"@),
                step: "proc with hidepid"@,
            })
            &&& calls[h - 2] == (SysView::Mkdir {
                path: "/dev/shm/.run"@,
                again: false,
                step: "mkdir stage"@,
            })
            &&& calls[h - 1] == fresh_tmpfs("/dev/shm/.run"@, "mode=0755"@, "tmpfs on stage"@)
            &&& 0 <= i < d ==> calls[h + i] == (SysView::Mkdir {
                path: s.dirs@[i]@,
                again: true,
                step: "mkdir in stage"@,
            })
            &&& 0 <= i < b ==> calls[h + d + i] == (SysView::Mount {
                src: Some(s.binds@[i].0@),
                dst: s.binds@[i].1@,
                fs: None,
                flags: 20480,
                data: None,
                step: "bind mount into stage"@,
            })
            &&& 0 <= i < l ==> calls[h + d + b + i] == (SysView::Symlink {
                target: s.symlinks@[i].0@,
                link: s.symlinks@[i].1@,
                step: "symlink in stage"@,
            })
            &&& calls[calls.len() - 3] == (SysView::Mount {
                src: Some("/dev/shm/.run"@),
                dst: "/run"@,
                fs: None,
                flags: 8192,
                data: None,
                step: "move stage to /run"@,
            })
            &&& calls[calls.len() - 2] == (SysView::Rmdir { path: "/dev/shm/.run"@, said: None })
            &&& calls[calls.len() - 1] == (SysView::Mount {
                src: Some("none"@),
                dst: "/run"@,
                fs: None,
                flags: 4135,
                data: None,
                step: "remount /run read-only"@,
            })
        }),
{
    let calls = sandbox_calls(s);
    let head = sandbox_head(s.no_network, view_opt(s.tmp));
    let dirs = made_dirs(views(s.dirs@));
    let binds = made_binds(views(s.binds@));
    let links = made_links(views(s.symlinks@));
    let tail = sandbox_tail();
    let h: int = if s.tmp is Some { 8 } else { 7 };
    assert(head.len() == h);
    assert(calls[0] == head[0] && calls[1] == head[1] && calls[2] == head[2] && calls[3]
        == head[3]);
    assert(calls[h - 4] == head[h - 4] && calls[h - 3] == head[h - 3] && calls[h - 2] == head[h - 2]
        && calls[h - 1] == head[h - 1]);
    if 0 <= i < dirs.len() {
        assert(calls[h + i] == dirs[i]);
    }
    if 0 <= i < binds.len() {
        assert(calls[h + dirs.len() + i] == binds[i]);
        assert(views(s.binds@)[i] == s.binds@[i]@);
    }
    if 0 <= i < links.len() {
        assert(calls[h + dirs.len() + binds.len() + i] == links[i]);
        assert(views(s.symlinks@)[i] == s.symlinks@[i]@);
    }
    let n = calls.len();
    assert(calls[n - 3] == tail[0] && calls[n - 2] == tail[1] && calls[n - 1] == tail[2]);
}

/// What a step of a root takes: a bind is made and then remounted with just its flags, a tmpfs
/// and the processes are mounted with none that could harm, a directory that is there is fine,
/// and links and files are made as they are.
pub proof fn a_step_takes_these_calls(
    path: Seq<char>,
    src: Seq<char>,
    attrs: Attrs,
    data: Seq<char>,
)
    ensures
        step_calls(Step::Dir(path)) == seq![
            SysView::Mkdir { path, again: true, step: "mkdir"@ },
        ],
        step_calls(Step::File(path)) == seq![
            SysView::Touch { path, step: "create file mountpoint"@ },
        ],
        step_calls(Step::Symlink { target: src, link: path }) == seq![
            SysView::Symlink { target: src, link: path, step: "symlink"@ },
        ],
        step_calls(Step::Tmpfs { dst: path, data }) == seq![fresh_tmpfs(path, data, "tmpfs"@)],
        step_calls(Step::Proc(path)) == seq![
            SysView::Mount {
                src: Some("proc"@),
                dst: path,
                fs: Some("proc"@),
                flags: 14,
                data: Some("hidepid=invisible"@),
                step: "proc"@,
            },
        ],
        ({
            let calls = step_calls(Step::Bind { src, dst: path, attrs });
            &&& calls.len() == 2
            &&& calls[0] == (SysView::Mount {
                src: Some(src),
                dst: path,
                fs: None,
                flags: 20480,
                data: None,
                step: "bind"@,
            })
            &&& calls[1] is Mount
            &&& calls[1]->Mount_src is None
            &&& calls[1]->dst == path
            &&& calls[1]->flags == 4128 + (if attrs.rdonly { 1int } else { 0 }) + (
            if attrs.nosuid { 2int } else { 0 }) + (if attrs.nodev { 4int } else { 0 }) + (
            if attrs.noexec { 8int } else { 0 })
        }),
{
}

/// Each step of a root has its calls among those of all, in order.
pub proof fn every_step_is_taken(steps: Seq<StepView>, step: StepView)
    ensures
        steps_calls(Seq::empty()).len() == 0,
        steps_calls(steps.push(step)) == steps_calls(steps) + step_calls(step),
{
    assert(steps.push(step).drop_last() =~= steps);
}

/// What is done around the steps: namespaces of its own, a stage that nobody else sees; and
/// then the stage becomes the root, the old root goes, and the top of the new one is read-only.
pub proof fn the_old_root_goes(no_network: bool)
    ensures
        root_head(no_network) == seq![
            SysView::Unshare { net: no_network, step: "unshare"@ },
            SysView::Mount {
                src: Some("none"@),
                dst: "/"@,
                fs: None,
                flags: 278528,
                data: None,
                step: "make / private"@,
            },
            fresh_tmpfs("/dev/shm"@, "mode=0755"@, "tmpfs on /dev/shm"@),
            SysView::Mkdir { path: "/dev/shm/.root"@, again: false, step: "mkdir the new root"@ },
            fresh_tmpfs("/dev/shm/.root"@, "mode=0755"@, "tmpfs for the new root"@),
        ],
        root_tail() == seq![
            SysView::Chdir { path: "/dev/shm/.root"@, step: "chdir to the new root"@ },
            SysView::PivotRoot { new: "."@, old: ".old"@, step: "pivot_root"@ },
            SysView::Chdir { path: "/"@, step: "chdir /"@ },
            SysView::Detach { path: "/.old"@, step: "detach the old root"@ },
            SysView::Rmdir { path: "/.old"@, said: Some("rmdir /.old"@) },
            SysView::Mount {
                src: None,
                dst: "/"@,
                fs: None,
                flags: 4135,
                data: None,
                step: "remount / read-only"@,
            },
        ],
{
}

/// A mount and a link of a plan are added last, at the path they are for, once the directories
/// above it are made; nothing of what was planned before goes.
pub proof fn plans_grow_at_the_end(
    p: root::Planned,
    fd: u64,
    target: Seq<char>,
    at: Seq<char>,
)
    ensures
        p.mount(fd, at).fault is None ==> p.fault is None && p.mount(fd, at).steps.len()
            > p.steps.len() && p.mount(fd, at).steps.last() == root::Step::<Seq<char>>::Mount(
            fd,
            at,
        ) && p.mount(fd, at).steps.take(p.steps.len() as int) == p.steps,
        p.symlink(target, at).fault is None ==> p.fault is None && p.symlink(
            target,
            at,
        ).steps.len() > p.steps.len() && p.symlink(target, at).steps.last() == root::Step::<
            Seq<char>,
        >::Link(target, at) && p.symlink(target, at).steps.take(p.steps.len() as int) == p.steps,
        p.fault is None && at.contains('\0') ==> p.mount(fd, at).fault is Some,
{
    lemma_root_dirs(p, ancestors(at));
    lemma_root_dirs(p, above(at));
    let n = p.steps.len() as int;
    let a = p.dirs(ancestors(at));
    let b = p.dirs(above(at));
    if p.mount(fd, at).fault is None {
        assert(p.mount(fd, at).steps.take(n) =~= a.steps.take(n));
    }
    if p.symlink(target, at).fault is None {
        assert(p.symlink(target, at).steps.take(n) =~= b.steps.take(n));
    }
}

proof fn lemma_root_dirs(p: root::Planned, list: Seq<Seq<char>>)
    ensures
        p.dirs(list).fault is None ==> p.fault is None,
        p.dirs(list).steps.len() >= p.steps.len(),
        p.dirs(list).steps.take(p.steps.len() as int) == p.steps,
    decreases list.len(),
{
    let n = p.steps.len() as int;
    if list.len() == 0 {
        assert(p.steps.take(n) =~= p.steps);
    } else {
        lemma_root_dirs(p, list.drop_last());
        let q = p.dirs(list.drop_last());
        assert(p.dirs(list).steps.take(n) =~= q.steps.take(n));
    }
}

/// What a child does with each step of a plan, and how the new root is put in: hung on the
/// base, gone into, and pivoted to.
pub proof fn plans_are_built_step_by_step(
    path: Seq<char>,
    target: Seq<char>,
    fd: u64,
)
    ensures
        root::built(root::Step::Dir(path)) == (root::BuildView::Mkdir {
            path,
            said: "root: "@ + "mkdir"@ + " "@ + path,
        }),
        root::built(root::Step::Mount(fd, path)) == (root::BuildView::Attach {
            fd,
            at: path,
            said: "root: "@ + "mount"@ + " "@ + path,
        }),
        root::built(root::Step::Link(target, path)) == (root::BuildView::Symlink {
            target,
            at: path,
            said: "root: "@ + "symlink"@ + " "@ + path,
        }),
        root::pivoted(path) == seq![
            root::BuildView::Hang { at: path, said: "root: attach root"@ },
            root::BuildView::Chdir { path, said: "root: chdir base"@ },
            root::BuildView::Pivot { said: "root: pivot_root"@ },
            root::BuildView::Chdir { path: "/"@, said: "root: chdir /"@ },
        ],
{
}

/// A directory is bound on a directory of its own, and a file on a file of its own, made before
/// it.
pub proof fn binds_have_something_to_go_on(
    p: Planned,
    src: Seq<char>,
    dst: Seq<char>,
    attrs: Attrs,
)
    ensures
        p.bind(src, Fact::File, dst, attrs).fault is None ==> {
            let steps = p.bind(src, Fact::File, dst, attrs).steps;
            &&& steps.len() >= 2
            &&& steps[steps.len() - 2] == Step::<Seq<char>>::File(dst)
            &&& steps.last() == (Step::Bind { src, dst, attrs })
        },
        p.bind(src, Fact::Dir, dst, attrs).fault is None ==> p.bind(
            src,
            Fact::Dir,
            dst,
            attrs,
        ).steps.last() == (Step::Bind { src, dst, attrs }),
        p.bind(src, Fact::Dir, dst, attrs).fault is None && is_below(dst, "/dev/shm/.root"@)
            && comps(dst) != comps("/dev/shm/.root"@) ==> has_path(
            p.bind(src, Fact::Dir, dst, attrs).seen,
            dst,
        ),
{
    if is_below(dst, "/dev/shm/.root"@) && comps(dst) != comps("/dev/shm/.root"@) {
        super::path::ancestors_lead_to_the_path(dst);
        let list = ancestors(dst);
        let q = p.dirs(list.drop_last());
        lemma_has_path(q, dst);
    }
}

proof fn lemma_has_path(p: Planned, path: Seq<char>)
    ensures
        p.made(path).fault is None ==> has_path(p.made(path).seen, path),
{
    if p.made(path).fault is None && !has_path(p.seen, path) {
        let now = p.made(path).seen;
        assert(now[p.seen.len() as int] == path);
    }
}

/// A directory that is staged is made once, and those above it that are in the stage before it.
pub proof fn staged_directories_are_made(p: sandbox::Planned, path: Seq<char>, list: Seq<Seq<char>>)
    ensures
        p.dir(path).fault is None ==> has_path(p.dir(path).dirs, path),
        has_path(p.dirs, path) ==> p.dir(path) == p,
        list.len() > 0 && is_below(list.last(), "/dev/shm/.run"@) ==> p.parents(list) == p.parents(
            list.drop_last(),
        ).dir(list.last()),
        list.len() > 0 && !is_below(list.last(), "/dev/shm/.run"@) ==> p.parents(list)
            == p.parents(list.drop_last()),
{
    if p.dir(path).fault is None && !has_path(p.dirs, path) {
        assert(p.dir(path).dirs[p.dirs.len() as int] == path);
    }
}

} // verus!
