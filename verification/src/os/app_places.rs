//! What of the host is seen at which place inside an app's root, and what the app may do there.
use vstd::prelude::*;

use super::approot::{
    mkdir_p, own_acts, pushed, refused, root_acts, run_acts, runs_acts, store_acts, view_acts, Act,
    ActView, RunEntry, Spec, Tree,
};
use super::mounts::Attrs;
use super::path::{below_run, comps, from_root};
use super::sandbox::What;
use crate::text::path_under;
use crate::views::{kept, lemma_kept_add, lemma_kept_none, lemma_kept_one, views};

verus! {

/// A host path bound into a tree.
pub open spec fn bound_into(act: ActView, tree: Tree) -> bool {
    act is Bind && act->Bind_into == tree
}

/// A host path bound at a place in the root.
pub open spec fn bound_at(act: ActView, at: Seq<char>) -> bool {
    bound_into(act, Tree::Root) && act->Bind_at == at
}

/// Written to, but with no programs, set-id bits or device nodes.
pub open spec fn closed() -> Attrs {
    Attrs { rdonly: false, nosuid: true, nodev: true, noexec: true }
}

/// An entry of `/run` by its place in the root.
pub open spec fn run_place(entry: RunEntry) -> Seq<char>
    recommends
        below_run(entry.path@) is Some,
{
    path_under("run"@, below_run(entry.path@)->0)
}

/// What may be bound at a place in the root: the store at its own path, the host's views at
/// "dev", "dev/dri" and "sys", the resolver for an app with the network, the app's own "tmp",
/// and the entries of `/run` at their own paths.
pub open spec fn rightly_bound(spec: Spec, act: ActView) -> bool {
    let path = act->Bind_path;
    let at = act->Bind_at;
    let attrs = act->Bind_attrs;
    match act->Bind_into {
        Tree::Etc => false,
        Tree::Home => at == ".state"@ && path == spec.state@ && attrs == closed(),
        Tree::Root => {
            ||| at == from_root(spec.store@) && path == spec.store@ && attrs == (Attrs {
                rdonly: true,
                nosuid: true,
                nodev: true,
                noexec: false,
            })
            ||| at == "dev"@ && path == path_under(spec.views@, "dev"@) && attrs == (Attrs {
                rdonly: true,
                nosuid: true,
                nodev: false,
                noexec: true,
            })
            ||| spec.gpu && at == "dev/dri"@ && path == path_under(spec.views@, "dev-gpu/dri"@)
                && attrs == (Attrs { rdonly: true, nosuid: true, nodev: false, noexec: true })
            ||| at == "sys"@ && path == path_under(
                spec.views@,
                if spec.gpu {
                    "sys-gpu"@
                } else {
                    "sys"@
                },
            ) && attrs == (Attrs { rdonly: true, nosuid: true, nodev: true, noexec: true })
            ||| spec.network && at == "run/host/resolv.conf"@ && path == spec.resolv@ && attrs == (
            Attrs { rdonly: true, nosuid: true, nodev: true, noexec: true })
            ||| at == "tmp"@ && path == spec.tmp@ && attrs == closed()
            ||| exists|i: int|
                0 <= i < spec.run@.len() && below_run((#[trigger] spec.run@[i]).path@) is Some
                    && path == spec.run@[i].path@ && at == run_place(spec.run@[i]) && attrs
                    == closed()
        },
    }
}

/// What may be done at a place: `all` is every access there is. Reading is 0xc, running what is
/// read 0xd, reading and writing what is there 0xe, and device ioctls besides 0x800e.
pub open spec fn rightly_allowed(spec: Spec, all: u64, act: ActView) -> bool {
    match act {
        Act::AllowPath { path, access } => access == 0xd && views(spec.closure@).contains(path),
        Act::Allow { into, at, access } => match into {
            Tree::Etc => at == "."@ && access == all,
            Tree::Home => at == "."@ && access == all,
            Tree::Root => {
                ||| at == "dev"@ && access == 0x800e
                ||| at == "dev/shm"@ && access == all
                ||| at == "sys"@ && access == 0xc
                ||| at == "proc"@ && access == 0xe
                ||| spec.network && at == "run/host"@ && access == 0xc
                ||| at == "tmp"@ && access == all
                ||| exists|i: int|
                    0 <= i < spec.run@.len() && below_run((#[trigger] spec.run@[i]).path@) is Some
                        && at == run_place(spec.run@[i]) && access == if spec.run@[i].writable {
                        all
                    } else {
                        0xc
                    }
            },
        },
        _ => true,
    }
}

/// What else puts the root together: filesystems of the app's own at "dev/shm" and "proc", its
/// "etc" and its home, links of `/run` remade; and at the end the top of it is sealed.
pub open spec fn rightly_made(spec: Spec, act: ActView) -> bool {
    match act {
        Act::New { tree, fs, options, attrs, .. } => fs == "tmpfs"@ && match tree {
            Tree::Root => options == seq![("mode"@, "0755"@)] && attrs == (Attrs {
                rdonly: false,
                nosuid: true,
                nodev: true,
                noexec: false,
            }),
            Tree::Etc => options == seq![("mode"@, "0755"@)] && attrs == closed(),
            Tree::Home => options == seq![("mode"@, "0700"@), ("size"@, "256m"@)] && attrs
                == closed(),
        },
        Act::Mount { fs, options, attrs, into, at, .. } => into == Tree::Root && {
            ||| fs == "tmpfs"@ && options == seq![("mode"@, "1777"@)] && at == "dev/shm"@ && attrs
                == (Attrs { rdonly: false, nosuid: true, nodev: true, noexec: false })
            ||| fs == "proc"@ && options == seq![("hidepid"@, "invisible"@)] && at == "proc"@
                && attrs == closed()
        },
        Act::Attach { tree, at } => match tree {
            Tree::Root => false,
            Tree::Etc => at == "etc"@,
            Tree::Home => at == from_root(spec.home@),
        },
        Act::Own { tree } => tree != Tree::Root,
        Act::Touch { into, at } => spec.network && into == Tree::Root && at
            == "run/host/resolv.conf"@,
        Act::Symlink { target, into, at } => into == Tree::Root && exists|i: int|
            0 <= i < spec.run@.len() && below_run((#[trigger] spec.run@[i]).path@) is Some && at
                == run_place(spec.run@[i]) && spec.run@[i].what is Link
                && spec.run@[i].what->Link_0@ == target,
        Act::SetTop { attrs } => attrs == (Attrs {
            rdonly: true,
            nosuid: true,
            nodev: true,
            noexec: false,
        }),
        _ => true,
    }
}

pub open spec fn right(spec: Spec, all: u64, act: ActView) -> bool {
    &&& act is Bind ==> rightly_bound(spec, act)
    &&& rightly_allowed(spec, all, act)
    &&& rightly_made(spec, act)
}

proof fn lemma_run_right(spec: Spec, all: u64, i: int)
    requires
        0 <= i < spec.run@.len(),
    ensures
        forall|k: int|
            0 <= k < run_acts(spec.run@[i], all).len() ==> right(
                spec,
                all,
                #[trigger] run_acts(spec.run@[i], all)[k],
            ),
        forall|k: int|
            0 <= k < run_acts(spec.run@[i], all).len() ==> !bound_at(
                #[trigger] run_acts(spec.run@[i], all)[k],
                "tmp"@,
            ) && !bound_into(run_acts(spec.run@[i], all)[k], Tree::Home),
{
    reveal_strlit("tmp");
    reveal_strlit("run");
    let entry = spec.run@[i];
    if below_run(entry.path@) is Some {
        let at = run_place(entry);
        assert(at.len() > 0 && (at[0] == 'r' || at[0] == '/'));
        assert("tmp"@[0] == 't');
        assert(at != "tmp"@);
    }
}

proof fn lemma_runs_right(spec: Spec, all: u64, from: int)
    requires
        0 <= from <= spec.run@.len(),
    ensures
        ({
            let acts = runs_acts(spec.run@.skip(from), all);
            forall|k: int|
                0 <= k < acts.len() ==> right(spec, all, #[trigger] acts[k]) && !bound_at(
                    acts[k],
                    "tmp"@,
                ) && !bound_into(acts[k], Tree::Home)
        }),
    decreases spec.run@.len() - from,
{
    let rest = spec.run@.skip(from);
    if from < spec.run@.len() {
        lemma_run_right(spec, all, from);
        lemma_runs_right(spec, all, from + 1);
        assert(rest[0] == spec.run@[from]);
        assert(rest.skip(1) =~= spec.run@.skip(from + 1));
        let first = run_acts(spec.run@[from], all);
        let more = runs_acts(spec.run@.skip(from + 1), all);
        let acts = runs_acts(rest, all);
        assert(acts == first || acts == first + more);
        assert forall|k: int| 0 <= k < acts.len() implies right(spec, all, #[trigger] acts[k])
            && !bound_at(acts[k], "tmp"@) && !bound_into(acts[k], Tree::Home) by {
            if k < first.len() {
                assert(acts[k] == first[k]);
            } else {
                assert(acts[k] == more[k - first.len()]);
            }
        }
    }
}

proof fn lemma_parts_right(spec: Spec, all: u64)
    ensures
        forall|k: int|
            0 <= k < store_acts(spec).len() ==> right(spec, all, #[trigger] store_acts(spec)[k]),
        forall|k: int|
            0 <= k < view_acts(spec, all).len() ==> right(
                spec,
                all,
                #[trigger] view_acts(spec, all)[k],
            ),
        forall|k: int|
            0 <= k < own_acts(spec, all).len() ==> right(
                spec,
                all,
                #[trigger] own_acts(spec, all)[k],
            ),
{
    let list = views(spec.closure@);
    assert forall|k: int| 0 <= k < store_acts(spec).len() implies right(
        spec,
        all,
        #[trigger] store_acts(spec)[k],
    ) by {
        let n = store_acts(spec).len() - list.len();
        if k >= n {
            assert(store_acts(spec)[k] == (ActView::AllowPath { path: list[k - n], access: 0xd }));
            assert(list.contains(list[k - n]));
        }
    }
}

/// Nothing of the host is bound, nothing allowed and nothing made in an app's root but what
/// belongs there.
pub proof fn nothing_else_is_inside(spec: Spec, all: u64, k: int)
    requires
        0 <= k < root_acts(spec, all).len(),
    ensures
        right(spec, all, root_acts(spec, all)[k]),
{
    lemma_parts_right(spec, all);
    lemma_runs_right(spec, all, 0);
    assert(spec.run@.skip(0) =~= spec.run@);
    let a = store_acts(spec);
    let b = view_acts(spec, all);
    let c = own_acts(spec, all);
    let d = runs_acts(spec.run@, all);
    let acts = root_acts(spec, all);
    if k < a.len() {
        assert(acts[k] == a[k]);
    } else if k < a.len() + b.len() {
        assert(acts[k] == b[k - a.len()]);
    } else if k < a.len() + b.len() + c.len() {
        assert(acts[k] == c[k - a.len() - b.len()]);
    } else if k < a.len() + b.len() + c.len() + d.len() {
        assert(acts[k] == d[k - a.len() - b.len() - c.len()]);
    }
}

proof fn lemma_all_parts(spec: Spec, all: u64, keep: spec_fn(ActView) -> bool)
    requires
        forall|act: ActView| act is SetTop ==> !#[trigger] keep(act),
    ensures
        kept(root_acts(spec, all), keep) == kept(store_acts(spec), keep) + kept(
            view_acts(spec, all),
            keep,
        ) + kept(own_acts(spec, all), keep) + kept(runs_acts(spec.run@, all), keep),
{
    let a = store_acts(spec);
    let b = view_acts(spec, all);
    let c = own_acts(spec, all);
    let d = runs_acts(spec.run@, all);
    lemma_kept_add(a, b, keep);
    lemma_kept_add(a + b, c, keep);
    lemma_kept_add(a + b + c, d, keep);
    let acts = a + b + c + d;
    let top = Attrs { rdonly: true, nosuid: true, nodev: true, noexec: false };
    assert(acts.push(Act::SetTop { attrs: top }).drop_last() =~= acts);
    assert(!keep(ActView::SetTop { attrs: top }));
}

/// The app's home holds one thing of the host's, its own state at ".state"; and at "tmp" in the
/// root its own temporary directory is seen, once, unless the store itself is kept at "/tmp".
pub proof fn the_home_and_tmp_are_the_apps_own(spec: Spec, all: u64)
    ensures
        kept(root_acts(spec, all), |act: ActView| bound_into(act, Tree::Home)) == seq![
            ActView::Bind {
                path: spec.state@,
                attrs: closed(),
                into: Tree::Home,
                at: ".state"@,
                said: Some("state"@),
            },
        ],
        from_root(spec.store@) != "tmp"@ ==> kept(
            root_acts(spec, all),
            |act: ActView| bound_at(act, "tmp"@),
        ) == seq![
            ActView::Bind {
                path: spec.tmp@,
                attrs: closed(),
                into: Tree::Root,
                at: "tmp"@,
                said: Some("tmp"@),
            },
        ],
{
    reveal_strlit("tmp");
    reveal_strlit("dev");
    reveal_strlit("dev/dri");
    reveal_strlit("sys");
    reveal_strlit("run/host/resolv.conf");
    assert("tmp"@[0] == 't');
    let home = |act: ActView| bound_into(act, Tree::Home);
    let tmp = |act: ActView| bound_at(act, "tmp"@);
    let a = store_acts(spec);
    let b = view_acts(spec, all);
    let c = own_acts(spec, all);
    let d = runs_acts(spec.run@, all);
    lemma_all_parts(spec, all, home);
    lemma_all_parts(spec, all, tmp);
    lemma_runs_right(spec, all, 0);
    assert(spec.run@.skip(0) =~= spec.run@);
    lemma_kept_none(d, home);
    lemma_kept_none(d, tmp);
    lemma_kept_none(a, home);
    lemma_kept_none(b, home);
    assert forall|k: int| 0 <= k < b.len() implies !tmp(#[trigger] b[k]) by {
        if b[k] is Bind {
            let at = b[k]->Bind_at;
            assert(at[0] != 't');
        }
    }
    lemma_kept_none(b, tmp);
    let e = mkdir_p(Tree::Root, "etc"@);
    let s = mkdir_p(Tree::Home, ".state"@);
    let h = mkdir_p(Tree::Root, from_root(spec.home@));
    let t = mkdir_p(Tree::Root, "tmp"@);
    let p = 5 + e.len() + s.len();
    let q = p + 4 + h.len() + t.len();
    assert forall|k: int| 0 <= k < c.len() && k != p && k != q implies !(#[trigger] c[k]
        is Bind) by {}
    assert(c[p as int] is Bind && home(c[p as int]) && !tmp(c[p as int]));
    assert(c[q as int] is Bind && tmp(c[q as int]) && !home(c[q as int]));
    lemma_kept_one(c, home, p as int);
    lemma_kept_one(c, tmp, q as int);
    if from_root(spec.store@) != "tmp"@ {
        lemma_kept_none(a, tmp);
    }
    assert(kept(root_acts(spec, all), home) =~= seq![c[p as int]]);
    if from_root(spec.store@) != "tmp"@ {
        assert(kept(root_acts(spec, all), tmp) =~= seq![c[q as int]]);
    }
}

/// The parts of the plan are in the plan.
proof fn lemma_in_plan(spec: Spec, all: u64, act: ActView)
    ensures
        store_acts(spec).contains(act) || view_acts(spec, all).contains(act) || own_acts(
            spec,
            all,
        ).contains(act) ==> root_acts(spec, all).contains(act),
{
    let a = store_acts(spec);
    let b = view_acts(spec, all);
    let c = own_acts(spec, all);
    let acts = root_acts(spec, all);
    if a.contains(act) {
        let k = choose|k: int| 0 <= k < a.len() && a[k] == act;
        assert(acts[k] == act);
    } else if b.contains(act) {
        let k = choose|k: int| 0 <= k < b.len() && b[k] == act;
        assert(acts[a.len() + k] == act);
    } else if c.contains(act) {
        let k = choose|k: int| 0 <= k < c.len() && c[k] == act;
        assert(acts[a.len() + b.len() + k] == act);
    }
}

/// The store is seen at its own path, read-only, and every path of the app's closure may be
/// run.
pub proof fn the_store_is_where_it_was(spec: Spec, all: u64, i: int)
    ensures
        root_acts(spec, all).contains(
            Act::Bind {
                path: spec.store@,
                attrs: Attrs { rdonly: true, nosuid: true, nodev: true, noexec: false },
                into: Tree::Root,
                at: from_root(spec.store@),
                said: Some("store"@),
            },
        ),
        0 <= i < spec.closure@.len() ==> root_acts(spec, all).contains(
            Act::AllowPath { path: spec.closure@[i]@, access: 0xd },
        ),
{
    let a = store_acts(spec);
    let n = mkdir_p(Tree::Root, from_root(spec.store@)).len() as int;
    lemma_in_plan(spec, all, a[n + 1]);
    assert(a.contains(a[n + 1]));
    if 0 <= i < spec.closure@.len() {
        assert(a[n + 2 + i] == (ActView::AllowPath {
            path: views(spec.closure@)[i],
            access: 0xd,
        }));
        assert(a.contains(a[n + 2 + i]));
        lemma_in_plan(spec, all, a[n + 2 + i]);
    }
}

/// The host's views are seen at "dev" and "sys", the graphics besides for an app that has them,
/// and its devices may be used, its shared memory filled, the rest read.
pub proof fn the_hosts_views_are_there(spec: Spec, all: u64)
    ensures
        ({
            let acts = root_acts(spec, all);
            let nodes = Attrs { rdonly: true, nosuid: true, nodev: false, noexec: true };
            let sealed = Attrs { rdonly: true, nosuid: true, nodev: true, noexec: true };
            let view = |name: Seq<char>, attrs: Attrs, at: Seq<char>|
                ActView::Bind {
                    path: path_under(spec.views@, name),
                    attrs,
                    into: Tree::Root,
                    at,
                    said: Some("host view "@ + name + " (drv-host-views not run?)"@),
                };
            &&& acts.contains(view("dev"@, nodes, "dev"@))
            &&& spec.gpu ==> acts.contains(view("dev-gpu/dri"@, nodes, "dev/dri"@))
            &&& spec.gpu ==> acts.contains(view("sys-gpu"@, sealed, "sys"@))
            &&& !spec.gpu ==> acts.contains(view("sys"@, sealed, "sys"@))
            &&& acts.contains(Act::Allow { into: Tree::Root, at: "dev"@, access: 0x800e })
            &&& acts.contains(Act::Allow { into: Tree::Root, at: "dev/shm"@, access: all })
            &&& acts.contains(Act::Allow { into: Tree::Root, at: "sys"@, access: 0xc })
        }),
{
    let b = view_acts(spec, all);
    let v = mkdir_p(Tree::Root, "dev"@).len() as int;
    let g: int = if spec.gpu { 1 } else { 0 };
    let y = v + g + 4 + mkdir_p(Tree::Root, "sys"@).len();
    let k = |i: int| b[i];
    assert(b.contains(k(v)));
    lemma_in_plan(spec, all, k(v));
    if spec.gpu {
        assert(b.contains(k(v + 1)));
        lemma_in_plan(spec, all, k(v + 1));
    }
    assert(b.contains(k(v + g + 2)));
    lemma_in_plan(spec, all, k(v + g + 2));
    assert(b.contains(k(v + g + 3)));
    lemma_in_plan(spec, all, k(v + g + 3));
    assert(b.contains(k(y)));
    lemma_in_plan(spec, all, k(y));
    assert(b.contains(k(y + 1)));
    lemma_in_plan(spec, all, k(y + 1));
}

/// The app's own processes are seen at "proc"; and an app with the network, and no other, finds
/// the host's resolver.
pub proof fn the_resolver_comes_with_the_network(spec: Spec, all: u64)
    ensures
        ({
            let acts = root_acts(spec, all);
            &&& acts.contains(
                Act::Mount {
                    fs: "proc"@,
                    options: seq![("hidepid"@, "invisible"@)],
                    attrs: closed(),
                    into: Tree::Root,
                    at: "proc"@,
                    said: Some("proc"@),
                },
            )
            &&& acts.contains(Act::Allow { into: Tree::Root, at: "proc"@, access: 0xe })
            &&& spec.network ==> {
                &&& acts.contains(Act::Touch { into: Tree::Root, at: "run/host/resolv.conf"@ })
                &&& acts.contains(
                    Act::Bind {
                        path: spec.resolv@,
                        attrs: Attrs { rdonly: true, nosuid: true, nodev: true, noexec: true },
                        into: Tree::Root,
                        at: "run/host/resolv.conf"@,
                        said: Some("resolv.conf"@),
                    },
                )
                &&& acts.contains(Act::Allow { into: Tree::Root, at: "run/host"@, access: 0xc })
            }
        }),
{
    let b = view_acts(spec, all);
    let v = mkdir_p(Tree::Root, "dev"@).len() as int;
    let g: int = if spec.gpu { 1 } else { 0 };
    let y = v + g + 4 + mkdir_p(Tree::Root, "sys"@).len();
    let z = y + 2 + mkdir_p(Tree::Root, "proc"@).len();
    let w = z + 2 + mkdir_p(Tree::Root, "run"@).len() + mkdir_p(Tree::Root, "run/host"@).len();
    let k = |i: int| b[i];
    assert(b.contains(k(z)));
    lemma_in_plan(spec, all, k(z));
    assert(b.contains(k(z + 1)));
    lemma_in_plan(spec, all, k(z + 1));
    if spec.network {
        assert(b.contains(k(w)));
        lemma_in_plan(spec, all, k(w));
        assert(b.contains(k(w + 1)));
        lemma_in_plan(spec, all, k(w + 1));
        assert(b.contains(k(w + 2)));
        lemma_in_plan(spec, all, k(w + 2));
    }
}

/// The app's "etc", its home and its "tmp" are in their places, its own, and all of them may be
/// changed in every way.
pub proof fn the_apps_own_may_be_changed(spec: Spec, all: u64)
    ensures
        ({
            let acts = root_acts(spec, all);
            &&& acts.contains(Act::Attach { tree: Tree::Etc, at: "etc"@ })
            &&& acts.contains(Act::Attach { tree: Tree::Home, at: from_root(spec.home@) })
            &&& acts.contains(Act::Own { tree: Tree::Etc })
            &&& acts.contains(Act::Own { tree: Tree::Home })
            &&& acts.contains(Act::Allow { into: Tree::Etc, at: "."@, access: all })
            &&& acts.contains(Act::Allow { into: Tree::Home, at: "."@, access: all })
            &&& acts.contains(Act::Allow { into: Tree::Root, at: "tmp"@, access: all })
        }),
{
    let c = own_acts(spec, all);
    let e = 3 + mkdir_p(Tree::Root, "etc"@).len();
    let s = e + 2 + mkdir_p(Tree::Home, ".state"@).len();
    let h = s + 3 + mkdir_p(Tree::Root, from_root(spec.home@)).len();
    let t = h + 1 + mkdir_p(Tree::Root, "tmp"@).len();
    let k = |i: int| c[i];
    assert(c.contains(k(1)));
    lemma_in_plan(spec, all, k(1));
    assert(c.contains(k(2)));
    lemma_in_plan(spec, all, k(2));
    assert(c.contains(k(e as int)));
    lemma_in_plan(spec, all, k(e as int));
    assert(c.contains(k(s as int + 1)));
    lemma_in_plan(spec, all, k(s as int + 1));
    assert(c.contains(k(s as int + 2)));
    lemma_in_plan(spec, all, k(s as int + 2));
    assert(c.contains(k(h as int)));
    lemma_in_plan(spec, all, k(h as int));
    assert(c.contains(k(t as int + 1)));
    lemma_in_plan(spec, all, k(t as int + 1));
}

/// An entry of `/run` that is there is seen at its own path, a link as a link and anything else
/// bound, and may be written to only where it says so; an entry that is not below `/run`, or
/// is missing, ends it with its own error.
pub proof fn run_entries_keep_their_paths(entry: RunEntry, all: u64)
    ensures
        ({
            let acts = run_acts(entry, all);
            let at = run_place(entry);
            let access = if entry.writable { all } else { 0xcu64 };
            match (below_run(entry.path@), entry.what) {
                (None, _) => acts == seq![ActView::Fail(entry.path@ + ": not under /run"@)],
                (Some(_), What::Missing(err)) => acts == seq![
                    ActView::Fail("run entry "@ + entry.path@ + ": "@ + err@),
                ],
                (Some(_), What::Unread(err)) => acts == seq![ActView::Fail(err@)],
                (Some(_), What::Link(target)) => {
                    &&& acts.len() >= 2
                    &&& acts.last() == (ActView::Allow { into: Tree::Root, at, access })
                    &&& acts[acts.len() - 2] == (ActView::Symlink {
                        target: target@,
                        into: Tree::Root,
                        at,
                    })
                    &&& forall|k: int| 0 <= k < acts.len() - 2 ==> #[trigger] acts[k] is Mkdir
                },
                (Some(_), _) => {
                    &&& acts.len() >= 2
                    &&& acts.last() == (ActView::Allow { into: Tree::Root, at, access })
                    &&& acts[acts.len() - 2] == (ActView::Bind {
                        path: entry.path@,
                        attrs: closed(),
                        into: Tree::Root,
                        at,
                        said: Some("run entry "@ + entry.path@),
                    })
                    &&& forall|k: int| 0 <= k < acts.len() - 2 ==> #[trigger] acts[k] is Mkdir
                },
            }
        }),
{
}

/// Every entry of `/run` before the first that is refused has its acts in the plan, and where
/// none is refused the top of the root is sealed last.
pub proof fn every_run_entry_is_there(spec: Spec, all: u64, i: int, k: int)
    requires
        0 <= i < spec.run@.len(),
        forall|j: int| 0 <= j < i ==> below_run((#[trigger] spec.run@[j]).path@) is Some
            && !(spec.run@[j].what is Missing) && !(spec.run@[j].what is Unread),
        0 <= k < run_acts(spec.run@[i], all).len(),
    ensures
        root_acts(spec, all).contains(run_acts(spec.run@[i], all)[k]),
        (forall|j: int|
            0 <= j < spec.run@.len() ==> below_run((#[trigger] spec.run@[j]).path@) is Some
                && !(spec.run@[j].what is Missing) && !(spec.run@[j].what is Unread)) ==> root_acts(
            spec,
            all,
        ).last() == (ActView::SetTop {
            attrs: Attrs { rdonly: true, nosuid: true, nodev: true, noexec: false },
        }),
{
    lemma_entry_there(spec.run@, all, i, k);
    let d = runs_acts(spec.run@, all);
    let j = choose|j: int| 0 <= j < d.len() && d[j] == run_acts(spec.run@[i], all)[k];
    let head = store_acts(spec) + view_acts(spec, all) + own_acts(spec, all);
    assert(root_acts(spec, all)[head.len() + j] == d[j]);
}

proof fn lemma_entry_there(entries: Seq<RunEntry>, all: u64, i: int, k: int)
    requires
        0 <= i < entries.len(),
        forall|j: int| 0 <= j < i ==> !refused(#[trigger] entries[j]),
        0 <= k < run_acts(entries[i], all).len(),
    ensures
        runs_acts(entries, all).contains(run_acts(entries[i], all)[k]),
    decreases entries.len(),
{
    let first = run_acts(entries[0], all);
    if i == 0 {
        assert(runs_acts(entries, all)[k] == first[k]);
    } else {
        assert(!refused(entries[0]));
        let rest = entries.skip(1);
        assert(rest[i - 1] == entries[i]);
        assert forall|j: int| 0 <= j < i - 1 implies !refused(#[trigger] rest[j]) by {
            assert(rest[j] == entries[j + 1]);
        }
        lemma_entry_there(rest, all, i - 1, k);
        let more = runs_acts(rest, all);
        let j = choose|j: int| 0 <= j < more.len() && more[j] == run_acts(entries[i], all)[k];
        assert(runs_acts(entries, all)[first.len() + j] == more[j]);
    }
}

/// Making a path makes each directory on it, outermost first, the whole path last.
pub proof fn paths_are_made_from_the_top(into: Tree, path: Seq<char>, i: int)
    requires
        0 <= i < comps(path).len(),
    ensures
        mkdir_p(into, path).len() == comps(path).len(),
        mkdir_p(into, path)[i] == (ActView::Mkdir { into, at: pushed(comps(path).take(i + 1)) }),
        i == 0 ==> pushed(comps(path).take(i + 1)) == comps(path)[0],
        i > 0 ==> pushed(comps(path).take(i + 1)) == path_under(
            pushed(comps(path).take(i)),
            comps(path)[i],
        ),
{
    assert(comps(path).take(i + 1).drop_last() =~= comps(path).take(i));
    if i == 0 {
        assert(comps(path).take(0).len() == 0);
        assert(pushed(comps(path).take(0)) == Seq::<char>::empty());
        assert(comps(path).take(1).last() == comps(path)[0]);
        assert(Seq::<char>::empty() + comps(path)[0] =~= comps(path)[0]);
    }
}

/// The trees that are made new, and what is said where one cannot be.
pub proof fn new_trees_are_made(spec: Spec, all: u64)
    ensures
        ({
            let acts = root_acts(spec, all);
            let fs = "tmpfs"@;
            let plain = seq![("mode"@, "0755"@)];
            &&& acts[0] == (ActView::New {
                tree: Tree::Root,
                fs,
                options: plain,
                attrs: Attrs { rdonly: false, nosuid: true, nodev: true, noexec: false },
                said: Some("root tmpfs"@),
            })
            &&& acts.contains(
                Act::New {
                    tree: Tree::Etc,
                    fs,
                    options: plain,
                    attrs: closed(),
                    said: Some("etc tmpfs"@),
                },
            )
            &&& acts.contains(
                Act::New {
                    tree: Tree::Home,
                    fs,
                    options: seq![("mode"@, "0700"@), ("size"@, "256m"@)],
                    attrs: closed(),
                    said: Some("home tmpfs"@),
                },
            )
            &&& acts.contains(
                Act::Mount {
                    fs,
                    options: seq![("mode"@, "1777"@)],
                    attrs: Attrs { rdonly: false, nosuid: true, nodev: true, noexec: false },
                    into: Tree::Root,
                    at: "dev/shm"@,
                    said: None,
                },
            )
        }),
{
    let a = store_acts(spec);
    let b = view_acts(spec, all);
    let c = own_acts(spec, all);
    assert(root_acts(spec, all)[0] == a[0]);
    let k = |i: int| c[i];
    assert(c.contains(k(0)));
    lemma_in_plan(spec, all, k(0));
    let e = 4 + mkdir_p(Tree::Root, "etc"@).len() as int;
    assert(c.contains(k(e)));
    lemma_in_plan(spec, all, k(e));
    let g: int = if spec.gpu { 1 } else { 0 };
    let v = mkdir_p(Tree::Root, "dev"@).len() as int + 1 + g;
    let m = |i: int| b[i];
    assert(b.contains(m(v)));
    lemma_in_plan(spec, all, m(v));
}

} // verus!
