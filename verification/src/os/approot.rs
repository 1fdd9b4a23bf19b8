//! An app's root, built before the fork as a detached mount tree and a ruleset: the complicated
//! part happens in the parent, and the child does a dozen system calls.
use vstd::prelude::*;
use vstd::string::*;

use super::landlock::{Ruleset, READ};
use super::mounts::{dev_view, ro, ro_noexec, rw, rw_noexec, Attrs};
use super::path::{
    below_root, below_run, comps, comps_of, from_root, parent, parent_of, under_run,
};
use super::sandbox::What;
use crate::text::{ctx, join_path, path_under, with_context};
use crate::views::{group_views, view_opt, views};

verus! {

/// A tree that is put together.
#[derive(Clone, Copy, Debug, PartialEq, Eq, Structural)]
pub enum Tree {
    Root,
    Etc,
    Home,
}

/// One act of putting the root together. `T` is text, `L` a list of filesystem options. What is
/// `said` goes in front of the error where a copy or an instance cannot be had; every other
/// error is passed on as it is.
#[derive(Debug)]
pub enum Act<T, L> {
    /// A new filesystem instance, as a tree.
    New { tree: Tree, fs: T, options: L, attrs: Attrs, said: Option<T> },
    /// A directory inside a tree; one that is there already is fine.
    Mkdir { into: Tree, at: T },
    /// A detached copy of what is at `path`, attached inside a tree.
    Bind { path: T, attrs: Attrs, into: Tree, at: T, said: Option<T> },
    /// A new filesystem instance, attached inside a tree.
    Mount { fs: T, options: L, attrs: Attrs, into: Tree, at: T, said: Option<T> },
    /// A tree attached inside the root.
    Attach { tree: Tree, at: T },
    /// An empty file.
    Touch { into: Tree, at: T },
    Symlink { target: T, into: Tree, at: T },
    /// A rule on a path of the host; one that is not there is counted.
    AllowPath { path: T, access: u64 },
    /// A rule on a path inside a tree.
    Allow { into: Tree, at: T, access: u64 },
    /// A tree made the app's.
    Own { tree: Tree },
    /// The flags of the root's top level.
    SetTop { attrs: Attrs },
    /// It ends with this error.
    Fail(T),
}

pub type Options = Vec<(String, String)>;

pub type OptionsView = Seq<(Seq<char>, Seq<char>)>;

pub type ActView = Act<Seq<char>, OptionsView>;

impl View for Act<String, Options> {
    type V = ActView;

    open spec fn view(&self) -> ActView {
        match *self {
            Act::New { tree, fs, options, attrs, said } => Act::New {
                tree,
                fs: fs@,
                options: views(options@),
                attrs,
                said: view_opt(said),
            },
            Act::Mkdir { into, at } => Act::Mkdir { into, at: at@ },
            Act::Bind { path, attrs, into, at, said } => Act::Bind {
                path: path@,
                attrs,
                into,
                at: at@,
                said: view_opt(said),
            },
            Act::Mount { fs, options, attrs, into, at, said } => Act::Mount {
                fs: fs@,
                options: views(options@),
                attrs,
                into,
                at: at@,
                said: view_opt(said),
            },
            Act::Attach { tree, at } => Act::Attach { tree, at: at@ },
            Act::Touch { into, at } => Act::Touch { into, at: at@ },
            Act::Symlink { target, into, at } => Act::Symlink { target: target@, into, at: at@ },
            Act::AllowPath { path, access } => Act::AllowPath { path: path@, access },
            Act::Allow { into, at, access } => Act::Allow { into, at: at@, access },
            Act::Own { tree } => Act::Own { tree },
            Act::SetTop { attrs } => Act::SetTop { attrs },
            Act::Fail(text) => Act::Fail(text@),
        }
    }
}

/// An entry of the host's `/run` an app sees, and what it is.
#[derive(Debug)]
pub struct RunEntry {
    pub path: String,
    pub writable: bool,
    pub what: What,
}

/// What the forker knows about the app.
#[derive(Debug)]
pub struct Spec {
    pub store: String,
    /// The host's resolv.conf, inside when the app has the network.
    pub resolv: String,
    /// Where the host's views are.
    pub views: String,
    pub gpu: bool,
    pub network: bool,
    pub run: Vec<RunEntry>,
    /// The app's `/tmp`, kept for the boot.
    pub tmp: String,
    /// A fresh size-capped tmpfs owned by the app.
    pub home: String,
    /// What the app keeps between runs, inside its home.
    pub state: String,
    /// The store paths the app may open.
    pub closure: Vec<String>,
    /// A JIT inside: memory may become executable.
    pub jit: bool,
}

/// A path put together of what it is made of.
pub open spec fn pushed(list: Seq<Seq<char>>) -> Seq<char>
    decreases list.len(),
{
    if list.len() == 0 {
        Seq::empty()
    } else {
        path_under(pushed(list.drop_last()), list.last())
    }
}

/// Every directory of a path inside a tree, outermost first.
pub open spec fn mkdir_p(into: Tree, path: Seq<char>) -> Seq<ActView> {
    Seq::new(
        comps(path).len(),
        |i: int| ActView::Mkdir { into, at: pushed(comps(path).take(i + 1)) },
    )
}

/// What is said of a host view that cannot be had.
pub open spec fn no_view(name: Seq<char>) -> Seq<char> {
    "host view "@ + name + " (drv-host-views not run?)"@
}

fn no_view_text(name: &str) -> (r: String)
    ensures
        r@ == no_view(name@),
{
    let mut text = "host view ".to_owned();
    text.append(name);
    text.append(" (drv-host-views not run?)");
    text
}

/// A host view, bound inside the root.
pub open spec fn viewed(spec: Spec, name: Seq<char>, attrs: Attrs, at: Seq<char>) -> ActView {
    Act::Bind {
        path: path_under(spec.views@, name),
        attrs,
        into: Tree::Root,
        at,
        said: Some(no_view(name)),
    }
}

/// Reading, and running what is read.
pub const READ_EXECUTE: u64 = 0xd;

/// Reading and writing device nodes, and their ioctls.
pub const DEVICES: u64 = 0x800e;

/// Reading, and writing files that are there.
pub const READ_WRITE: u64 = 0xe;

/// The store, and what of it may be opened.
pub open spec fn store_acts(spec: Spec) -> Seq<ActView> {
    let at = from_root(spec.store@);
    seq![
        ActView::New {
            tree: Tree::Root,
            fs: "tmpfs"@,
            options: seq![("mode"@, "0755"@)],
            attrs: rw(),
            said: Some("root tmpfs"@),
        },
    ] + mkdir_p(Tree::Root, at) + seq![
        ActView::Bind { path: spec.store@, attrs: ro(), into: Tree::Root, at, said: Some("store"@) },
    ] + views(spec.closure@).map_values(
        |path: Seq<char>| ActView::AllowPath { path, access: READ_EXECUTE },
    )
}

/// The host's views, and the kernel's view of the app's own processes. `all` is every access.
pub open spec fn view_acts(spec: Spec, all: u64) -> Seq<ActView> {
    let root = Tree::Root;
    mkdir_p(root, "dev"@) + seq![viewed(spec, "dev"@, dev_view(), "dev"@)] + (if spec.gpu {
        seq![viewed(spec, "dev-gpu/dri"@, dev_view(), "dev/dri"@)]
    } else {
        Seq::empty()
    }) + seq![
        ActView::Mount {
            fs: "tmpfs"@,
            options: seq![("mode"@, "1777"@)],
            attrs: rw(),
            into: root,
            at: "dev/shm"@,
            said: None,
        },
        Act::Allow { into: root, at: "dev"@, access: DEVICES },
        Act::Allow { into: root, at: "dev/shm"@, access: all },
    ] + mkdir_p(root, "sys"@) + seq![
        viewed(
            spec,
            if spec.gpu {
                "sys-gpu"@
            } else {
                "sys"@
            },
            ro_noexec(),
            "sys"@,
        ),
        Act::Allow { into: root, at: "sys"@, access: READ },
    ] + mkdir_p(root, "proc"@) + seq![
        ActView::Mount {
            fs: "proc"@,
            options: seq![("hidepid"@, "invisible"@)],
            attrs: rw_noexec(),
            into: root,
            at: "proc"@,
            said: Some("proc"@),
        },
        Act::Allow { into: root, at: "proc"@, access: READ_WRITE },
    ] + mkdir_p(root, "run"@) + (if spec.network {
        mkdir_p(root, "run/host"@) + seq![
            ActView::Touch { into: root, at: "run/host/resolv.conf"@ },
            ActView::Bind {
                path: spec.resolv@,
                attrs: ro_noexec(),
                into: root,
                at: "run/host/resolv.conf"@,
                said: Some("resolv.conf"@),
            },
            ActView::Allow { into: root, at: "run/host"@, access: READ },
        ]
    } else {
        Seq::empty()
    })
}

/// The app's own: `/etc`, its home with what persists inside, `/tmp`. The rules come before a
/// tree is made the app's.
pub open spec fn own_acts(spec: Spec, all: u64) -> Seq<ActView> {
    let root = Tree::Root;
    let home = from_root(spec.home@);
    seq![
        ActView::New {
            tree: Tree::Etc,
            fs: "tmpfs"@,
            options: seq![("mode"@, "0755"@)],
            attrs: rw_noexec(),
            said: Some("etc tmpfs"@),
        },
        Act::Allow { into: Tree::Etc, at: "."@, access: all },
        Act::Own { tree: Tree::Etc },
    ] + mkdir_p(root, "etc"@) + seq![
        ActView::Attach { tree: Tree::Etc, at: "etc"@ },
        ActView::New {
            tree: Tree::Home,
            fs: "tmpfs"@,
            options: seq![("mode"@, "0700"@), ("size"@, "256m"@)],
            attrs: rw_noexec(),
            said: Some("home tmpfs"@),
        },
    ] + mkdir_p(Tree::Home, ".state"@) + seq![
        ActView::Bind {
            path: spec.state@,
            attrs: rw_noexec(),
            into: Tree::Home,
            at: ".state"@,
            said: Some("state"@),
        },
        Act::Allow { into: Tree::Home, at: "."@, access: all },
        Act::Own { tree: Tree::Home },
    ] + mkdir_p(root, home) + seq![ActView::Attach { tree: Tree::Home, at: home }] + mkdir_p(
        root,
        "tmp"@,
    ) + seq![
        ActView::Bind {
            path: spec.tmp@,
            attrs: rw_noexec(),
            into: root,
            at: "tmp"@,
            said: Some("tmp"@),
        },
        Act::Allow { into: root, at: "tmp"@, access: all },
    ]
}

/// One entry of `/run`: a link remade, anything else bound.
pub open spec fn run_acts(entry: RunEntry, all: u64) -> Seq<ActView> {
    let root = Tree::Root;
    match below_run(entry.path@) {
        None => seq![Act::Fail(entry.path@ + ": not under /run"@)],
        Some(rel) => {
            let at = path_under("run"@, rel);
            let said = "run entry "@ + entry.path@;
            let rule = ActView::Allow {
                into: root,
                at,
                access: if entry.writable {
                    all
                } else {
                    READ
                },
            };
            match entry.what {
                What::Missing(err) => seq![Act::Fail(with_context(Some(said), err@))],
                What::Unread(err) => seq![Act::Fail(err@)],
                What::Link(target) => (match parent_of(at) {
                    Some(dir) => mkdir_p(root, dir),
                    None => Seq::empty(),
                }) + seq![Act::Symlink { target: target@, into: root, at }, rule],
                _ => mkdir_p(root, at) + seq![
                    Act::Bind { path: entry.path@, attrs: rw_noexec(), into: root, at, said: Some(said) },
                    rule,
                ],
            }
        },
    }
}

/// An entry that ends it.
pub open spec fn refused(entry: RunEntry) -> bool {
    below_run(entry.path@) is None || entry.what is Missing || entry.what is Unread
}

/// The entries of `/run`, up to the first that ends it.
pub open spec fn runs_acts(entries: Seq<RunEntry>, all: u64) -> Seq<ActView>
    decreases entries.len(),
{
    if entries.len() == 0 {
        Seq::empty()
    } else if refused(entries[0]) {
        run_acts(entries[0], all)
    } else {
        run_acts(entries[0], all) + runs_acts(entries.skip(1), all)
    }
}

/// Some entry ends it.
pub open spec fn some_refused(entries: Seq<RunEntry>) -> bool {
    exists|i: int| 0 <= i < entries.len() && refused(#[trigger] entries[i])
}

/// Everything that puts the root together.
pub open spec fn root_acts(spec: Spec, all: u64) -> Seq<ActView> {
    let acts = store_acts(spec) + view_acts(spec, all) + own_acts(spec, all) + runs_acts(
        spec.run@,
        all,
    );
    if some_refused(spec.run@) {
        acts
    } else {
        acts.push(Act::SetTop { attrs: ro() })
    }
}

fn option(k: &str, v: &str) -> (r: (String, String))
    ensures
        r@ == (k@, v@),
{
    (k.to_owned(), v.to_owned())
}

fn options1(k: &str, v: &str) -> (r: Options)
    ensures
        views(r@) == seq![(k@, v@)],
{
    broadcast use group_views;

    let list: Options = vec![option(k, v)];
    assert(views(list@) =~= seq![(k@, v@)]);
    list
}

fn push_mkdir_p(acts: &mut Vec<Act<String, Options>>, into: Tree, path: &str)
    ensures
        views(final(acts)@) == views(old(acts)@) + mkdir_p(into, path@),
{
    broadcast use group_views;

    let list = comps_of(path);
    let ghost start = views(acts@);
    let ghost names = comps(path@);
    let ghost all = mkdir_p(into, path@);
    let mut so_far = String::new();
    let mut i: usize = 0;
    assert(start + all.take(0) =~= start);
    assert(views(list@).len() == list@.len());
    while i < list.len()
        invariant
            i <= list@.len() == names.len(),
            views(list@) == names,
            names == comps(path@),
            all == mkdir_p(into, path@),
            so_far@ == pushed(names.take(i as int)),
            views(acts@) == start + all.take(i as int),
        decreases list@.len() - i,
    {
        assert(names.take(i + 1).drop_last() =~= names.take(i as int));
        assert(names.take(i + 1).last() == list@[i as int]@);
        so_far = join_path(so_far.as_str(), list[i].as_str());
        acts.push(Act::Mkdir { into, at: so_far.clone() });
        assert(all[i as int] == acts@.last()@);
        assert(start + all.take(i + 1) =~= (start + all.take(i as int)).push(all[i as int]));
        i = i + 1;
    }
    assert(all.take(i as int) =~= all);
}

fn bind(path: &str, attrs: Attrs, into: Tree, at: &str, said: &str) -> (r: Act<String, Options>)
    ensures
        r@ == (ActView::Bind { path: path@, attrs, into, at: at@, said: Some(said@) }),
{
    Act::Bind {
        path: path.to_owned(),
        attrs,
        into,
        at: at.to_owned(),
        said: Some(said.to_owned()),
    }
}

fn view(spec: &Spec, name: &str, attrs: Attrs, at: &str) -> (r: Act<String, Options>)
    ensures
        r@ == viewed(*spec, name@, attrs, at@),
{
    let path = join_path(spec.views.as_str(), name);
    bind(path.as_str(), attrs, Tree::Root, at, no_view_text(name).as_str())
}

fn fresh(tree: Tree, options: Options, attrs: Attrs, said: &str) -> (r: Act<String, Options>)
    ensures
        r@ == (ActView::New { tree, fs: "tmpfs"@, options: views(options@), attrs, said: Some(said@) }),
{
    Act::New { tree, fs: "tmpfs".to_owned(), options, attrs, said: Some(said.to_owned()) }
}

fn allow(into: Tree, at: &str, access: u64) -> (r: Act<String, Options>)
    ensures
        r@ == (ActView::Allow { into, at: at@, access }),
{
    Act::Allow { into, at: at.to_owned(), access }
}

fn store(spec: &Spec) -> (r: Vec<Act<String, Options>>)
    ensures
        views(r@) == store_acts(*spec),
{
    broadcast use group_views;

    let mut acts: Vec<Act<String, Options>> = Vec::new();
    let rel = below_root(spec.store.as_str());
    acts.push(fresh(Tree::Root, options1("mode", "0755"), rw(), "root tmpfs"));
    push_mkdir_p(&mut acts, Tree::Root, rel.as_str());
    acts.push(bind(spec.store.as_str(), ro(), Tree::Root, rel.as_str(), "store"));
    let ghost head = views(acts@);
    let ghost all = views(spec.closure@).map_values(
        |path: Seq<char>| ActView::AllowPath { path, access: READ_EXECUTE },
    );
    let mut i: usize = 0;
    assert(head + all.take(0) =~= head);
    while i < spec.closure.len()
        invariant
            i <= spec.closure@.len() == all.len(),
            all == views(spec.closure@).map_values(
                |path: Seq<char>| ActView::AllowPath { path, access: READ_EXECUTE },
            ),
            views(acts@) == head + all.take(i as int),
        decreases spec.closure@.len() - i,
    {
        acts.push(Act::AllowPath { path: spec.closure[i].clone(), access: READ_EXECUTE });
        assert(all[i as int] == acts@.last()@);
        assert(head + all.take(i + 1) =~= (head + all.take(i as int)).push(all[i as int]));
        i = i + 1;
    }
    assert(all.take(i as int) =~= all);
    assert(views(acts@) =~= store_acts(*spec));
    acts
}

fn host(spec: &Spec, all: u64) -> (r: Vec<Act<String, Options>>)
    ensures
        views(r@) == view_acts(*spec, all),
{
    broadcast use group_views;

    let root = Tree::Root;
    let mut acts: Vec<Act<String, Options>> = Vec::new();
    push_mkdir_p(&mut acts, root, "dev");
    acts.push(view(spec, "dev", dev_view(), "dev"));
    if spec.gpu {
        acts.push(view(spec, "dev-gpu/dri", dev_view(), "dev/dri"));
    }
    acts.push(
        Act::Mount {
            fs: "tmpfs".to_owned(),
            options: options1("mode", "1777"),
            attrs: rw(),
            into: root,
            at: "dev/shm".to_owned(),
            said: None,
        },
    );
    acts.push(allow(root, "dev", DEVICES));
    acts.push(allow(root, "dev/shm", all));
    push_mkdir_p(&mut acts, root, "sys");
    acts.push(view(spec, if spec.gpu { "sys-gpu" } else { "sys" }, ro_noexec(), "sys"));
    acts.push(allow(root, "sys", READ));
    push_mkdir_p(&mut acts, root, "proc");
    acts.push(
        Act::Mount {
            fs: "proc".to_owned(),
            options: options1("hidepid", "invisible"),
            attrs: rw_noexec(),
            into: root,
            at: "proc".to_owned(),
            said: Some("proc".to_owned()),
        },
    );
    acts.push(allow(root, "proc", READ_WRITE));
    push_mkdir_p(&mut acts, root, "run");
    if spec.network {
        push_mkdir_p(&mut acts, root, "run/host");
        acts.push(Act::Touch { into: root, at: "run/host/resolv.conf".to_owned() });
        acts.push(
            bind(spec.resolv.as_str(), ro_noexec(), root, "run/host/resolv.conf", "resolv.conf"),
        );
        acts.push(allow(root, "run/host", READ));
    }
    assert(views(acts@) =~= view_acts(*spec, all));
    acts
}

fn own(spec: &Spec, all: u64) -> (r: Vec<Act<String, Options>>)
    ensures
        views(r@) == own_acts(*spec, all),
{
    broadcast use group_views;

    let root = Tree::Root;
    let home = below_root(spec.home.as_str());
    let mut acts: Vec<Act<String, Options>> = Vec::new();
    acts.push(fresh(Tree::Etc, options1("mode", "0755"), rw_noexec(), "etc tmpfs"));
    acts.push(allow(Tree::Etc, ".", all));
    acts.push(Act::Own { tree: Tree::Etc });
    push_mkdir_p(&mut acts, root, "etc");
    acts.push(Act::Attach { tree: Tree::Etc, at: "etc".to_owned() });
    let sized: Options = vec![option("mode", "0700"), option("size", "256m")];
    assert(views(sized@) =~= seq![("mode"@, "0700"@), ("size"@, "256m"@)]);
    acts.push(fresh(Tree::Home, sized, rw_noexec(), "home tmpfs"));
    push_mkdir_p(&mut acts, Tree::Home, ".state");
    acts.push(bind(spec.state.as_str(), rw_noexec(), Tree::Home, ".state", "state"));
    acts.push(allow(Tree::Home, ".", all));
    acts.push(Act::Own { tree: Tree::Home });
    push_mkdir_p(&mut acts, root, home.as_str());
    acts.push(Act::Attach { tree: Tree::Home, at: home });
    push_mkdir_p(&mut acts, root, "tmp");
    acts.push(bind(spec.tmp.as_str(), rw_noexec(), root, "tmp", "tmp"));
    acts.push(allow(root, "tmp", all));
    assert(views(acts@) =~= own_acts(*spec, all));
    acts
}

fn failed(text: String) -> (r: Vec<Act<String, Options>>)
    ensures
        views(r@) == seq![ActView::Fail(text@)],
{
    broadcast use group_views;

    let mut acts: Vec<Act<String, Options>> = Vec::new();
    acts.push(Act::Fail(text));
    assert(views(acts@) =~= seq![ActView::Fail(acts@[0]->Fail_0@)]);
    acts
}

/// One entry of `/run`, and whether it ends it.
fn run(entry: &RunEntry, all: u64) -> (r: (Vec<Act<String, Options>>, bool))
    ensures
        views(r.0@) == run_acts(*entry, all),
        r.1 == refused(*entry),
{
    broadcast use group_views;

    let root = Tree::Root;
    let rel = match under_run(entry.path.as_str()) {
        None => {
            let mut text = entry.path.clone();
            text.append(": not under /run");
            return (failed(text), true);
        },
        Some(rel) => rel,
    };
    let at = join_path("run", rel.as_str());
    let mut said = "run entry ".to_owned();
    said.append(entry.path.as_str());
    let access = if entry.writable { all } else { READ };
    let mut acts: Vec<Act<String, Options>> = Vec::new();
    match &entry.what {
        What::Missing(err) => {
            return (failed(ctx(Some(said.as_str()), err.as_str())), true);
        },
        What::Unread(err) => {
            return (failed(err.clone()), true);
        },
        What::Link(target) => {
            if let Some(dir) = parent(at.as_str()) {
                push_mkdir_p(&mut acts, root, dir.as_str());
            }
            acts.push(
                Act::Symlink { target: target.clone(), into: root, at: at.clone() },
            );
        },
        _ => {
            push_mkdir_p(&mut acts, root, at.as_str());
            acts.push(
                bind(entry.path.as_str(), rw_noexec(), root, at.as_str(), said.as_str()),
            );
        },
    }
    acts.push(allow(root, at.as_str(), access));
    assert(views(acts@) =~= run_acts(*entry, all));
    (acts, false)
}

/// What is left of the entries from `i` on, added to what was done.
proof fn lemma_runs_step(entries: Seq<RunEntry>, i: int, all: u64, done: Seq<ActView>)
    requires
        0 <= i < entries.len(),
    ensures
        refused(entries[i]) ==> done + runs_acts(entries.skip(i), all) == done + run_acts(
            entries[i],
            all,
        ),
        !refused(entries[i]) ==> done + runs_acts(entries.skip(i), all) == (done + run_acts(
            entries[i],
            all,
        )) + runs_acts(entries.skip(i + 1), all),
{
    assert(entries.skip(i)[0] == entries[i]);
    assert(entries.skip(i).skip(1) =~= entries.skip(i + 1));
    assert(done + (run_acts(entries[i], all) + runs_acts(entries.skip(i + 1), all)) =~= (done
        + run_acts(entries[i], all)) + runs_acts(entries.skip(i + 1), all));
}

/// Everything that puts an app's root together; `rules` is the ruleset that is filled beside
/// it.
pub fn prepare(spec: &Spec, rules: &Ruleset) -> (r: Vec<Act<String, Options>>)
    ensures
        views(r@) == root_acts(*spec, rules.handled),
{
    broadcast use group_views;

    let all = rules.all();
    let mut acts = store(spec);
    let mut more = host(spec, all);
    acts.append(&mut more);
    let mut more = own(spec, all);
    acts.append(&mut more);
    let ghost head = views(acts@);
    let ghost entries = spec.run@;
    let ghost whole = head + runs_acts(entries, all);
    let mut i: usize = 0;
    assert(entries.skip(0) =~= entries);
    while i < spec.run.len()
        invariant
            i <= spec.run@.len(),
            entries == spec.run@,
            all == rules.handled,
            head == store_acts(*spec) + view_acts(*spec, all) + own_acts(*spec, all),
            whole == head + runs_acts(entries, all),
            whole == views(acts@) + runs_acts(entries.skip(i as int), all),
            forall|j: int| 0 <= j < i ==> !refused(#[trigger] entries[j]),
        decreases spec.run@.len() - i,
    {
        let ghost done = views(acts@);
        let (mut more, ends) = run(&spec.run[i], all);
        acts.append(&mut more);
        proof {
            lemma_runs_step(entries, i as int, all, done);
        }
        if ends {
            assert(some_refused(entries));
            return acts;
        }
        i = i + 1;
    }
    assert(entries.skip(i as int).len() == 0);
    assert(runs_acts(entries.skip(i as int), all) =~= Seq::<ActView>::empty());
    assert(views(acts@) + Seq::<ActView>::empty() =~= views(acts@));
    acts.push(Act::SetTop { attrs: ro() });
    acts
}

/// How many of the paths that rules were asked for are not on this machine: `there` says of
/// each whether it is.
pub fn missing(there: &Vec<bool>) -> (r: usize)
    ensures
        r == there@.filter(|t: bool| !t).len(),
{
    let ghost gone = |t: bool| !t;
    let mut n: usize = 0;
    let mut i: usize = 0;
    assert(there@.take(0) =~= Seq::<bool>::empty());
    reveal(Seq::filter);
    while i < there.len()
        invariant
            i <= there@.len(),
            gone == (|t: bool| !t),
            n <= i,
            n == there@.take(i as int).filter(gone).len(),
        decreases there@.len() - i,
    {
        assert(there@.take(i + 1) =~= there@.take(i as int).push(there@[i as int]));
        proof {
            there@.take(i as int).lemma_filter_push(there@[i as int], gone);
        }
        if !there[i] {
            n = n + 1;
        }
        i = i + 1;
    }
    assert(there@.take(i as int) =~= there@);
    n
}

/// What a child does to enter the root, with CAP_SYS_ADMIN, and what it does as the app.
#[derive(Clone, Copy, Debug, PartialEq, Eq, Structural)]
pub enum Enter {
    /// A mount namespace, and an empty network namespace where `net` says so.
    Unshare { net: bool },
    /// Nothing of it is seen outside.
    Private,
    /// The tree hung on a directory of ours.
    Hang,
    /// Into that directory.
    ChdirTree,
    /// The tree made the root, the old root on top of it.
    Pivot,
    /// The old root gone.
    Detach,
    ChdirRoot,
}

/// Entering the root.
pub fn enter(network: bool) -> (r: Vec<Enter>)
    ensures
        r@ == seq![
            Enter::Unshare { net: !network },
            Enter::Private,
            Enter::Hang,
            Enter::ChdirTree,
            Enter::Pivot,
            Enter::Detach,
            Enter::ChdirRoot,
        ],
{
    let r = vec![
        Enter::Unshare { net: !network },
        Enter::Private,
        Enter::Hang,
        Enter::ChdirTree,
        Enter::Pivot,
        Enter::Detach,
        Enter::ChdirRoot,
    ];
    assert(r@ =~= seq![
        Enter::Unshare { net: !network },
        Enter::Private,
        Enter::Hang,
        Enter::ChdirTree,
        Enter::Pivot,
        Enter::Detach,
        Enter::ChdirRoot,
    ]);
    r
}

/// Whether the app's memory may never become executable: always, but for one with a JIT.
pub fn refuses_exec_gain(jit: bool) -> (r: bool)
    ensures
        r == !jit,
{
    !jit
}

} // verus!
