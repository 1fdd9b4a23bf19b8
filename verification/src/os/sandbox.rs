//! The private view of the filesystem every process we start gets: planned before the fork,
//! and applied between fork and exec as a list of system calls on strings that are built
//! already.
use vstd::prelude::*;
use vstd::string::*;

use super::path::{
    above, below, below_run, check_nul, dirs_above, empty, has_path, holds_path, is_below, nul_fault,
    under_run,
};
use crate::text::{join_path, path_under};
use crate::views::{group_views, view_opt, views};

verus! {

/// Under `/dev/shm`, always a fresh tmpfs of ours.
pub const STAGE: &'static str = "/dev/shm/.run";

pub const MS_RDONLY: u64 = 1;

pub const MS_NOSUID: u64 = 2;

pub const MS_NODEV: u64 = 4;

pub const MS_NOEXEC: u64 = 8;

pub const MS_REMOUNT: u64 = 32;

pub const MS_BIND: u64 = 4096;

pub const MS_MOVE: u64 = 8192;

pub const MS_REC: u64 = 16384;

pub const MS_PRIVATE: u64 = 262144;

/// No set-id programs, no device nodes.
pub const NODEV: u64 = 6;

/// One system call of the child, with what is said where it fails. `T` is text.
#[derive(Debug)]
pub enum Sys<T> {
    /// A mount namespace, and a network namespace with nothing in it where `net` says so.
    Unshare { net: bool, step: T },
    Mount { src: Option<T>, dst: T, fs: Option<T>, flags: u64, data: Option<T>, step: T },
    /// A directory; one that is there already is fine where `again` says so.
    Mkdir { path: T, again: bool, step: T },
    /// An empty file, unless there is one.
    Touch { path: T, step: T },
    Symlink { target: T, link: T, step: T },
    Chdir { path: T, step: T },
    PivotRoot { new: T, old: T, step: T },
    /// A mount taken down from the tree.
    Detach { path: T, step: T },
    /// A directory taken away; where nothing is said, whatever comes of it.
    Rmdir { path: T, said: Option<T> },
}

pub type SysView = Sys<Seq<char>>;

impl View for Sys<String> {
    type V = SysView;

    open spec fn view(&self) -> SysView {
        match *self {
            Sys::Unshare { net, step } => Sys::Unshare { net, step: step@ },
            Sys::Mount { src, dst, fs, flags, data, step } => Sys::Mount {
                src: view_opt(src),
                dst: dst@,
                fs: view_opt(fs),
                flags,
                data: view_opt(data),
                step: step@,
            },
            Sys::Mkdir { path, again, step } => Sys::Mkdir { path: path@, again, step: step@ },
            Sys::Touch { path, step } => Sys::Touch { path: path@, step: step@ },
            Sys::Symlink { target, link, step } => Sys::Symlink {
                target: target@,
                link: link@,
                step: step@,
            },
            Sys::Chdir { path, step } => Sys::Chdir { path: path@, step: step@ },
            Sys::PivotRoot { new, old, step } => Sys::PivotRoot {
                new: new@,
                old: old@,
                step: step@,
            },
            Sys::Detach { path, step } => Sys::Detach { path: path@, step: step@ },
            Sys::Rmdir { path, said } => Sys::Rmdir { path: path@, said: view_opt(said) },
        }
    }
}

/// What is at a path: a directory, a symlink and where it leads or why that cannot be read,
/// something else, or why none of it can be said.
#[derive(Debug)]
pub enum What {
    Dir,
    Link(String),
    Unread(String),
    Other,
    Missing(String),
}

/// An entry under `/run` to keep, and what it is.
#[derive(Debug)]
pub struct Exposed {
    pub path: String,
    pub what: What,
}

/// A process's private view of the filesystem.
#[derive(Debug)]
pub struct Sandbox {
    /// No interfaces at all.
    pub no_network: bool,
    /// Directories to create in the staging tmpfs, parents first.
    pub dirs: Vec<String>,
    /// `(source, target)` bind mounts into the staging tmpfs.
    pub binds: Vec<(String, String)>,
    /// `(link target, link path)` symlinks recreated in the staging tmpfs.
    pub symlinks: Vec<(String, String)>,
    /// Bound over `/tmp`, if the process gets a `/tmp` that outlives it.
    pub tmp: Option<String>,
}

/// What is planned so far, or what is wrong with it.
pub struct Planned {
    pub dirs: Seq<Seq<char>>,
    pub binds: Seq<(Seq<char>, Seq<char>)>,
    pub symlinks: Seq<(Seq<char>, Seq<char>)>,
    pub fault: Option<Seq<char>>,
}

impl Planned {
    pub open spec fn empty() -> Planned {
        Planned { dirs: Seq::empty(), binds: Seq::empty(), symlinks: Seq::empty(), fault: None }
    }

    /// Something is wrong.
    pub open spec fn fails(self, text: Seq<char>) -> Planned {
        if self.fault is Some {
            self
        } else {
            Planned { fault: Some(text), ..self }
        }
    }

    /// C must be able to hold a path.
    pub open spec fn checked(self, path: Seq<char>) -> Planned {
        match nul_fault(path) {
            Some(text) => self.fails(text),
            None => self,
        }
    }

    /// A directory, once, however it is written.
    pub open spec fn dir(self, path: Seq<char>) -> Planned {
        if self.fault is Some || has_path(self.dirs, path) {
            self
        } else if nul_fault(path) is Some {
            self.checked(path)
        } else {
            Planned { dirs: self.dirs.push(path), ..self }
        }
    }

    /// Those of the directories that are in the stage.
    pub open spec fn parents(self, list: Seq<Seq<char>>) -> Planned
        decreases list.len(),
    {
        if list.len() == 0 {
            self
        } else if is_below(list.last(), STAGE@) {
            self.parents(list.drop_last()).dir(list.last())
        } else {
            self.parents(list.drop_last())
        }
    }

    pub open spec fn bind(self, src: Seq<char>, dst: Seq<char>) -> Planned {
        let p = self.checked(src).checked(dst);
        if p.fault is Some {
            p
        } else {
            Planned { binds: p.binds.push((src, dst)), ..p }
        }
    }

    pub open spec fn link(self, target: Seq<char>, link: Seq<char>) -> Planned {
        let p = self.checked(target).checked(link);
        if p.fault is Some {
            p
        } else {
            Planned { symlinks: p.symlinks.push((target, link)), ..p }
        }
    }
}

/// One more entry is exposed.
pub open spec fn exposed(plan: Planned, entry: Exposed) -> Planned {
    if plan.fault is Some {
        plan
    } else {
        match below_run(entry.path@) {
            None => plan.fails("expose "@ + entry.path@ + ": not under /run"@),
            Some(rel) => if rel.len() == 0 {
                plan.fails("expose /run: exposing everything defeats the sandbox"@)
            } else {
                let at = path_under(STAGE@, rel);
                let made = plan.parents(above(at));
                match entry.what {
                    What::Missing(err) => made.fails("expose "@ + entry.path@ + ": "@ + err@),
                    What::Unread(err) => made.fails("readlink "@ + entry.path@ + ": "@ + err@),
                    What::Link(target) => made.link(target@, at),
                    What::Dir => made.dir(at).bind(entry.path@, at),
                    What::Other => made.fails(
                        "expose "@ + entry.path@ + ": only directories and symlinks"@,
                    ),
                }
            },
        }
    }
}

/// All the entries are exposed, in order.
pub open spec fn all_exposed(entries: Seq<Exposed>) -> Planned
    decreases entries.len(),
{
    if entries.len() == 0 {
        Planned::empty()
    } else {
        exposed(all_exposed(entries.drop_last()), entries.last())
    }
}

struct Planner {
    dirs: Vec<String>,
    binds: Vec<(String, String)>,
    symlinks: Vec<(String, String)>,
    fault: Option<String>,
}

impl Planner {
    spec fn plan(&self) -> Planned {
        Planned {
            dirs: views(self.dirs@),
            binds: views(self.binds@),
            symlinks: views(self.symlinks@),
            fault: view_opt(self.fault),
        }
    }

    fn fail(&mut self, text: String)
        ensures
            final(self).plan() == old(self).plan().fails(text@),
    {
        if self.fault.is_none() {
            self.fault = Some(text);
        }
    }

    fn check(&mut self, path: &str)
        ensures
            final(self).plan() == old(self).plan().checked(path@),
    {
        if let Some(text) = check_nul(path) {
            self.fail(text);
        }
    }

    fn dir(&mut self, path: String)
        ensures
            final(self).plan() == old(self).plan().dir(path@),
    {
        broadcast use group_views;

        if self.fault.is_some() || holds_path(&self.dirs, path.as_str()) {
            return;
        }
        match check_nul(path.as_str()) {
            Some(text) => {
                self.fail(text);
            },
            None => {
                self.dirs.push(path);
            },
        }
    }

    fn parents(&mut self, list: &Vec<String>)
        ensures
            final(self).plan() == old(self).plan().parents(views(list@)),
    {
        broadcast use group_views;

        let ghost all = views(list@);
        let mut i: usize = 0;
        assert(all.take(0) =~= Seq::<Seq<char>>::empty());
        while i < list.len()
            invariant
                i <= list@.len(),
                all == views(list@),
                self.plan() == old(self).plan().parents(all.take(i as int)),
            decreases list@.len() - i,
        {
            assert(all.take(i + 1).drop_last() =~= all.take(i as int));
            assert(all.take(i + 1).last() == list@[i as int]@);
            if below(list[i].as_str(), STAGE) {
                self.dir(list[i].clone());
            }
            i = i + 1;
        }
        assert(all.take(i as int) =~= all);
    }

    fn bind(&mut self, src: &String, dst: &String)
        ensures
            final(self).plan() == old(self).plan().bind(src@, dst@),
    {
        broadcast use group_views;

        self.check(src.as_str());
        self.check(dst.as_str());
        if self.fault.is_none() {
            self.binds.push((src.clone(), dst.clone()));
        }
    }

    fn link(&mut self, target: &String, link: &String)
        ensures
            final(self).plan() == old(self).plan().link(target@, link@),
    {
        broadcast use group_views;

        self.check(target.as_str());
        self.check(link.as_str());
        if self.fault.is_none() {
            self.symlinks.push((target.clone(), link.clone()));
        }
    }

    fn expose(&mut self, entry: &Exposed)
        ensures
            final(self).plan() == exposed(old(self).plan(), *entry),
    {
        broadcast use group_views;

        if self.fault.is_some() {
            return;
        }
        let rel = match under_run(entry.path.as_str()) {
            Some(rel) => rel,
            None => {
                let mut text = "expose ".to_owned();
                text.append(entry.path.as_str());
                text.append(": not under /run");
                self.fail(text);
                return;
            },
        };
        if empty(rel.as_str()) {
            self.fail("expose /run: exposing everything defeats the sandbox".to_owned());
            return;
        }
        let at = join_path(STAGE, rel.as_str());
        self.parents(&dirs_above(at.as_str()));
        match &entry.what {
            What::Unread(err) => {
                let mut text = "readlink ".to_owned();
                text.append(entry.path.as_str());
                text.append(": ");
                text.append(err.as_str());
                self.fail(text);
            },
            What::Missing(err) => {
                let mut text = "expose ".to_owned();
                text.append(entry.path.as_str());
                text.append(": ");
                text.append(err.as_str());
                self.fail(text);
            },
            What::Link(target) => {
                self.link(target, &at);
            },
            What::Dir => {
                self.dir(at.clone());
                self.bind(&entry.path, &at);
            },
            What::Other => {
                let mut text = "expose ".to_owned();
                text.append(entry.path.as_str());
                text.append(": only directories and symlinks");
                self.fail(text);
            },
        }
    }
}

impl Sandbox {
    /// `expose`: entries under `/run` to keep (directories bind-mounted, symlinks recreated).
    /// `tmp`: a directory of the process's own to be its `/tmp`; `None` for a fresh tmpfs.
    pub fn plan(expose: &Vec<Exposed>, network: bool, tmp: Option<String>) -> (r: Result<
        Sandbox,
        String,
    >)
        ensures
            ({
                let planned = all_exposed(expose@);
                let whole = match tmp {
                    Some(t) => planned.checked(t@),
                    None => planned,
                };
                match r {
                    Ok(s) => {
                        &&& whole.fault is None
                        &&& s.no_network == !network
                        &&& views(s.dirs@) == whole.dirs
                        &&& views(s.binds@) == whole.binds
                        &&& views(s.symlinks@) == whole.symlinks
                        &&& s.tmp == tmp
                    },
                    Err(e) => whole.fault == Some(e@),
                }
            }),
    {
        broadcast use group_views;

        let mut plan = Planner {
            dirs: Vec::new(),
            binds: Vec::new(),
            symlinks: Vec::new(),
            fault: None,
        };
        assert(plan.plan() == Planned::empty());
        let mut i: usize = 0;
        assert(expose@.take(0) =~= Seq::<Exposed>::empty());
        while i < expose.len()
            invariant
                i <= expose@.len(),
                plan.plan() == all_exposed(expose@.take(i as int)),
            decreases expose@.len() - i,
        {
            assert(expose@.take(i + 1).drop_last() =~= expose@.take(i as int));
            plan.expose(&expose[i]);
            i = i + 1;
        }
        assert(expose@.take(i as int) =~= expose@);
        if let Some(t) = &tmp {
            plan.check(t.as_str());
        }
        match plan.fault {
            Some(e) => Err(e),
            None => Ok(
                Sandbox {
                    no_network: !network,
                    dirs: plan.dirs,
                    binds: plan.binds,
                    symlinks: plan.symlinks,
                    tmp,
                },
            ),
        }
    }
}

/// A mount with a source.
pub open spec fn mounted(
    src: Seq<char>,
    dst: Seq<char>,
    fs: Option<Seq<char>>,
    flags: u64,
    data: Option<Seq<char>>,
    step: Seq<char>,
) -> SysView {
    Sys::Mount { src: Some(src), dst, fs, flags, data, step }
}

/// A fresh tmpfs.
pub open spec fn tmpfs(dst: Seq<char>, data: Seq<char>, step: Seq<char>) -> SysView {
    mounted("tmpfs"@, dst, Some("tmpfs"@), NODEV, Some(data), step)
}

/// What comes before what is staged: the namespaces, `/tmp`, `/dev/shm`, `/proc`, the stage.
pub open spec fn sandbox_head(no_network: bool, tmp: Option<Seq<char>>) -> Seq<SysView> {
    let first = seq![
        Sys::Unshare { net: no_network, step: "unshare(CLONE_NEWNS | CLONE_NEWNET)"@ },
        mounted("none"@, "/"@, None, (MS_REC + MS_PRIVATE) as u64, None, "make / private"@),
    ];
    first + (match tmp {
        Some(own) => seq![
            mounted(own, "/tmp"@, None, MS_BIND, None, "bind own /tmp"@),
            mounted(
                "none"@,
                "/tmp"@,
                None,
                (MS_REMOUNT + MS_BIND + NODEV) as u64,
                None,
                "remount own /tmp nosuid"@,
            ),
        ],
        None => seq![tmpfs("/tmp"@, "mode=1777"@, "tmpfs on /tmp"@)],
    }) + seq![
        tmpfs("/dev/shm"@, "mode=1777"@, "tmpfs on /dev/shm"@),
        mounted(
            "proc"@,
            "/proc"@,
            Some("proc"@),
            (NODEV + MS_NOEXEC) as u64,
            Some("hidepid=invisible"@),
            "proc with hidepid"@,
        ),
        Sys::Mkdir { path: STAGE@, again: false, step: "mkdir stage"@ },
        tmpfs(STAGE@, "mode=0755"@, "tmpfs on stage"@),
    ]
}

/// The directories of the stage.
pub open spec fn made_dirs(dirs: Seq<Seq<char>>) -> Seq<SysView> {
    dirs.map_values(
        |d: Seq<char>| Sys::Mkdir { path: d, again: true, step: "mkdir in stage"@ },
    )
}

/// The bind mounts into the stage.
pub open spec fn made_binds(binds: Seq<(Seq<char>, Seq<char>)>) -> Seq<SysView> {
    binds.map_values(
        |b: (Seq<char>, Seq<char>)|
            mounted(b.0, b.1, None, (MS_BIND + MS_REC) as u64, None, "bind mount into stage"@),
    )
}

/// The symlinks of the stage.
pub open spec fn made_links(links: Seq<(Seq<char>, Seq<char>)>) -> Seq<SysView> {
    links.map_values(
        |l: (Seq<char>, Seq<char>)|
            Sys::Symlink { target: l.0, link: l.1, step: "symlink in stage"@ },
    )
}

/// What comes after what is staged: the stage becomes `/run`, read-only.
pub open spec fn sandbox_tail() -> Seq<SysView> {
    seq![
        mounted(STAGE@, "/run"@, None, MS_MOVE, None, "move stage to /run"@),
        Sys::Rmdir { path: STAGE@, said: None::<Seq<char>> },
        mounted(
            "none"@,
            "/run"@,
            None,
            (MS_REMOUNT + MS_BIND + MS_RDONLY + NODEV) as u64,
            None,
            "remount /run read-only"@,
        ),
    ]
}

/// Everything the child does.
pub open spec fn sandbox_calls(sandbox: Sandbox) -> Seq<SysView> {
    sandbox_head(sandbox.no_network, view_opt(sandbox.tmp)) + made_dirs(views(sandbox.dirs@))
        + made_binds(views(sandbox.binds@)) + made_links(views(sandbox.symlinks@)) + sandbox_tail()
}

fn mount(src: &str, dst: &str, fs: Option<String>, flags: u64, data: Option<String>, step: &str) -> (r:
    Sys<String>)
    ensures
        r@ == mounted(src@, dst@, view_opt(fs), flags, view_opt(data), step@),
{
    Sys::Mount {
        src: Some(src.to_owned()),
        dst: dst.to_owned(),
        fs,
        flags,
        data,
        step: step.to_owned(),
    }
}

fn mount_tmpfs(dst: &str, data: &str, step: &str) -> (r: Sys<String>)
    ensures
        r@ == tmpfs(dst@, data@, step@),
{
    mount("tmpfs", dst, Some("tmpfs".to_owned()), NODEV, Some(data.to_owned()), step)
}

fn push_dirs(calls: &mut Vec<Sys<String>>, dirs: &Vec<String>)
    ensures
        views(final(calls)@) == views(old(calls)@) + made_dirs(views(dirs@)),
{
    broadcast use group_views;

    let ghost start = views(calls@);
    let ghost all = made_dirs(views(dirs@));
    let mut i: usize = 0;
    assert(start + all.take(0) =~= start);
    while i < dirs.len()
        invariant
            i <= dirs@.len() == all.len(),
            all == made_dirs(views(dirs@)),
            views(calls@) == start + all.take(i as int),
        decreases dirs@.len() - i,
    {
        calls.push(
            Sys::Mkdir { path: dirs[i].clone(), again: true, step: "mkdir in stage".to_owned() },
        );
        assert(all[i as int] == calls@.last()@);
        assert(start + all.take(i + 1) =~= (start + all.take(i as int)).push(all[i as int]));
        i = i + 1;
    }
    assert(all.take(i as int) =~= all);
}

fn push_binds(calls: &mut Vec<Sys<String>>, binds: &Vec<(String, String)>)
    ensures
        views(final(calls)@) == views(old(calls)@) + made_binds(views(binds@)),
{
    broadcast use group_views;

    let ghost start = views(calls@);
    let ghost all = made_binds(views(binds@));
    let mut i: usize = 0;
    assert(start + all.take(0) =~= start);
    while i < binds.len()
        invariant
            i <= binds@.len() == all.len(),
            all == made_binds(views(binds@)),
            views(calls@) == start + all.take(i as int),
        decreases binds@.len() - i,
    {
        let b = &binds[i];
        calls.push(
            mount(
                b.0.as_str(),
                b.1.as_str(),
                None,
                MS_BIND + MS_REC,
                None,
                "bind mount into stage",
            ),
        );
        assert(views(binds@)[i as int] == binds@[i as int]@);
        assert(all[i as int] == calls@.last()@);
        assert(start + all.take(i + 1) =~= (start + all.take(i as int)).push(all[i as int]));
        i = i + 1;
    }
    assert(all.take(i as int) =~= all);
}

fn push_links(calls: &mut Vec<Sys<String>>, links: &Vec<(String, String)>)
    ensures
        views(final(calls)@) == views(old(calls)@) + made_links(views(links@)),
{
    broadcast use group_views;

    let ghost start = views(calls@);
    let ghost all = made_links(views(links@));
    let mut i: usize = 0;
    assert(start + all.take(0) =~= start);
    while i < links.len()
        invariant
            i <= links@.len() == all.len(),
            all == made_links(views(links@)),
            views(calls@) == start + all.take(i as int),
        decreases links@.len() - i,
    {
        let l = &links[i];
        calls.push(
            Sys::Symlink {
                target: l.0.clone(),
                link: l.1.clone(),
                step: "symlink in stage".to_owned(),
            },
        );
        assert(views(links@)[i as int] == links@[i as int]@);
        assert(all[i as int] == calls@.last()@);
        assert(start + all.take(i + 1) =~= (start + all.take(i as int)).push(all[i as int]));
        i = i + 1;
    }
    assert(all.take(i as int) =~= all);
}

impl Sandbox {
    fn head(&self) -> (r: Vec<Sys<String>>)
        ensures
            views(r@) == sandbox_head(self.no_network, view_opt(self.tmp)),
    {
        broadcast use group_views;

        let mut calls: Vec<Sys<String>> = Vec::new();
        calls.push(
            Sys::Unshare {
                net: self.no_network,
                step: "unshare(CLONE_NEWNS | CLONE_NEWNET)".to_owned(),
            },
        );
        calls.push(mount("none", "/", None, MS_REC + MS_PRIVATE, None, "make / private"));
        match &self.tmp {
            Some(own) => {
                calls.push(mount(own.as_str(), "/tmp", None, MS_BIND, None, "bind own /tmp"));
                calls.push(
                    mount(
                        "none",
                        "/tmp",
                        None,
                        MS_REMOUNT + MS_BIND + NODEV,
                        None,
                        "remount own /tmp nosuid",
                    ),
                );
            },
            None => {
                calls.push(mount_tmpfs("/tmp", "mode=1777", "tmpfs on /tmp"));
            },
        }
        calls.push(mount_tmpfs("/dev/shm", "mode=1777", "tmpfs on /dev/shm"));
        calls.push(
            mount(
                "proc",
                "/proc",
                Some("proc".to_owned()),
                NODEV + MS_NOEXEC,
                Some("hidepid=invisible".to_owned()),
                "proc with hidepid",
            ),
        );
        calls.push(
            Sys::Mkdir { path: STAGE.to_owned(), again: false, step: "mkdir stage".to_owned() },
        );
        calls.push(mount_tmpfs(STAGE, "mode=0755", "tmpfs on stage"));
        assert(views(calls@) =~= sandbox_head(self.no_network, view_opt(self.tmp)));
        calls
    }

    /// What the child does, with CAP_SYS_ADMIN still in hand.
    pub fn apply(&self) -> (r: Vec<Sys<String>>)
        ensures
            views(r@) == sandbox_calls(*self),
    {
        broadcast use group_views;

        let mut calls = self.head();
        push_dirs(&mut calls, &self.dirs);
        push_binds(&mut calls, &self.binds);
        push_links(&mut calls, &self.symlinks);
        let ghost before = views(calls@);
        calls.push(mount(STAGE, "/run", None, MS_MOVE, None, "move stage to /run"));
        calls.push(Sys::Rmdir { path: STAGE.to_owned(), said: None });
        calls.push(
            mount(
                "none",
                "/run",
                None,
                MS_REMOUNT + MS_BIND + MS_RDONLY + NODEV,
                None,
                "remount /run read-only",
            ),
        );
        assert(views(calls@) =~= before + sandbox_tail());
        calls
    }
}

} // verus!
