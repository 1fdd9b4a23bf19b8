//! A process's root, built from handles: a fresh tmpfs pivoted in as `/`, detached mounts
//! attached at paths inside it, the host's root stacked beneath until it is detached.
use vstd::prelude::*;
use vstd::string::*;

use super::mounts::{rw, Attrs};
use super::path::{
    above, ancestors, ancestors_of, check_nul, comps, dirs_above, holds_text, nul_fault, same_path,
};
use crate::views::{group_views, views};

verus! {

/// What goes where. `T` is text.
#[derive(Debug)]
pub enum Step<T> {
    /// A directory to make; one already there is fine.
    Dir(T),
    /// A detached mount, by our number for it, and where it goes.
    Mount(u64, T),
    /// A symlink: target, path.
    Link(T, T),
}

pub type StepView = Step<Seq<char>>;

impl View for Step<String> {
    type V = StepView;

    open spec fn view(&self) -> StepView {
        match *self {
            Step::Dir(p) => Step::Dir(p@),
            Step::Mount(fd, p) => Step::Mount(fd, p@),
            Step::Link(t, p) => Step::Link(t@, p@),
        }
    }
}

/// The plan: what goes where, in order.
#[derive(Debug)]
pub struct Root {
    /// A directory of the current root the new one hangs on for the moment of the pivot.
    pub base: String,
    /// A network namespace of its own too, with nothing in it.
    pub new_net: bool,
    pub steps: Vec<Step<String>>,
    /// The directories that are made.
    pub dirs: Vec<String>,
}

/// A plan, by value, or what is wrong with it.
pub struct Planned {
    pub steps: Seq<StepView>,
    pub made: Seq<Seq<char>>,
    pub fault: Option<Seq<char>>,
}

impl Planned {
    /// A directory, once.
    pub open spec fn made(self, path: Seq<char>) -> Planned {
        if self.fault is Some {
            self
        } else if nul_fault(path) is Some {
            Planned { fault: nul_fault(path), ..self }
        } else if self.made.contains(path) {
            self
        } else {
            Planned {
                steps: self.steps.push(Step::Dir(path)),
                made: self.made.push(path),
                fault: None,
            }
        }
    }

    /// Directories, in order; the root is there already.
    pub open spec fn dirs(self, list: Seq<Seq<char>>) -> Planned
        decreases list.len(),
    {
        if list.len() == 0 {
            self
        } else if comps(list.last()) == comps("/"@) {
            self.dirs(list.drop_last())
        } else {
            self.dirs(list.drop_last()).made(list.last())
        }
    }

    /// C must be able to hold a path.
    pub open spec fn checked(self, path: Seq<char>) -> Planned {
        if self.fault is Some {
            self
        } else {
            Planned { fault: nul_fault(path), ..self }
        }
    }

    pub open spec fn step(self, step: StepView) -> Planned {
        if self.fault is Some {
            self
        } else {
            Planned { steps: self.steps.push(step), ..self }
        }
    }

    /// A detached mount at a path, made as a directory first.
    pub open spec fn mount(self, fd: u64, at: Seq<char>) -> Planned {
        self.dirs(ancestors(at)).checked(at).step(Step::Mount(fd, at))
    }

    /// A symlink at a path, its parent made first.
    pub open spec fn symlink(self, target: Seq<char>, at: Seq<char>) -> Planned {
        self.dirs(above(at)).checked(target).checked(at).step(Step::Link(target, at))
    }
}

/// What the child does with a plan, each with the line that says it failed.
#[derive(Debug)]
pub enum Build<T> {
    /// A mount namespace, and a network namespace with nothing in it where `net` says so.
    Unshare { net: bool, said: T },
    /// Nothing of it is seen outside.
    Private { said: T },
    /// The new root hung on a directory.
    Hang { at: T, said: T },
    Chdir { path: T, said: T },
    /// The new root pivoted in, the old one stacked beneath it.
    Pivot { said: T },
    /// A directory; one that is there already is fine.
    Mkdir { path: T, said: T },
    Attach { fd: u64, at: T, said: T },
    Symlink { target: T, at: T, said: T },
    /// The old root taken down from the tree.
    Detach { said: T },
    /// A handle on the new root.
    OpenRoot { said: T },
    /// The flags of the new root's top level.
    SetTop { attrs: Attrs, said: T },
}

pub type BuildView = Build<Seq<char>>;

impl View for Build<String> {
    type V = BuildView;

    open spec fn view(&self) -> BuildView {
        match *self {
            Build::Unshare { net, said } => Build::Unshare { net, said: said@ },
            Build::Private { said } => Build::Private { said: said@ },
            Build::Detach { said } => Build::Detach { said: said@ },
            Build::OpenRoot { said } => Build::OpenRoot { said: said@ },
            Build::SetTop { attrs, said } => Build::SetTop { attrs, said: said@ },
            Build::Hang { at, said } => Build::Hang { at: at@, said: said@ },
            Build::Chdir { path, said } => Build::Chdir { path: path@, said: said@ },
            Build::Pivot { said } => Build::Pivot { said: said@ },
            Build::Mkdir { path, said } => Build::Mkdir { path: path@, said: said@ },
            Build::Attach { fd, at, said } => Build::Attach { fd, at: at@, said: said@ },
            Build::Symlink { target, at, said } => Build::Symlink {
                target: target@,
                at: at@,
                said: said@,
            },
        }
    }
}

/// The line that says a step on a path failed.
pub open spec fn said_at(what: Seq<char>, path: Seq<char>) -> Seq<char> {
    "root: "@ + what + " "@ + path
}

fn say_at(what: &str, path: &str) -> (r: String)
    ensures
        r@ == said_at(what@, path@),
{
    let mut line = "root: ".to_owned();
    line.append(what);
    line.append(" ");
    line.append(path);
    line
}

/// What one step takes.
pub open spec fn built(step: StepView) -> BuildView {
    match step {
        Step::Dir(path) => Build::Mkdir { path, said: said_at("mkdir"@, path) },
        Step::Mount(fd, at) => Build::Attach { fd, at, said: said_at("mount"@, at) },
        Step::Link(target, at) => Build::Symlink { target, at, said: said_at("symlink"@, at) },
    }
}

/// The pivot: the new root in, the old one beneath it.
pub open spec fn pivoted(base: Seq<char>) -> Seq<BuildView> {
    seq![
        Build::Hang { at: base, said: "root: attach root"@ },
        Build::Chdir { path: base, said: "root: chdir base"@ },
        Build::Pivot { said: "root: pivot_root"@ },
        Build::Chdir { path: "/"@, said: "root: chdir /"@ },
    ]
}

impl Root {
    /// The plan so far, with what is wrong, if something is.
    pub open spec fn planned(&self, fault: Option<Seq<char>>) -> Planned {
        Planned { steps: views(self.steps@), made: views(self.dirs@), fault }
    }

    /// An empty plan; the new root is a filesystem of `fresh`.
    pub fn new(base: String, new_net: bool) -> (r: Result<Root, String>)
        ensures
            match r {
                Ok(root) => {
                    &&& nul_fault(base@) is None
                    &&& root.base == base
                    &&& root.new_net == new_net
                    &&& root.steps@.len() == 0
                    &&& root.dirs@.len() == 0
                },
                Err(e) => nul_fault(base@) == Some(e@),
            },
    {
        match check_nul(base.as_str()) {
            Some(e) => Err(e),
            None => Ok(Root { base, new_net, steps: Vec::new(), dirs: Vec::new() }),
        }
    }

    fn dir(&mut self, list: &Vec<String>, n: usize) -> (r: Result<(), String>)
        requires
            n <= list@.len(),
        ensures
            final(self).base == old(self).base,
            final(self).new_net == old(self).new_net,
            match r {
                Ok(_) => final(self).planned(None) == old(self).planned(None).dirs(
                    views(list@).take(n as int),
                ),
                Err(e) => final(self).planned(Some(e@)) == old(self).planned(None).dirs(
                    views(list@).take(n as int),
                ),
            },
        decreases n,
    {
        broadcast use group_views;

        if n == 0 {
            return Ok(());
        }
        let ghost some = views(list@).take(n as int);
        assert(some.drop_last() =~= views(list@).take(n - 1));
        assert(some.last() == list@[n - 1]@);
        match self.dir(list, n - 1) {
            Ok(_) => {},
            Err(e) => return Err(e),
        }
        let here = list[n - 1].clone();
        if same_path(here.as_str(), "/") {
            return Ok(());
        }
        match check_nul(here.as_str()) {
            Some(e) => Err(e),
            None => {
                if !holds_text(&self.dirs, here.as_str()) {
                    self.steps.push(Step::Dir(here.clone()));
                    self.dirs.push(here);
                }
                Ok(())
            },
        }
    }

    fn dir_all(&mut self, list: &Vec<String>) -> (r: Result<(), String>)
        ensures
            final(self).base == old(self).base,
            final(self).new_net == old(self).new_net,
            match r {
                Ok(_) => final(self).planned(None) == old(self).planned(None).dirs(views(list@)),
                Err(e) => final(self).planned(Some(e@)) == old(self).planned(None).dirs(
                    views(list@),
                ),
            },
    {
        broadcast use group_views;

        assert(views(list@).take(list@.len() as int) =~= views(list@));
        self.dir(list, list.len())
    }

    /// A detached mount at `at`, made as a directory first.
    pub fn mount(&mut self, fd: u64, at: &str) -> (r: Result<(), String>)
        ensures
            final(self).base == old(self).base,
            final(self).new_net == old(self).new_net,
            match r {
                Ok(_) => final(self).planned(None) == old(self).planned(None).mount(fd, at@),
                Err(e) => final(self).planned(Some(e@)) == old(self).planned(None).mount(fd, at@),
            },
    {
        broadcast use group_views;

        match self.dir_all(&ancestors_of(at)) {
            Ok(_) => {},
            Err(e) => return Err(e),
        }
        match check_nul(at) {
            Some(e) => Err(e),
            None => {
                self.steps.push(Step::Mount(fd, at.to_owned()));
                Ok(())
            },
        }
    }

    /// A symlink at `at` to `target`.
    pub fn symlink(&mut self, target: &str, at: &str) -> (r: Result<(), String>)
        ensures
            final(self).base == old(self).base,
            final(self).new_net == old(self).new_net,
            match r {
                Ok(_) => final(self).planned(None) == old(self).planned(None).symlink(target@, at@),
                Err(e) => final(self).planned(Some(e@)) == old(self).planned(None).symlink(
                    target@,
                    at@,
                ),
            },
    {
        broadcast use group_views;

        match self.dir_all(&dirs_above(at)) {
            Ok(_) => {},
            Err(e) => return Err(e),
        }
        match check_nul(target) {
            Some(e) => return Err(e),
            None => {},
        }
        match check_nul(at) {
            Some(e) => Err(e),
            None => {
                self.steps.push(Step::Link(target.to_owned(), at.to_owned()));
                Ok(())
            },
        }
    }

    /// A mount namespace of our own (and a network namespace, if asked), the old root made
    /// private, before the plan is built.
    pub fn unshare(&self) -> (r: Vec<Build<String>>)
        ensures
            views(r@) == seq![
                BuildView::Unshare { net: self.new_net, said: "root: unshare"@ },
                BuildView::Private { said: "root: make private"@ },
            ],
    {
        broadcast use group_views;

        let mut out: Vec<Build<String>> = Vec::new();
        out.push(Build::Unshare { net: self.new_net, said: "root: unshare".to_owned() });
        out.push(Build::Private { said: "root: make private".to_owned() });
        assert(views(out@) =~= seq![
            BuildView::Unshare { net: self.new_net, said: "root: unshare"@ },
            BuildView::Private { said: "root: make private"@ },
        ]);
        out
    }

    /// The pivot and the steps.
    pub fn build(&self) -> (r: Vec<Build<String>>)
        ensures
            views(r@) == pivoted(self.base@) + views(self.steps@).map_values(
                |s: StepView| built(s),
            ),
    {
        broadcast use group_views;

        let mut out: Vec<Build<String>> = Vec::new();
        out.push(Build::Hang { at: self.base.clone(), said: "root: attach root".to_owned() });
        out.push(Build::Chdir { path: self.base.clone(), said: "root: chdir base".to_owned() });
        out.push(Build::Pivot { said: "root: pivot_root".to_owned() });
        out.push(Build::Chdir { path: "/".to_owned(), said: "root: chdir /".to_owned() });
        let ghost head = pivoted(self.base@);
        assert(views(out@) =~= head);
        let ghost all = views(self.steps@).map_values(|s: StepView| built(s));
        let mut i: usize = 0;
        assert(head + all.take(0) =~= head);
        while i < self.steps.len()
            invariant
                i <= self.steps@.len() == all.len(),
                all == views(self.steps@).map_values(|s: StepView| built(s)),
                views(out@) == head + all.take(i as int),
            decreases self.steps@.len() - i,
        {
            out.push(
                match &self.steps[i] {
                    Step::Dir(p) => Build::Mkdir {
                        path: p.clone(),
                        said: say_at("mkdir", p.as_str()),
                    },
                    Step::Mount(fd, p) => Build::Attach {
                        fd: *fd,
                        at: p.clone(),
                        said: say_at("mount", p.as_str()),
                    },
                    Step::Link(t, p) => Build::Symlink {
                        target: t.clone(),
                        at: p.clone(),
                        said: say_at("symlink", p.as_str()),
                    },
                },
            );
            assert(views(self.steps@)[i as int] == self.steps@[i as int]@);
            assert(all[i as int] == out@.last()@);
            assert(head + all.take(i + 1) =~= (head + all.take(i as int)).push(all[i as int]));
            i = i + 1;
        }
        assert(all.take(i as int) =~= all);
        out
    }
}

/// A filesystem instance, and what goes in front of the error where it cannot be had.
#[derive(Debug)]
pub struct Fresh {
    pub fs: String,
    pub options: Vec<(String, String)>,
    pub attrs: Attrs,
    pub said: String,
}

/// The filesystem that is the new root.
pub fn fresh() -> (r: Fresh)
    ensures
        r.fs@ == "tmpfs"@,
        views(r.options@) == seq![("mode"@, "0755"@)],
        r.attrs == rw(),
        r.said@ == "root tmpfs"@,
{
    broadcast use group_views;

    let options: Vec<(String, String)> = vec![("mode".to_owned(), "0755".to_owned())];
    assert(views(options@) =~= seq![("mode"@, "0755"@)]);
    Fresh { fs: "tmpfs".to_owned(), options, attrs: rw(), said: "root tmpfs".to_owned() }
}

/// The old root detached, and the top level of the new one given `attrs`.
pub fn finish(attrs: Attrs) -> (r: Vec<Build<String>>)
    ensures
        views(r@) == seq![
            BuildView::Detach { said: "root: detach old root"@ },
            BuildView::OpenRoot { said: "root: open /"@ },
            BuildView::SetTop { attrs, said: "root: root attrs"@ },
        ],
{
    broadcast use group_views;

    let mut out: Vec<Build<String>> = Vec::new();
    out.push(Build::Detach { said: "root: detach old root".to_owned() });
    out.push(Build::OpenRoot { said: "root: open /".to_owned() });
    out.push(Build::SetTop { attrs, said: "root: root attrs".to_owned() });
    assert(views(out@) =~= seq![
        BuildView::Detach { said: "root: detach old root"@ },
        BuildView::OpenRoot { said: "root: open /"@ },
        BuildView::SetTop { attrs, said: "root: root attrs"@ },
    ]);
    out
}

proof fn lemma_made_keeps(p: Planned, path: Seq<char>, other: Seq<char>)
    requires
        p.made.no_duplicates(),
    ensures
        p.made(path).made.no_duplicates(),
        p.made(path).fault is None ==> p.made(path).made.contains(path),
        p.made.contains(other) ==> p.made(path).made.contains(other),
{
    if p.fault is None && nul_fault(path) is None && !p.made.contains(path) {
        let after = p.made(path).made;
        assert(after[p.made.len() as int] == path);
        if p.made.contains(other) {
            let i = choose|i: int| 0 <= i < p.made.len() && p.made[i] == other;
            assert(after[i] == other);
        }
    }
}

/// Directories are each made once, and all of them but the root are there once they are.
pub proof fn directories_are_made_once(p: Planned, list: Seq<Seq<char>>, i: int)
    requires
        p.made.no_duplicates(),
        p.fault is None,
        0 <= i < list.len(),
    ensures
        p.dirs(list).made.no_duplicates(),
        p.dirs(list).fault is None && comps(list[i]) != comps("/"@) ==> p.dirs(
            list,
        ).made.contains(list[i]),
    decreases list.len(),
{
    let front = list.drop_last();
    if list.len() > 1 {
        directories_are_made_once(p, front, if i < front.len() { i } else { 0 });
    } else {
        assert(p.dirs(front) == p);
    }
    lemma_made_keeps(p.dirs(front), list.last(), list[i]);
}

} // verus!
