//! An app's root, assembled from the store, the host's generated views, the app's own state and
//! its runtime entries. Planned before the fork, applied between fork and exec, ending in
//! `pivot_root`: the host root is gone.
use vstd::prelude::*;
use vstd::string::*;

use super::mounts::{dev_view, ro, ro_noexec, rw_noexec, Attrs};
use super::path::{
    above, ancestors, ancestors_of, below, below_root, below_run, check_nul, comps, dirs_above, empty,
    from_root, has_path, holds_path, is_below, nul_fault, same_path, under_run,
};
use super::sandbox::{
    mounted, tmpfs, Exposed, Sys, SysView, What, MS_BIND, MS_NOEXEC, MS_PRIVATE, MS_RDONLY, MS_REC,
    MS_REMOUNT, NODEV,
};
use crate::text::{join_path, path_under};
use crate::views::{group_views, view_opt, views};

verus! {

/// Where the new root is staged.
pub const NEW: &'static str = "/dev/shm/.root";

/// What is at a path: a directory, something else, or why that cannot be said.
#[derive(Debug)]
pub enum Fact {
    Dir,
    File,
    Missing(String),
}

/// The app's `/etc`: a store path, once its links are followed.
#[derive(Debug)]
pub struct Etc {
    pub given: String,
    /// Where it really is, or why that cannot be said.
    pub followed: Result<String, String>,
    pub at: Fact,
    /// It has a `resolv.conf`.
    pub resolv: bool,
}

/// A view of the host: whether its directory is there, and what is at the path that is bound.
#[derive(Debug)]
pub struct HostView {
    pub there: bool,
    pub at: Fact,
}

/// What the forker knows about the app, and what is at the paths it names.
#[derive(Debug)]
pub struct RootSpec {
    pub store: String,
    pub store_at: Fact,
    pub etc: Option<Etc>,
    /// The host's resolv.conf, bound over the app's when it has the network.
    pub resolv: Option<(String, Fact)>,
    /// Where the host's views are.
    pub views: String,
    pub dev: HostView,
    pub dri: HostView,
    /// The view of `/sys` that the app gets.
    pub sys: HostView,
    pub gpu: bool,
    pub network: bool,
    /// Entries under `/run` to keep.
    pub run_expose: Vec<Exposed>,
    pub tmp: String,
    pub tmp_at: Fact,
    /// The app's home, bound at its own path.
    pub home: String,
    pub home_at: Fact,
}

/// One mount or directory, under the stage. `T` is text.
#[derive(Debug)]
pub enum Step<T> {
    Dir(T),
    /// An empty file, for a file bound over it.
    File(T),
    /// `src` bound at `dst`, then given exactly these flags.
    Bind { src: T, dst: T, attrs: Attrs },
    Symlink { target: T, link: T },
    Tmpfs { dst: T, data: T },
    Proc(T),
}

pub type StepView = Step<Seq<char>>;

impl View for Step<String> {
    type V = StepView;

    open spec fn view(&self) -> StepView {
        match *self {
            Step::Dir(p) => Step::Dir(p@),
            Step::File(p) => Step::File(p@),
            Step::Bind { src, dst, attrs } => Step::Bind { src: src@, dst: dst@, attrs },
            Step::Symlink { target, link } => Step::Symlink { target: target@, link: link@ },
            Step::Tmpfs { dst, data } => Step::Tmpfs { dst: dst@, data: data@ },
            Step::Proc(p) => Step::Proc(p@),
        }
    }
}

/// What is planned so far, or what is wrong with it.
pub struct Planned {
    pub steps: Seq<StepView>,
    /// The directories that are made.
    pub seen: Seq<Seq<char>>,
    pub fault: Option<Seq<char>>,
}

impl Planned {
    pub open spec fn empty() -> Planned {
        Planned { steps: Seq::empty(), seen: Seq::empty(), fault: None }
    }

    /// Something is wrong.
    pub open spec fn fails(self, text: Seq<char>) -> Planned {
        if self.fault is Some {
            self
        } else {
            Planned { fault: Some(text), ..self }
        }
    }

    /// C must be able to hold a path.
    pub open spec fn checked(self, path: Seq<char>) -> Planned {
        match nul_fault(path) {
            Some(text) => self.fails(text),
            None => self,
        }
    }

    /// One more step.
    pub open spec fn step(self, step: StepView) -> Planned {
        if self.fault is Some {
            self
        } else {
            Planned { steps: self.steps.push(step), ..self }
        }
    }

    /// A directory, once, however it is written.
    pub open spec fn made(self, path: Seq<char>) -> Planned {
        if self.fault is Some || has_path(self.seen, path) {
            self
        } else if nul_fault(path) is Some {
            self.checked(path)
        } else {
            Planned {
                steps: self.steps.push(Step::Dir(path)),
                seen: self.seen.push(path),
                fault: None,
            }
        }
    }

    /// Those of the directories that are below the stage.
    pub open spec fn dirs(self, list: Seq<Seq<char>>) -> Planned
        decreases list.len(),
    {
        if list.len() == 0 {
            self
        } else if is_below(list.last(), NEW@) && comps(list.last()) != comps(NEW@) {
            self.dirs(list.drop_last()).made(list.last())
        } else {
            self.dirs(list.drop_last())
        }
    }

    /// A directory below the stage, with those above it.
    pub open spec fn dir(self, path: Seq<char>) -> Planned {
        self.dirs(ancestors(path))
    }

    /// `src` bound at a path below the stage, on a directory or a file of its own.
    pub open spec fn bind(self, src: Seq<char>, at: Fact, dst: Seq<char>, attrs: Attrs) -> Planned {
        let p = match at {
            Fact::Missing(err) => self.fails(src + ": "@ + err@),
            Fact::Dir => self.dir(dst),
            Fact::File => self.dirs(above(dst)).checked(dst).step(Step::File(dst)),
        };
        p.checked(src).checked(dst).step(Step::Bind { src, dst, attrs })
    }
}

/// Where a path is staged.
pub open spec fn staged(path: Seq<char>) -> Seq<char> {
    path_under(NEW@, from_root(path))
}

/// The error for a host view that is not there.
pub open spec fn no_view(path: Seq<char>) -> Seq<char> {
    "host view "@ + path + " is missing (drv-host-views not run?)"@
}

/// A host view, bound where it belongs.
pub open spec fn viewed(p: Planned, dir: Seq<char>, src: Seq<char>, v: HostView, at: Seq<char>, attrs: Attrs) -> Planned {
    (if v.there {
        p
    } else {
        p.fails(no_view(dir))
    }).bind(src, v.at, staged(at), attrs)
}

/// The app's `/etc`, from the store.
pub open spec fn with_etc(p: Planned, spec: RootSpec) -> Planned {
    match spec.etc {
        None => p,
        Some(etc) => match etc.followed {
            Err(err) => p.fails("etc "@ + etc.given@ + ": "@ + err@),
            Ok(path) => if !is_below(path@, spec.store@) {
                p.fails("etc "@ + path@ + ": not in the store"@)
            } else {
                let bound = p.bind(path@, etc.at, staged("/etc"@), ro_noexec());
                match spec.resolv {
                    Some((resolv, at)) => if spec.network && etc.resolv {
                        bound.bind(resolv@, at, staged("/etc/resolv.conf"@), ro_noexec())
                    } else {
                        bound
                    },
                    None => bound,
                }
            },
        },
    }
}

/// The host's views: `/dev`, `/dev/dri`, `/dev/shm`, `/sys`, and the kernel's `/proc`.
pub open spec fn with_views(p: Planned, spec: RootSpec) -> Planned {
    let dev = path_under(spec.views@, "dev"@);
    let a = viewed(p, dev, dev, spec.dev, "/dev"@, dev_view());
    let gpu = path_under(spec.views@, "dev-gpu"@);
    let b = if spec.gpu {
        viewed(a, gpu, path_under(gpu, "dri"@), spec.dri, "/dev/dri"@, dev_view())
    } else {
        a
    };
    let shm = staged("/dev/shm"@);
    let c = b.dir(shm).checked(shm).step(Step::Tmpfs { dst: shm, data: "mode=1777"@ });
    let sys = path_under(
        spec.views@,
        if spec.gpu {
            "sys-gpu"@
        } else {
            "sys"@
        },
    );
    let d = viewed(c, sys, sys, spec.sys, "/sys"@, ro_noexec());
    let proc_ = staged("/proc"@);
    d.dir(proc_).checked(proc_).step(Step::Proc(proc_))
}

/// One more entry of `/run`.
pub open spec fn with_run(p: Planned, entry: Exposed) -> Planned {
    if p.fault is Some {
        p
    } else {
        match below_run(entry.path@) {
            None => p.fails("expose "@ + entry.path@ + ": not under /run"@),
            Some(rel) => if rel.len() == 0 {
                p.fails("expose /run: exposing everything defeats the sandbox"@)
            } else {
                let dst = path_under(staged("/run"@), rel);
                match entry.what {
                    What::Missing(err) => p.fails("expose "@ + entry.path@ + ": "@ + err@),
                    What::Unread(err) => p.fails("readlink "@ + entry.path@ + ": "@ + err@),
                    What::Link(target) => p.dirs(above(dst)).checked(target@).checked(dst).step(
                        Step::Symlink { target: target@, link: dst },
                    ),
                    What::Dir => p.bind(entry.path@, Fact::Dir, dst, rw_noexec()),
                    What::Other => p.fails(
                        "expose "@ + entry.path@ + ": only directories and symlinks"@,
                    ),
                }
            },
        }
    }
}

/// All the entries of `/run`, in order.
pub open spec fn with_runs(p: Planned, entries: Seq<Exposed>) -> Planned
    decreases entries.len(),
{
    if entries.len() == 0 {
        p
    } else {
        with_run(with_runs(p, entries.drop_last()), entries.last())
    }
}

/// The whole plan.
pub open spec fn root_plan(spec: RootSpec) -> Planned {
    let store = Planned::empty().bind(spec.store@, spec.store_at, staged(spec.store@), ro());
    let host = with_views(with_etc(store, spec), spec);
    let own = host.bind(spec.home@, spec.home_at, staged(spec.home@), rw_noexec()).bind(
        spec.tmp@,
        spec.tmp_at,
        staged("/tmp"@),
        rw_noexec(),
    );
    with_runs(own.dir(staged("/run"@)), spec.run_expose@).dir(staged("/.old"@))
}

struct Planner {
    steps: Vec<Step<String>>,
    seen: Vec<String>,
    fault: Option<String>,
}

fn staged_of(path: &str) -> (r: String)
    ensures
        r@ == staged(path@),
{
    join_path(NEW, below_root(path).as_str())
}

fn text4(a: &str, b: &str, c: &str, d: &str) -> (r: String)
    ensures
        r@ == a@ + b@ + c@ + d@,
{
    let mut text = a.to_owned();
    text.append(b);
    text.append(c);
    text.append(d);
    text
}

fn text3(a: &str, b: &str, c: &str) -> (r: String)
    ensures
        r@ == a@ + b@ + c@,
{
    let mut text = a.to_owned();
    text.append(b);
    text.append(c);
    text
}

impl Planner {
    spec fn plan(&self) -> Planned {
        Planned {
            steps: views(self.steps@),
            seen: views(self.seen@),
            fault: view_opt(self.fault),
        }
    }

    fn fail(&mut self, text: String)
        ensures
            final(self).plan() == old(self).plan().fails(text@),
    {
        if self.fault.is_none() {
            self.fault = Some(text);
        }
    }

    fn check(&mut self, path: &str)
        ensures
            final(self).plan() == old(self).plan().checked(path@),
    {
        if let Some(text) = check_nul(path) {
            self.fail(text);
        }
    }

    fn step(&mut self, step: Step<String>)
        ensures
            final(self).plan() == old(self).plan().step(step@),
    {
        broadcast use group_views;

        if self.fault.is_none() {
            self.steps.push(step);
        }
    }

    fn made(&mut self, path: String)
        ensures
            final(self).plan() == old(self).plan().made(path@),
    {
        broadcast use group_views;

        if self.fault.is_some() || holds_path(&self.seen, path.as_str()) {
            return;
        }
        match check_nul(path.as_str()) {
            Some(text) => {
                self.fail(text);
            },
            None => {
                self.steps.push(Step::Dir(path.clone()));
                self.seen.push(path);
            },
        }
    }

    fn dirs(&mut self, list: &Vec<String>)
        ensures
            final(self).plan() == old(self).plan().dirs(views(list@)),
    {
        broadcast use group_views;

        let ghost all = views(list@);
        let mut i: usize = 0;
        assert(all.take(0) =~= Seq::<Seq<char>>::empty());
        while i < list.len()
            invariant
                i <= list@.len(),
                all == views(list@),
                self.plan() == old(self).plan().dirs(all.take(i as int)),
            decreases list@.len() - i,
        {
            assert(all.take(i + 1).drop_last() =~= all.take(i as int));
            assert(all.take(i + 1).last() == list@[i as int]@);
            if below(list[i].as_str(), NEW) && !same_path(list[i].as_str(), NEW) {
                self.made(list[i].clone());
            }
            i = i + 1;
        }
        assert(all.take(i as int) =~= all);
    }

    fn dir(&mut self, path: &str)
        ensures
            final(self).plan() == old(self).plan().dir(path@),
    {
        self.dirs(&ancestors_of(path));
    }

    fn bind(&mut self, src: &str, at: &Fact, dst: String, attrs: Attrs)
        ensures
            final(self).plan() == old(self).plan().bind(src@, *at, dst@, attrs),
    {
        broadcast use group_views;

        match at {
            Fact::Missing(err) => {
                self.fail(text3(src, ": ", err.as_str()));
            },
            Fact::Dir => {
                self.dir(dst.as_str());
            },
            Fact::File => {
                self.dirs(&dirs_above(dst.as_str()));
                self.check(dst.as_str());
                self.step(Step::File(dst.clone()));
            },
        }
        self.check(src);
        self.check(dst.as_str());
        self.step(Step::Bind { src: src.to_owned(), dst, attrs });
    }

    fn view(&mut self, dir: &str, src: &str, v: &HostView, at: &str, attrs: Attrs)
        ensures
            final(self).plan() == viewed(old(self).plan(), dir@, src@, *v, at@, attrs),
    {
        broadcast use group_views;

        if !v.there {
            self.fail(text3("host view ", dir, " is missing (drv-host-views not run?)"));
        }
        self.bind(src, &v.at, staged_of(at), attrs);
    }

    fn etc(&mut self, spec: &RootSpec)
        ensures
            final(self).plan() == with_etc(old(self).plan(), *spec),
    {
        broadcast use group_views;

        if let Some(etc) = &spec.etc {
            match &etc.followed {
                Err(err) => {
                    self.fail(text4("etc ", etc.given.as_str(), ": ", err.as_str()));
                },
                Ok(path) => {
                    if !below(path.as_str(), spec.store.as_str()) {
                        self.fail(text3("etc ", path.as_str(), ": not in the store"));
                        return;
                    }
                    self.bind(path.as_str(), &etc.at, staged_of("/etc"), ro_noexec());
                    if spec.network && etc.resolv {
                        if let Some((resolv, at)) = &spec.resolv {
                            let dst = staged_of("/etc/resolv.conf");
                            self.bind(resolv.as_str(), at, dst, ro_noexec());
                        }
                    }
                },
            }
        }
    }

    fn host(&mut self, spec: &RootSpec)
        ensures
            final(self).plan() == with_views(old(self).plan(), *spec),
    {
        broadcast use group_views;

        let dev = join_path(spec.views.as_str(), "dev");
        self.view(dev.as_str(), dev.as_str(), &spec.dev, "/dev", dev_view());
        if spec.gpu {
            let gpu = join_path(spec.views.as_str(), "dev-gpu");
            let dri = join_path(gpu.as_str(), "dri");
            self.view(gpu.as_str(), dri.as_str(), &spec.dri, "/dev/dri", dev_view());
        }
        let shm = staged_of("/dev/shm");
        self.dir(shm.as_str());
        self.check(shm.as_str());
        self.step(Step::Tmpfs { dst: shm, data: "mode=1777".to_owned() });
        let sys = join_path(spec.views.as_str(), if spec.gpu { "sys-gpu" } else { "sys" });
        self.view(sys.as_str(), sys.as_str(), &spec.sys, "/sys", ro_noexec());
        let proc_ = staged_of("/proc");
        self.dir(proc_.as_str());
        self.check(proc_.as_str());
        self.step(Step::Proc(proc_));
    }

    fn run(&mut self, entry: &Exposed)
        ensures
            final(self).plan() == with_run(old(self).plan(), *entry),
    {
        broadcast use group_views;

        if self.fault.is_some() {
            return;
        }
        let path = entry.path.as_str();
        let rel = match under_run(path) {
            Some(rel) => rel,
            None => {
                self.fail(text3("expose ", path, ": not under /run"));
                return;
            },
        };
        if empty(rel.as_str()) {
            self.fail("expose /run: exposing everything defeats the sandbox".to_owned());
            return;
        }
        let dst = join_path(staged_of("/run").as_str(), rel.as_str());
        match &entry.what {
            What::Missing(err) => {
                self.fail(text4("expose ", path, ": ", err.as_str()));
            },
            What::Unread(err) => {
                self.fail(text4("readlink ", path, ": ", err.as_str()));
            },
            What::Link(target) => {
                self.dirs(&dirs_above(dst.as_str()));
                self.check(target.as_str());
                self.check(dst.as_str());
                self.step(Step::Symlink { target: target.clone(), link: dst });
            },
            What::Dir => {
                self.bind(path, &Fact::Dir, dst, rw_noexec());
            },
            What::Other => {
                self.fail(text3("expose ", path, ": only directories and symlinks"));
            },
        }
    }
}

/// An app's root.
#[derive(Debug)]
pub struct Root {
    pub no_network: bool,
    pub steps: Vec<Step<String>>,
}

impl Root {
    /// Plans the root.
    pub fn plan(spec: &RootSpec) -> (r: Result<Root, String>)
        ensures
            match r {
                Ok(root) => {
                    &&& root_plan(*spec).fault is None
                    &&& root.no_network == !spec.network
                    &&& views(root.steps@) == root_plan(*spec).steps
                },
                Err(e) => root_plan(*spec).fault == Some(e@),
            },
    {
        broadcast use group_views;

        let mut plan = Planner { steps: Vec::new(), seen: Vec::new(), fault: None };
        assert(plan.plan() == Planned::empty());
        let store = staged_of(spec.store.as_str());
        plan.bind(spec.store.as_str(), &spec.store_at, store, ro());
        plan.etc(spec);
        plan.host(spec);
        let home = staged_of(spec.home.as_str());
        plan.bind(spec.home.as_str(), &spec.home_at, home, rw_noexec());
        plan.bind(spec.tmp.as_str(), &spec.tmp_at, staged_of("/tmp"), rw_noexec());
        plan.dir(staged_of("/run").as_str());
        let ghost before = plan.plan();
        let ghost entries = spec.run_expose@;
        let mut i: usize = 0;
        assert(entries.take(0) =~= Seq::<Exposed>::empty());
        while i < spec.run_expose.len()
            invariant
                i <= spec.run_expose@.len(),
                entries == spec.run_expose@,
                plan.plan() == with_runs(before, entries.take(i as int)),
            decreases spec.run_expose@.len() - i,
        {
            assert(entries.take(i + 1).drop_last() =~= entries.take(i as int));
            plan.run(&spec.run_expose[i]);
            i = i + 1;
        }
        assert(entries.take(i as int) =~= entries);
        plan.dir(staged_of("/.old").as_str());
        match plan.fault {
            Some(e) => Err(e),
            None => Ok(Root { no_network: !spec.network, steps: plan.steps }),
        }
    }
}

/// A mount without a source.
pub open spec fn remounted(dst: Seq<char>, flags: u64, step: Seq<char>) -> SysView {
    Sys::Mount { src: None, dst, fs: None, flags, data: None, step }
}

/// What one step takes.
pub open spec fn step_calls(step: StepView) -> Seq<SysView> {
    match step {
        Step::Dir(path) => seq![Sys::Mkdir { path, again: true, step: "mkdir"@ }],
        Step::File(path) => seq![Sys::Touch { path, step: "create file mountpoint"@ }],
        Step::Symlink { target, link } => seq![Sys::Symlink { target, link, step: "symlink"@ }],
        Step::Bind { src, dst, attrs } => seq![
            mounted(src, dst, None, (MS_BIND + MS_REC) as u64, None, "bind"@),
            remounted(
                dst,
                (MS_REMOUNT + MS_BIND + attrs.spec_bits()) as u64,
                "remount bind"@,
            ),
        ],
        Step::Tmpfs { dst, data } => seq![tmpfs(dst, data, "tmpfs"@)],
        Step::Proc(dst) => seq![
            mounted(
                "proc"@,
                dst,
                Some("proc"@),
                (NODEV + MS_NOEXEC) as u64,
                Some("hidepid=invisible"@),
                "proc"@,
            ),
        ],
    }
}

/// What all the steps take.
pub open spec fn steps_calls(steps: Seq<StepView>) -> Seq<SysView>
    decreases steps.len(),
{
    if steps.len() == 0 {
        Seq::empty()
    } else {
        steps_calls(steps.drop_last()) + step_calls(steps.last())
    }
}

/// What comes before the steps: the namespaces, and a tmpfs of ours to stage in.
pub open spec fn root_head(no_network: bool) -> Seq<SysView> {
    seq![
        Sys::Unshare { net: no_network, step: "unshare"@ },
        mounted("none"@, "/"@, None, (MS_REC + MS_PRIVATE) as u64, None, "make / private"@),
        tmpfs("/dev/shm"@, "mode=0755"@, "tmpfs on /dev/shm"@),
        Sys::Mkdir { path: NEW@, again: false, step: "mkdir the new root"@ },
        tmpfs(NEW@, "mode=0755"@, "tmpfs for the new root"@),
    ]
}

/// What comes after the steps: the pivot, the old root gone, the new one read-only at its top.
pub open spec fn root_tail() -> Seq<SysView> {
    seq![
        Sys::Chdir { path: NEW@, step: "chdir to the new root"@ },
        Sys::PivotRoot { new: "."@, old: ".old"@, step: "pivot_root"@ },
        Sys::Chdir { path: "/"@, step: "chdir /"@ },
        Sys::Detach { path: "/.old"@, step: "detach the old root"@ },
        Sys::Rmdir { path: "/.old"@, said: Some("rmdir /.old"@) },
        remounted(
            "/"@,
            (MS_REMOUNT + MS_BIND + MS_RDONLY + NODEV) as u64,
            "remount / read-only"@,
        ),
    ]
}

fn remount(dst: &str, flags: u64, step: &str) -> (r: Sys<String>)
    ensures
        r@ == remounted(dst@, flags, step@),
{
    Sys::Mount {
        src: None,
        dst: dst.to_owned(),
        fs: None,
        flags,
        data: None,
        step: step.to_owned(),
    }
}

fn mount(src: &str, dst: &str, fs: Option<String>, flags: u64, data: Option<String>, step: &str) -> (r:
    Sys<String>)
    ensures
        r@ == mounted(src@, dst@, view_opt(fs), flags, view_opt(data), step@),
{
    Sys::Mount {
        src: Some(src.to_owned()),
        dst: dst.to_owned(),
        fs,
        flags,
        data,
        step: step.to_owned(),
    }
}

fn mount_tmpfs(dst: &str, data: &str, step: &str) -> (r: Sys<String>)
    ensures
        r@ == tmpfs(dst@, data@, step@),
{
    mount("tmpfs", dst, Some("tmpfs".to_owned()), NODEV, Some(data.to_owned()), step)
}

fn push_step(calls: &mut Vec<Sys<String>>, step: &Step<String>)
    ensures
        views(final(calls)@) == views(old(calls)@) + step_calls(step@),
{
    broadcast use group_views;

    let ghost before = views(calls@);
    match step {
        Step::Dir(path) => {
            calls.push(Sys::Mkdir { path: path.clone(), again: true, step: "mkdir".to_owned() });
        },
        Step::File(path) => {
            calls.push(
                Sys::Touch { path: path.clone(), step: "create file mountpoint".to_owned() },
            );
        },
        Step::Symlink { target, link } => {
            calls.push(
                Sys::Symlink {
                    target: target.clone(),
                    link: link.clone(),
                    step: "symlink".to_owned(),
                },
            );
        },
        Step::Bind { src, dst, attrs } => {
            calls.push(mount(src.as_str(), dst.as_str(), None, MS_BIND + MS_REC, None, "bind"));
            let flags: u64 = MS_REMOUNT + MS_BIND + attrs.bits();
            calls.push(remount(dst.as_str(), flags, "remount bind"));
        },
        Step::Tmpfs { dst, data } => {
            calls.push(mount_tmpfs(dst.as_str(), data.as_str(), "tmpfs"));
        },
        Step::Proc(dst) => {
            calls.push(
                mount(
                    "proc",
                    dst.as_str(),
                    Some("proc".to_owned()),
                    NODEV + MS_NOEXEC,
                    Some("hidepid=invisible".to_owned()),
                    "proc",
                ),
            );
        },
    }
    assert(views(calls@) =~= before + step_calls(step@));
}

impl Root {
    fn head(&self) -> (r: Vec<Sys<String>>)
        ensures
            views(r@) == root_head(self.no_network),
    {
        broadcast use group_views;

        let mut calls: Vec<Sys<String>> = Vec::new();
        calls.push(Sys::Unshare { net: self.no_network, step: "unshare".to_owned() });
        calls.push(mount("none", "/", None, MS_REC + MS_PRIVATE, None, "make / private"));
        calls.push(mount_tmpfs("/dev/shm", "mode=0755", "tmpfs on /dev/shm"));
        calls.push(
            Sys::Mkdir {
                path: NEW.to_owned(),
                again: false,
                step: "mkdir the new root".to_owned(),
            },
        );
        calls.push(mount_tmpfs(NEW, "mode=0755", "tmpfs for the new root"));
        assert(views(calls@) =~= root_head(self.no_network));
        calls
    }

    fn tail() -> (r: Vec<Sys<String>>)
        ensures
            views(r@) == root_tail(),
    {
        broadcast use group_views;

        let mut calls: Vec<Sys<String>> = Vec::new();
        calls.push(
            Sys::Chdir { path: NEW.to_owned(), step: "chdir to the new root".to_owned() },
        );
        calls.push(
            Sys::PivotRoot {
                new: ".".to_owned(),
                old: ".old".to_owned(),
                step: "pivot_root".to_owned(),
            },
        );
        calls.push(Sys::Chdir { path: "/".to_owned(), step: "chdir /".to_owned() });
        calls.push(
            Sys::Detach { path: "/.old".to_owned(), step: "detach the old root".to_owned() },
        );
        calls.push(Sys::Rmdir { path: "/.old".to_owned(), said: Some("rmdir /.old".to_owned()) });
        calls.push(
            remount("/", MS_REMOUNT + MS_BIND + MS_RDONLY + NODEV, "remount / read-only"),
        );
        assert(views(calls@) =~= root_tail());
        calls
    }

    /// What the child does, with CAP_SYS_ADMIN.
    pub fn apply(&self) -> (r: Vec<Sys<String>>)
        ensures
            views(r@) == root_head(self.no_network) + steps_calls(views(self.steps@))
                + root_tail(),
    {
        broadcast use group_views;

        let mut calls = self.head();
        let ghost head = views(calls@);
        let ghost all = views(self.steps@);
        let mut i: usize = 0;
        assert(head + steps_calls(all.take(0)) =~= head);
        while i < self.steps.len()
            invariant
                i <= self.steps@.len(),
                all == views(self.steps@),
                views(calls@) == head + steps_calls(all.take(i as int)),
            decreases self.steps@.len() - i,
        {
            push_step(&mut calls, &self.steps[i]);
            assert(all.take(i + 1).drop_last() =~= all.take(i as int));
            assert(all.take(i + 1).last() == self.steps@[i as int]@);
            assert(head + steps_calls(all.take(i + 1)) =~= (head + steps_calls(
                all.take(i as int),
            )) + step_calls(all[i as int]));
            i = i + 1;
        }
        assert(all.take(i as int) =~= all);
        let mut tail = Root::tail();
        calls.append(&mut tail);
        calls
    }
}

/// Nothing that is bound runs with another's identity, and nothing runs at all but what the
/// store holds; no directory is made twice.
pub open spec fn confined(p: Planned, store: Seq<char>) -> bool {
    &&& forall|i: int|
        0 <= i < p.steps.len() ==> match #[trigger] p.steps[i] {
            Step::Bind { src, attrs, .. } => attrs.nosuid && (attrs.noexec || src == store),
            _ => true,
        }
    &&& forall|i: int, j: int|
        0 <= i < j < p.seen.len() ==> comps(#[trigger] p.seen[i]) != comps(#[trigger] p.seen[j])
}

proof fn lemma_made(p: Planned, path: Seq<char>, store: Seq<char>)
    requires
        confined(p, store),
    ensures
        confined(p.made(path), store),
{
}

proof fn lemma_dirs(p: Planned, list: Seq<Seq<char>>, store: Seq<char>)
    requires
        confined(p, store),
    ensures
        confined(p.dirs(list), store),
    decreases list.len(),
{
    if list.len() > 0 {
        lemma_dirs(p, list.drop_last(), store);
        lemma_made(p.dirs(list.drop_last()), list.last(), store);
    }
}

proof fn lemma_bind(p: Planned, src: Seq<char>, at: Fact, dst: Seq<char>, attrs: Attrs, store: Seq<char>)
    requires
        confined(p, store),
        attrs.nosuid,
        attrs.noexec || src == store,
    ensures
        confined(p.bind(src, at, dst, attrs), store),
{
    lemma_dirs(p, ancestors(dst), store);
    lemma_dirs(p, above(dst), store);
}

proof fn lemma_runs(p: Planned, entries: Seq<Exposed>, store: Seq<char>)
    requires
        confined(p, store),
    ensures
        confined(with_runs(p, entries), store),
    decreases entries.len(),
{
    if entries.len() > 0 {
        lemma_runs(p, entries.drop_last(), store);
        let q = with_runs(p, entries.drop_last());
        let entry = entries.last();
        if below_run(entry.path@) is Some {
            let dst = path_under(staged("/run"@), below_run(entry.path@)->0);
            lemma_dirs(q, above(dst), store);
            lemma_bind(q, entry.path@, Fact::Dir, dst, rw_noexec(), store);
        }
    }
}

/// Whatever an app's root is planned of, nothing in it runs with another's identity, nothing
/// runs but what the store holds, and no directory is made twice.
pub proof fn roots_are_confined(spec: RootSpec)
    ensures
        confined(root_plan(spec), spec.store@),
{
    let store = spec.store@;
    let a = Planned::empty();
    lemma_bind(a, store, spec.store_at, staged(store), ro(), store);
    let b = a.bind(store, spec.store_at, staged(store), ro());
    if let Some(etc) = spec.etc {
        if let Ok(path) = etc.followed {
            lemma_bind(b, path@, etc.at, staged("/etc"@), ro_noexec(), store);
            let bound = b.bind(path@, etc.at, staged("/etc"@), ro_noexec());
            if let Some((resolv, at)) = spec.resolv {
                lemma_bind(bound, resolv@, at, staged("/etc/resolv.conf"@), ro_noexec(), store);
            }
        }
    }
    let c = with_etc(b, spec);
    assert(confined(c, store));
    lemma_views(c, spec, store);
    let d = with_views(c, spec);
    lemma_bind(d, spec.home@, spec.home_at, staged(spec.home@), rw_noexec(), store);
    let e = d.bind(spec.home@, spec.home_at, staged(spec.home@), rw_noexec());
    lemma_bind(e, spec.tmp@, spec.tmp_at, staged("/tmp"@), rw_noexec(), store);
    let f = e.bind(spec.tmp@, spec.tmp_at, staged("/tmp"@), rw_noexec());
    let run = staged("/run"@);
    lemma_dirs(f, ancestors(run), store);
    lemma_runs(f.dir(run), spec.run_expose@, store);
    let all = with_runs(f.dir(run), spec.run_expose@);
    lemma_dirs(all, ancestors(staged("/.old"@)), store);
}

proof fn lemma_viewed(p: Planned, dir: Seq<char>, src: Seq<char>, v: HostView, at: Seq<char>, attrs: Attrs, store: Seq<char>)
    requires
        confined(p, store),
        attrs.nosuid && attrs.noexec,
    ensures
        confined(viewed(p, dir, src, v, at, attrs), store),
{
    let q = if v.there {
        p
    } else {
        p.fails(no_view(dir))
    };
    assert(confined(q, store));
    lemma_bind(q, src, v.at, staged(at), attrs, store);
}

proof fn lemma_views(p: Planned, spec: RootSpec, store: Seq<char>)
    requires
        confined(p, store),
    ensures
        confined(with_views(p, spec), store),
{
    let dev = path_under(spec.views@, "dev"@);
    lemma_viewed(p, dev, dev, spec.dev, "/dev"@, dev_view(), store);
    let a = viewed(p, dev, dev, spec.dev, "/dev"@, dev_view());
    let gpu = path_under(spec.views@, "dev-gpu"@);
    lemma_viewed(a, gpu, path_under(gpu, "dri"@), spec.dri, "/dev/dri"@, dev_view(), store);
    let b = if spec.gpu {
        viewed(a, gpu, path_under(gpu, "dri"@), spec.dri, "/dev/dri"@, dev_view())
    } else {
        a
    };
    let shm = staged("/dev/shm"@);
    lemma_dirs(b, ancestors(shm), store);
    let c = b.dir(shm).checked(shm).step(Step::Tmpfs { dst: shm, data: "mode=1777"@ });
    assert(confined(c, store));
    let sys = path_under(
        spec.views@,
        if spec.gpu {
            "sys-gpu"@
        } else {
            "sys"@
        },
    );
    lemma_viewed(c, sys, sys, spec.sys, "/sys"@, ro_noexec(), store);
    let d = viewed(c, sys, sys, spec.sys, "/sys"@, ro_noexec());
    let proc_ = staged("/proc"@);
    lemma_dirs(d, ancestors(proc_), store);
}

} // verus!
