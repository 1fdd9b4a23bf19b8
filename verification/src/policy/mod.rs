//! Who may do what. Identity is the UID of the connecting process; a record lists what its UID
//! may do and nothing else. Also the daemons' messages, and their framing.
use vstd::prelude::*;
use vstd::string::*;

use crate::text::{decimal, number, same_text};
use crate::views::view_opt;

pub mod client;
pub mod daemon;
pub mod door;
pub mod env;
pub mod forker;
pub mod records;
pub mod rpc;
pub mod seq;
pub mod spawn;
pub mod wire;

verus! {

/// Optional globals the compositor may hide from a client. Anything not listed here is always
/// advertised.
#[derive(Clone, Copy, Debug, PartialEq, Eq, Structural)]
pub enum Global {
    /// GPU buffer sharing. Also granted by [`AppPolicy::gpu`].
    Dmabuf,
    /// Bars, overlays, anything outside a window.
    LayerShell,
    SessionLock,
    /// Clipboard access without focus.
    DataControl,
    /// The list of other apps' windows.
    ForeignToplevel,
    Workspaces,
    OutputManagement,
    GammaControl,
    Screencopy,
    ImageCopyCapture,
    VirtualKeyboard,
    VirtualPointer,
    InputMethod,
    SecurityContext,
}

/// All of them.
pub open spec fn all_globals() -> Seq<Global> {
    seq![
        Global::Dmabuf,
        Global::LayerShell,
        Global::SessionLock,
        Global::DataControl,
        Global::ForeignToplevel,
        Global::Workspaces,
        Global::OutputManagement,
        Global::GammaControl,
        Global::Screencopy,
        Global::ImageCopyCapture,
        Global::VirtualKeyboard,
        Global::VirtualPointer,
        Global::InputMethod,
        Global::SecurityContext,
    ]
}

impl Global {
    /// All of them.
    pub fn all() -> (r: Vec<Global>)
        ensures
            r@ == all_globals(),
    {
        let r = vec![
            Global::Dmabuf,
            Global::LayerShell,
            Global::SessionLock,
            Global::DataControl,
            Global::ForeignToplevel,
            Global::Workspaces,
            Global::OutputManagement,
            Global::GammaControl,
            Global::Screencopy,
            Global::ImageCopyCapture,
            Global::VirtualKeyboard,
            Global::VirtualPointer,
            Global::InputMethod,
            Global::SecurityContext,
        ];
        assert(r@ =~= all_globals());
        r
    }
}

/// No global is left out of the list.
pub proof fn every_global_is_listed(global: Global)
    ensures
        all_globals().contains(global),
{
    let all = all_globals();
    assert(all[0] == Global::Dmabuf && all[1] == Global::LayerShell && all[2]
        == Global::SessionLock && all[3] == Global::DataControl && all[4]
        == Global::ForeignToplevel && all[5] == Global::Workspaces && all[6]
        == Global::OutputManagement && all[7] == Global::GammaControl && all[8]
        == Global::Screencopy && all[9] == Global::ImageCopyCapture && all[10]
        == Global::VirtualKeyboard && all[11] == Global::VirtualPointer && all[12]
        == Global::InputMethod && all[13] == Global::SecurityContext);
}

/// Things a UID may do beyond its Wayland globals. Each unlocks one service; none implies
/// another.
#[derive(Clone, Copy, Debug, PartialEq, Eq, Structural)]
pub enum Grant {
    /// Ask about UIDs other than its own.
    Lookup,
    /// Use the compositor's screencast and screenshot services.
    Screencast,
}

/// What one UID is allowed.
#[derive(Debug)]
pub struct AppPolicy {
    /// Shown to the person. Never app-supplied.
    pub name: String,
    /// May use the GPU.
    pub gpu: bool,
    /// Globals granted on top of the untrusted baseline.
    pub globals: Vec<Global>,
    pub grants: Vec<Grant>,
    /// Icon name, for the same places as `name`.
    pub icon: Option<String>,
}

/// What one UID is allowed, by value.
pub struct PolicyView {
    pub name: Seq<char>,
    pub gpu: bool,
    pub globals: Seq<Global>,
    pub grants: Seq<Grant>,
    pub icon: Option<Seq<char>>,
}

impl View for AppPolicy {
    type V = PolicyView;

    open spec fn view(&self) -> PolicyView {
        PolicyView {
            name: self.name@,
            gpu: self.gpu,
            globals: self.globals@,
            grants: self.grants@,
            icon: view_opt(self.icon),
        }
    }
}

impl PolicyView {
    /// The policy for a UID nobody knows: nothing optional, no GPU.
    pub open spec fn unknown() -> PolicyView {
        PolicyView {
            name: "unknown"@,
            gpu: false,
            globals: Seq::empty(),
            grants: Seq::empty(),
            icon: None,
        }
    }

    /// Whether a global is shown.
    pub open spec fn shows(self, global: Global) -> bool {
        (global == Global::Dmabuf && self.gpu) || self.globals.contains(global)
    }
}

fn copy_globals(list: &Vec<Global>) -> (r: Vec<Global>)
    ensures
        r@ == list@,
{
    let mut out: Vec<Global> = Vec::new();
    let mut i: usize = 0;
    while i < list.len()
        invariant
            i <= list@.len(),
            out@ == list@.take(i as int),
        decreases list@.len() - i,
    {
        out.push(list[i]);
        assert(list@.take(i + 1) =~= list@.take(i as int).push(list@[i as int]));
        i = i + 1;
    }
    assert(list@.take(i as int) =~= list@);
    out
}

fn copy_grants(list: &Vec<Grant>) -> (r: Vec<Grant>)
    ensures
        r@ == list@,
{
    let mut out: Vec<Grant> = Vec::new();
    let mut i: usize = 0;
    while i < list.len()
        invariant
            i <= list@.len(),
            out@ == list@.take(i as int),
        decreases list@.len() - i,
    {
        out.push(list[i]);
        assert(list@.take(i + 1) =~= list@.take(i as int).push(list@[i as int]));
        i = i + 1;
    }
    assert(list@.take(i as int) =~= list@);
    out
}

/// A record made of its parts.
pub fn policy_of(name: &String, gpu: bool, globals: &Vec<Global>, grants: &Vec<Grant>, icon: &Option<String>) -> (r:
    AppPolicy)
    ensures
        r@ == (PolicyView {
            name: name@,
            gpu,
            globals: globals@,
            grants: grants@,
            icon: view_opt(*icon),
        }),
{
    AppPolicy {
        name: name.clone(),
        gpu,
        globals: copy_globals(globals),
        grants: copy_grants(grants),
        icon: match icon {
            Some(s) => Some(s.clone()),
            None => None,
        },
    }
}

impl AppPolicy {
    /// The policy for a UID nobody knows: nothing optional, no GPU.
    pub fn unknown() -> (r: AppPolicy)
        ensures
            r@ == PolicyView::unknown(),
    {
        let r = AppPolicy {
            name: "unknown".to_owned(),
            gpu: false,
            globals: Vec::new(),
            grants: Vec::new(),
            icon: None,
        };
        assert(r@.globals =~= Seq::<Global>::empty());
        assert(r@.grants =~= Seq::<Grant>::empty());
        r
    }

    /// Every global and grant.
    pub fn everything(name: &str) -> (r: AppPolicy)
        ensures
            r@ == (PolicyView {
                name: name@,
                gpu: true,
                globals: all_globals(),
                grants: seq![Grant::Lookup, Grant::Screencast],
                icon: None,
            }),
    {
        let grants = vec![Grant::Lookup, Grant::Screencast];
        assert(grants@ =~= seq![Grant::Lookup, Grant::Screencast]);
        AppPolicy { name: name.to_owned(), gpu: true, globals: Global::all(), grants, icon: None }
    }

    /// Whether a global is shown to this UID.
    pub fn allows(&self, global: Global) -> (r: bool)
        ensures
            r == self@.shows(global),
    {
        if global == Global::Dmabuf && self.gpu {
            return true;
        }
        let mut i: usize = 0;
        while i < self.globals.len()
            invariant
                i <= self.globals@.len(),
                forall|j: int| 0 <= j < i ==> self.globals@[j] != global,
            decreases self.globals@.len() - i,
        {
            if self.globals[i] == global {
                assert(self.globals@[i as int] == global);
                return true;
            }
            i = i + 1;
        }
        false
    }

    /// Whether this UID holds a grant.
    pub fn has(&self, grant: Grant) -> (r: bool)
        ensures
            r == self@.grants.contains(grant),
    {
        let mut i: usize = 0;
        while i < self.grants.len()
            invariant
                i <= self.grants@.len(),
                forall|j: int| 0 <= j < i ==> self.grants@[j] != grant,
            decreases self.grants@.len() - i,
        {
            if self.grants[i] == grant {
                assert(self.grants@[i as int] == grant);
                return true;
            }
            i = i + 1;
        }
        false
    }

    /// The same record once more.
    pub fn copy(&self) -> (r: AppPolicy)
        ensures
            r@ == self@,
    {
        policy_of(&self.name, self.gpu, &self.globals, &self.grants, &self.icon)
    }

    /// Whether this is the record of a UID nobody knows.
    pub fn is_unknown(&self) -> (r: bool)
        ensures
            r == (self@ == PolicyView::unknown()),
    {
        let r = same_text(self.name.as_str(), "unknown") && !self.gpu && self.globals.len() == 0
            && self.grants.len() == 0 && self.icon.is_none();
        if r {
            assert(self@.globals =~= Seq::<Global>::empty());
            assert(self@.grants =~= Seq::<Grant>::empty());
        }
        r
    }
}

/// One entry of the static policy file: a UID or an inclusive UID range with its policy.
#[derive(Debug)]
pub struct AppEntry {
    /// First UID, inclusive.
    pub uid: u32,
    /// Last UID, inclusive. Defaults to `uid`.
    pub uid_end: Option<u32>,
    pub policy: AppPolicy,
}

impl AppEntry {
    /// The last UID of the entry.
    pub open spec fn end(self) -> u32 {
        match self.uid_end {
            Some(end) => end,
            None => self.uid,
        }
    }

    /// The entry is about `uid`.
    pub open spec fn covers(self, uid: u32) -> bool {
        self.uid <= uid <= self.end()
    }

    fn last(&self) -> (r: u32)
        ensures
            r == self.end(),
    {
        match self.uid_end {
            Some(end) => end,
            None => self.uid,
        }
    }

    pub fn contains(&self, uid: u32) -> (r: bool)
        ensures
            r == self.covers(uid),
    {
        self.uid <= uid && uid <= self.last()
    }
}

/// The static policy file.
#[derive(Debug)]
pub struct PolicyFile {
    /// For UIDs without an entry.
    pub default: AppPolicy,
    pub apps: Vec<AppEntry>,
}

impl Default for PolicyFile {
    fn default() -> (r: PolicyFile)
        ensures
            r.default@ == PolicyView::unknown(),
            r.apps@.len() == 0,
    {
        PolicyFile { default: AppPolicy::unknown(), apps: Vec::new() }
    }
}

#[derive(Debug)]
pub enum Error {
    /// The file could not be read.
    Io(String),
    /// The file could not be parsed.
    Parse(String),
    /// Two entries claim the same UID.
    Overlap(u32),
}

impl Error {
    /// The error in words.
    pub fn message(&self) -> (r: String)
        ensures
            r@ == match *self {
                Error::Io(err) => "error reading the policy file: "@ + err@,
                Error::Parse(err) => "error parsing the policy file: "@ + err@,
                Error::Overlap(uid) => "uid "@ + decimal(uid as nat)
                    + " is covered by more than one app entry"@,
            },
    {
        match self {
            Error::Io(err) => {
                let mut text = "error reading the policy file: ".to_owned();
                text.append(err.as_str());
                text
            },
            Error::Parse(err) => {
                let mut text = "error parsing the policy file: ".to_owned();
                text.append(err.as_str());
                text
            },
            Error::Overlap(uid) => {
                let mut text = "uid ".to_owned();
                text.append(number(*uid as u64).as_str());
                text.append(" is covered by more than one app entry");
                text
            },
        }
    }
}

/// The first UID that two entries could share.
pub open spec fn overlap_from(a: AppEntry, b: AppEntry) -> u32 {
    if a.uid > b.uid {
        a.uid
    } else {
        b.uid
    }
}

/// Two entries claim the same UID.
pub open spec fn overlaps(a: AppEntry, b: AppEntry) -> bool {
    overlap_from(a, b) <= a.end() && overlap_from(a, b) <= b.end()
}

/// Entries `i` and `j` overlap, and no pair before them does.
pub open spec fn first_overlap(apps: Seq<AppEntry>, i: int, j: int) -> bool {
    &&& 0 <= i < j < apps.len()
    &&& overlaps(apps[i], apps[j])
    &&& forall|a: int, b: int|
        0 <= a < b < apps.len() && (a < i || (a == i && b < j)) ==> !overlaps(
            #[trigger] apps[a],
            #[trigger] apps[b],
        )
}

/// No two entries claim the same UID.
pub open spec fn disjoint(apps: Seq<AppEntry>) -> bool {
    forall|a: int, b: int|
        0 <= a < b < apps.len() ==> !overlaps(#[trigger] apps[a], #[trigger] apps[b])
}

/// What is said of `uid`: by the first entry that covers it, else by the default.
pub open spec fn answer(default: AppPolicy, apps: Seq<AppEntry>, uid: u32) -> PolicyView
    decreases apps.len(),
{
    if apps.len() == 0 {
        default@
    } else if apps[0].covers(uid) {
        apps[0].policy@
    } else {
        answer(default, apps.skip(1), uid)
    }
}

/// Answers "what may this UID do".
#[derive(Debug)]
pub struct PolicyStore {
    pub default: AppPolicy,
    pub apps: Vec<AppEntry>,
}

impl PolicyStore {
    /// No two entries claim the same UID.
    pub open spec fn wf(&self) -> bool {
        disjoint(self.apps@)
    }

    /// What is said of `uid`.
    pub open spec fn says(&self, uid: u32) -> PolicyView {
        answer(self.default, self.apps@, uid)
    }

    /// A store of a file's entries; one in which two entries claim the same UID is refused.
    pub fn new(file: PolicyFile) -> (r: Result<PolicyStore, Error>)
        ensures
            match r {
                Ok(store) => store.wf() && store.default == file.default && store.apps == file.apps,
                Err(Error::Overlap(uid)) => exists|i: int, j: int| #[trigger]
                    first_overlap(file.apps@, i, j) && uid == overlap_from(
                        file.apps@[i],
                        file.apps@[j],
                    ),
                Err(_) => false,
            },
    {
        let mut i: usize = 0;
        while i < file.apps.len()
            invariant
                i <= file.apps@.len(),
                forall|a: int, b: int|
                    0 <= a < b < file.apps@.len() && a < i ==> !overlaps(
                        #[trigger] file.apps@[a],
                        #[trigger] file.apps@[b],
                    ),
            decreases file.apps@.len() - i,
        {
            let mut j: usize = i + 1;
            while j < file.apps.len()
                invariant
                    i < j <= file.apps@.len(),
                    forall|a: int, b: int|
                        0 <= a < b < file.apps@.len() && (a < i || (a == i && b < j))
                            ==> !overlaps(#[trigger] file.apps@[a], #[trigger] file.apps@[b]),
                decreases file.apps@.len() - j,
            {
                let a = &file.apps[i];
                let b = &file.apps[j];
                let lo: u32 = if a.uid > b.uid { a.uid } else { b.uid };
                if lo <= a.last() && lo <= b.last() {
                    assert(first_overlap(file.apps@, i as int, j as int));
                    return Err(Error::Overlap(lo));
                }
                j = j + 1;
            }
            i = i + 1;
        }
        Ok(PolicyStore { default: file.default, apps: file.apps })
    }

    /// The record of `uid`.
    pub fn lookup(&self, uid: u32) -> (r: &AppPolicy)
        ensures
            r@ == self.says(uid),
    {
        let mut i: usize = 0;
        assert(self.apps@.skip(0) =~= self.apps@);
        while i < self.apps.len()
            invariant
                i <= self.apps@.len(),
                self.says(uid) == answer(self.default, self.apps@.skip(i as int), uid),
            decreases self.apps@.len() - i,
        {
            assert(self.apps@.skip(i as int)[0] == self.apps@[i as int]);
            if self.apps[i].contains(uid) {
                return &self.apps[i].policy;
            }
            assert(self.apps@.skip(i as int).skip(1) =~= self.apps@.skip(i + 1));
            i = i + 1;
        }
        &self.default
    }

    /// For connections whose UID cannot be determined.
    pub fn default_policy(&self) -> (r: &AppPolicy)
        ensures
            r@ == self.default@,
    {
        &self.default
    }
}

proof fn lemma_answer_at(default: AppPolicy, apps: Seq<AppEntry>, i: int, uid: u32)
    requires
        disjoint(apps),
        0 <= i < apps.len(),
        apps[i].covers(uid),
    ensures
        answer(default, apps, uid) == apps[i].policy@,
    decreases apps.len(),
{
    if i > 0 {
        let rest = apps.skip(1);
        assert(!overlaps(apps[0], apps[i]));
        assert(rest[i - 1] == apps[i]);
        assert forall|a: int, b: int| 0 <= a < b < rest.len() implies !overlaps(
            #[trigger] rest[a],
            #[trigger] rest[b],
        ) by {
            assert(rest[a] == apps[a + 1] && rest[b] == apps[b + 1]);
        }
        lemma_answer_at(default, rest, i - 1, uid);
    }
}

/// A UID has one record: whichever entry of a store covers it, its record is the answer.
pub proof fn a_uid_has_one_record(store: PolicyStore, i: int, uid: u32)
    requires
        store.wf(),
        0 <= i < store.apps@.len(),
        store.apps@[i].covers(uid),
    ensures
        store.says(uid) == store.apps@[i].policy@,
        forall|j: int|
            0 <= j < store.apps@.len() && j != i ==> !(#[trigger] store.apps@[j]).covers(uid),
{
    lemma_answer_at(store.default, store.apps@, i, uid);
    assert forall|j: int| 0 <= j < store.apps@.len() && j != i implies !(
    #[trigger] store.apps@[j]).covers(uid) by {
        if j < i {
            assert(!overlaps(store.apps@[j], store.apps@[i]));
        } else {
            assert(!overlaps(store.apps@[i], store.apps@[j]));
        }
    }
}

/// A UID that no entry covers gets the default.
pub proof fn the_rest_get_the_default(store: PolicyStore, uid: u32)
    requires
        forall|i: int| 0 <= i < store.apps@.len() ==> !(#[trigger] store.apps@[i]).covers(uid),
    ensures
        store.says(uid) == store.default@,
{
    lemma_answer_default(store.default, store.apps@, uid);
}

proof fn lemma_answer_default(default: AppPolicy, apps: Seq<AppEntry>, uid: u32)
    requires
        forall|i: int| 0 <= i < apps.len() ==> !(#[trigger] apps[i]).covers(uid),
    ensures
        answer(default, apps, uid) == default@,
    decreases apps.len(),
{
    if apps.len() > 0 {
        assert(!apps[0].covers(uid));
        assert forall|i: int| 0 <= i < apps.skip(1).len() implies !(
        #[trigger] apps.skip(1)[i]).covers(uid) by {
            assert(apps.skip(1)[i] == apps[i + 1]);
        }
        lemma_answer_default(default, apps.skip(1), uid);
    }
}

/// Nobody may do anything unless a record says so: an unknown UID is shown no optional global
/// and holds no grant.
pub proof fn the_unknown_may_nothing(global: Global, grant: Grant)
    ensures
        !PolicyView::unknown().shows(global),
        !PolicyView::unknown().grants.contains(grant),
{
}

} // verus!
