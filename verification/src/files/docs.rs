//! The documents mount: `<docs>/<id>/<name>` is one file the person picked for one app. The
//! kernel says the caller's uid on every request; a grant belongs to one uid and nobody else
//! sees it, not even in the listing.
use vstd::prelude::*;
use vstd::string::*;

use crate::text::{chars_of, decimal, number, read_unsigned, same_text, unsigned};
use crate::views::{group_views, views};

verus! {

/// One file the person handed to one app.
#[derive(Debug)]
pub struct Grant {
    pub uid: u32,
    pub name: String,
    pub write: bool,
}

pub struct GrantView {
    pub uid: u32,
    pub name: Seq<char>,
    pub write: bool,
}

impl View for Grant {
    type V = GrantView;

    open spec fn view(&self) -> GrantView {
        GrantView { uid: self.uid, name: self.name@, write: self.write }
    }
}

/// Everything handed out. The grant with the id `k` is the `k`th.
#[derive(Debug)]
pub struct Grants {
    by_id: Vec<Grant>,
}

/// Ids stay below this, so that twice an id and one more is an inode.
pub const MAX_ID: u64 = 0x7fff_ffff_ffff_ffff;

/// What a request is refused with.
#[derive(Clone, Copy, Debug, PartialEq, Eq, Structural)]
pub enum Errno {
    /// `ENOENT`
    NoEntry,
    /// `EISDIR`
    IsDir,
    /// `ENOTDIR`
    NotDir,
    /// `EACCES`
    Access,
    /// `EIO`
    Io,
}

#[derive(Clone, Copy, Debug, PartialEq, Eq, Structural)]
pub enum FileType {
    Directory,
    RegularFile,
}

/// A moment: seconds and nanoseconds since the epoch.
#[derive(Clone, Copy, Debug, PartialEq, Eq, Structural)]
pub struct Moment {
    pub secs: i64,
    pub nanos: u32,
}

/// The epoch.
pub open spec fn epoch() -> Moment {
    Moment { secs: 0, nanos: 0 }
}

/// How big a file is and when it last changed.
#[derive(Clone, Copy, Debug, PartialEq, Eq, Structural)]
pub struct Meta {
    pub size: u64,
    pub mtime: Moment,
}

/// What is said of an inode. The other times are the last change's.
#[derive(Clone, Copy, Debug, PartialEq, Eq, Structural)]
pub struct FileAttr {
    pub ino: u64,
    pub size: u64,
    pub blocks: u64,
    pub mtime: Moment,
    pub kind: FileType,
    pub perm: u16,
    pub nlink: u32,
    pub uid: u32,
    pub gid: u32,
    pub rdev: u32,
    pub blksize: u32,
    pub flags: u32,
}

/// The root's inode.
pub const ROOT: u64 = 1;

/// The inode of a grant's directory.
pub open spec fn dir_inode(id: int) -> int {
    id * 2
}

/// The inode of a grant's file.
pub open spec fn file_inode(id: int) -> int {
    id * 2 + 1
}

/// The grant of an inode below the root, and whether it is its file.
pub open spec fn parted(ino: u64) -> Option<(u64, bool)> {
    if ino >= 2 {
        Some((ino / 2, ino % 2 == 1))
    } else {
        None
    }
}

/// The grant of an inode below the root, and whether it is its file.
pub fn split(ino: u64) -> (r: Option<(u64, bool)>)
    ensures
        r == parted(ino),
{
    if ino >= 2 {
        Some((ino / 2, ino % 2 == 1))
    } else {
        None
    }
}

/// Every grant's directory and file have inodes of their own, and lead back to the grant.
pub proof fn inodes_lead_back(id: u64)
    requires
        1 <= id <= MAX_ID,
    ensures
        ROOT < dir_inode(id as int) <= u64::MAX,
        ROOT < file_inode(id as int) <= u64::MAX,
        parted(dir_inode(id as int) as u64) == Some((id, false)),
        parted(file_inode(id as int) as u64) == Some((id, true)),
{
}

/// What is said of an inode.
pub open spec fn attributes(
    ino: u64,
    kind: FileType,
    perm: u16,
    uid: u32,
    size: u64,
    mtime: Moment,
) -> FileAttr {
    FileAttr {
        ino,
        size,
        blocks: ((size + 511) / 512) as u64,
        mtime,
        kind,
        perm,
        nlink: if kind == FileType::Directory {
            2
        } else {
            1
        },
        uid,
        gid: uid,
        rdev: 0,
        blksize: 4096,
        flags: 0,
    }
}

/// What is said of an inode.
fn attr(ino: u64, kind: FileType, perm: u16, uid: u32, size: u64, mtime: Moment) -> (r: FileAttr)
    ensures
        r == attributes(ino, kind, perm, uid, size, mtime),
{
    let blocks = size / 512 + if size % 512 == 0 {
        0
    } else {
        1
    };
    let nlink = if kind == FileType::Directory {
        2
    } else {
        1
    };
    FileAttr {
        ino,
        size,
        blocks,
        mtime,
        kind,
        perm,
        nlink,
        uid,
        gid: uid,
        rdev: 0,
        blksize: 4096,
        flags: 0,
    }
}

/// The grant with this id, if it is the caller's.
pub open spec fn own(grants: Seq<GrantView>, uid: u32, id: int) -> Option<GrantView> {
    if 1 <= id <= grants.len() && grants[id - 1].uid == uid {
        Some(grants[id - 1])
    } else {
        None
    }
}

/// What the caller hears of a grant's directory. A stranger gets `NoEntry`, never `Access`: it
/// is not admitted that the file exists.
pub open spec fn dir_said(grants: Seq<GrantView>, uid: u32, id: int) -> Result<FileAttr, Errno> {
    match own(grants, uid, id) {
        Some(g) => Ok(
            attributes(
                dir_inode(id) as u64,
                FileType::Directory,
                0o500,
                g.uid,
                0,
                epoch(),
            ),
        ),
        None => Err(Errno::NoEntry),
    }
}

/// What the caller hears of a grant's file, where `meta` is had of it.
pub open spec fn file_said(grants: Seq<GrantView>, uid: u32, id: int, meta: Option<Meta>) -> Result<
    FileAttr,
    Errno,
> {
    match own(grants, uid, id) {
        Some(g) => {
            let m = match meta {
                Some(m) => m,
                None => Meta { size: 0, mtime: epoch() },
            };
            Ok(
                attributes(
                    file_inode(id) as u64,
                    FileType::RegularFile,
                    if g.write {
                        0o600
                    } else {
                        0o400
                    },
                    g.uid,
                    m.size,
                    m.mtime,
                ),
            )
        },
        None => Err(Errno::NoEntry),
    }
}

/// What the caller hears of an inode. `owner` is shown as the root's.
pub open spec fn said_of(
    grants: Seq<GrantView>,
    owner: u32,
    uid: u32,
    ino: u64,
    meta: Option<Meta>,
) -> Result<FileAttr, Errno> {
    match parted(ino) {
        None => if ino == ROOT {
            Ok(attributes(ROOT, FileType::Directory, 0o555, owner, 0, epoch()))
        } else {
            Err(Errno::NoEntry)
        },
        Some((id, false)) => dir_said(grants, uid, id as int),
        Some((id, true)) => file_said(grants, uid, id as int, meta),
    }
}

/// What a name in a directory leads the caller to; no name where it is no text.
pub open spec fn found(
    grants: Seq<GrantView>,
    uid: u32,
    parent: u64,
    name: Option<Seq<char>>,
    meta: Option<Meta>,
) -> Result<FileAttr, Errno> {
    match name {
        None => Err(Errno::NoEntry),
        Some(name) => if parent == ROOT {
            match unsigned(name, u64::MAX as nat) {
                Some(id) => dir_said(grants, uid, id as int),
                None => Err(Errno::NoEntry),
            }
        } else {
            match parted(parent) {
                Some((id, false)) => match own(grants, uid, id as int) {
                    Some(g) => if g.name == name {
                        file_said(grants, uid, id as int, meta)
                    } else {
                        Err(Errno::NoEntry)
                    },
                    None => Err(Errno::NoEntry),
                },
                _ => Err(Errno::NoEntry),
            }
        },
    }
}

/// The caller's grant behind a file's inode.
pub open spec fn file_of(grants: Seq<GrantView>, uid: u32, ino: u64) -> Result<u64, Errno> {
    match parted(ino) {
        Some((id, true)) => match own(grants, uid, id as int) {
            Some(_) => Ok(id),
            None => Err(Errno::NoEntry),
        },
        _ => Err(Errno::IsDir),
    }
}

/// The caller's grant behind a file's inode, where it may be written.
pub open spec fn writable(grants: Seq<GrantView>, uid: u32, ino: u64) -> Result<u64, Errno> {
    match file_of(grants, uid, ino) {
        Ok(id) => if own(grants, uid, id as int)->0.write {
            Ok(id)
        } else {
            Err(Errno::Access)
        },
        Err(e) => Err(e),
    }
}

/// One name in a directory. `T` is text.
#[derive(Debug)]
pub struct DirEntry<T> {
    pub ino: u64,
    pub kind: FileType,
    pub name: T,
}

impl View for DirEntry<String> {
    type V = DirEntry<Seq<char>>;

    open spec fn view(&self) -> DirEntry<Seq<char>> {
        DirEntry { ino: self.ino, kind: self.kind, name: self.name@ }
    }
}

/// A directory entry for a directory.
pub open spec fn dir_entry(ino: int, name: Seq<char>) -> DirEntry<Seq<char>> {
    DirEntry { ino: ino as u64, kind: FileType::Directory, name }
}

/// The caller's directories among the first `n` grants, by their ids.
pub open spec fn own_dirs(grants: Seq<GrantView>, uid: u32, n: int) -> Seq<DirEntry<Seq<char>>>
    decreases n,
{
    if n <= 0 {
        Seq::empty()
    } else {
        let before = own_dirs(grants, uid, n - 1);
        if own(grants, uid, n) is Some {
            before.push(dir_entry(dir_inode(n), decimal(n as nat)))
        } else {
            before
        }
    }
}

/// What is in a directory.
pub open spec fn entries(grants: Seq<GrantView>, uid: u32, ino: u64) -> Result<
    Seq<DirEntry<Seq<char>>>,
    Errno,
> {
    if ino == ROOT {
        Ok(
            seq![dir_entry(ROOT as int, "."@), dir_entry(ROOT as int, ".."@)] + own_dirs(
                grants,
                uid,
                grants.len() as int,
            ),
        )
    } else {
        match parted(ino) {
            Some((id, false)) => match own(grants, uid, id as int) {
                Some(g) => Ok(
                    seq![
                        dir_entry(dir_inode(id as int), "."@),
                        dir_entry(ROOT as int, ".."@),
                        DirEntry {
                            ino: file_inode(id as int) as u64,
                            kind: FileType::RegularFile,
                            name: g.name,
                        },
                    ],
                ),
                None => Err(Errno::NoEntry),
            },
            _ => Err(Errno::NotDir),
        }
    }
}

/// The entries from an offset on; none past the end.
pub open spec fn entries_from(all: Seq<DirEntry<Seq<char>>>, offset: u64) -> Seq<
    DirEntry<Seq<char>>,
> {
    if offset <= all.len() {
        all.skip(offset as int)
    } else {
        Seq::empty()
    }
}

impl View for Grants {
    type V = Seq<GrantView>;

    closed spec fn view(&self) -> Seq<GrantView> {
        views(self.by_id@)
    }
}

impl Grants {
    /// Every id has its inodes.
    pub open spec fn wf(&self) -> bool {
        self@.len() <= MAX_ID
    }

    /// Nothing handed out.
    pub fn new() -> (r: Grants)
        ensures
            r@ == Seq::<GrantView>::empty(),
            r.wf(),
    {
        broadcast use group_views;

        Grants { by_id: Vec::new() }
    }

    /// Files the grant; the id is the directory the app finds it in.
    pub fn add(&mut self, grant: Grant) -> (id: u64)
        requires
            old(self)@.len() < MAX_ID,
        ensures
            final(self)@ == old(self)@.push(grant@),
            final(self).wf(),
            id == final(self)@.len(),
    {
        broadcast use group_views;

        self.by_id.push(grant);
        self.by_id.len() as u64
    }

    /// The grant with this id, if it is the caller's.
    fn grant(&self, uid: u32, id: u64) -> (r: Option<&Grant>)
        ensures
            match r {
                Some(g) => own(self@, uid, id as int) == Some(g@),
                None => own(self@, uid, id as int) is None,
            },
            r is Some ==> 1 <= id <= self@.len(),
    {
        broadcast use group_views;

        if id == 0 || id > self.by_id.len() as u64 {
            return None;
        }
        let i = (id - 1) as usize;
        if self.by_id[i].uid == uid {
            Some(&self.by_id[i])
        } else {
            None
        }
    }

    fn dir_attr(&self, uid: u32, id: u64) -> (r: Result<FileAttr, Errno>)
        requires
            self.wf(),
        ensures
            r == dir_said(self@, uid, id as int),
    {
        match self.grant(uid, id) {
            Some(g) => Ok(
                attr(
                    id * 2,
                    FileType::Directory,
                    0o500,
                    g.uid,
                    0,
                    Moment { secs: 0, nanos: 0 },
                ),
            ),
            None => Err(Errno::NoEntry),
        }
    }

    fn file_attr(&self, uid: u32, id: u64, meta: Option<Meta>) -> (r: Result<FileAttr, Errno>)
        requires
            self.wf(),
        ensures
            r == file_said(self@, uid, id as int, meta),
    {
        match self.grant(uid, id) {
            Some(g) => {
                let m = match meta {
                    Some(m) => m,
                    None => Meta { size: 0, mtime: Moment { secs: 0, nanos: 0 } },
                };
                let perm: u16 = if g.write {
                    0o600
                } else {
                    0o400
                };
                Ok(attr(id * 2 + 1, FileType::RegularFile, perm, g.uid, m.size, m.mtime))
            },
            None => Err(Errno::NoEntry),
        }
    }

    /// What the caller hears of an inode. `owner` is shown as the root's; `meta` is had of the
    /// file behind the inode.
    pub fn attr_of(&self, owner: u32, uid: u32, ino: u64, meta: Option<Meta>) -> (r: Result<FileAttr, Errno>)
        requires
            self.wf(),
        ensures
            r == said_of(self@, owner, uid, ino, meta),
    {
        match split(ino) {
            None => if ino == ROOT {
                Ok(
                    attr(
                        ROOT,
                        FileType::Directory,
                        0o555,
                        owner,
                        0,
                        Moment { secs: 0, nanos: 0 },
                    ),
                )
            } else {
                Err(Errno::NoEntry)
            },
            Some((id, false)) => self.dir_attr(uid, id),
            Some((id, true)) => self.file_attr(uid, id, meta),
        }
    }

    /// What a name in a directory leads the caller to; no name where it is no text. `meta` is
    /// had of the file in the directory.
    pub fn lookup(&self, uid: u32, parent: u64, name: Option<&str>, meta: Option<Meta>) -> (r: Result<FileAttr, Errno>)
        requires
            self.wf(),
        ensures
            r == found(
                self@,
                uid,
                parent,
                match name {
                    Some(name) => Some(name@),
                    None => None,
                },
                meta,
            ),
    {
        let name = match name {
            Some(name) => name,
            None => return Err(Errno::NoEntry),
        };
        if parent == ROOT {
            return match read_unsigned(&chars_of(name), u64::MAX) {
                Some(id) => self.dir_attr(uid, id),
                None => Err(Errno::NoEntry),
            };
        }
        match split(parent) {
            Some((id, false)) => match self.grant(uid, id) {
                Some(g) => if same_text(g.name.as_str(), name) {
                    self.file_attr(uid, id, meta)
                } else {
                    Err(Errno::NoEntry)
                },
                None => Err(Errno::NoEntry),
            },
            _ => Err(Errno::NoEntry),
        }
    }

    /// The caller's grant behind a file's inode: what is read or synced.
    pub fn on_file(&self, uid: u32, ino: u64) -> (r: Result<u64, Errno>)
        ensures
            r == file_of(self@, uid, ino),
    {
        match split(ino) {
            Some((id, true)) => match self.grant(uid, id) {
                Some(_) => Ok(id),
                None => Err(Errno::NoEntry),
            },
            _ => Err(Errno::IsDir),
        }
    }

    /// The caller's grant behind a file's inode, where it may be written: what is written to
    /// or truncated.
    pub fn on_writable(&self, uid: u32, ino: u64) -> (r: Result<u64, Errno>)
        ensures
            r == writable(self@, uid, ino),
    {
        match self.on_file(uid, ino) {
            Ok(id) => match self.grant(uid, id) {
                Some(g) => if g.write {
                    Ok(id)
                } else {
                    Err(Errno::Access)
                },
                None => Err(Errno::NoEntry),
            },
            Err(e) => Err(e),
        }
    }

    /// Whether the caller may open a file, to write it or only to read it.
    pub fn open(&self, uid: u32, ino: u64, wants_write: bool) -> (r: Result<(), Errno>)
        ensures
            r == if wants_write {
                match writable(self@, uid, ino) {
                    Ok(_) => Ok(()),
                    Err(e) => Err(e),
                }
            } else {
                match file_of(self@, uid, ino) {
                    Ok(_) => Ok(()),
                    Err(e) => Err(e),
                }
            },
    {
        let opened = if wants_write {
            self.on_writable(uid, ino)
        } else {
            self.on_file(uid, ino)
        };
        match opened {
            Ok(_) => Ok(()),
            Err(e) => Err(e),
        }
    }

    /// What changing an inode comes to: the grant to truncate and to what size. Truncation is
    /// the one change an app makes here; ownership and mode are ours to report.
    pub fn setattr(&self, uid: u32, ino: u64, size: Option<u64>) -> (r: Result<Option<(u64, u64)>, Errno>)
        ensures
            r == match size {
                None => Ok(None),
                Some(size) => match writable(self@, uid, ino) {
                    Ok(id) => Ok(Some((id, size))),
                    Err(e) => Err(e),
                },
            },
    {
        match size {
            None => Ok(None),
            Some(size) => match self.on_writable(uid, ino) {
                Ok(id) => Ok(Some((id, size))),
                Err(e) => Err(e),
            },
        }
    }

    /// What is in a directory from an offset on, each entry with the offset behind it.
    pub fn readdir(&self, uid: u32, ino: u64, offset: u64) -> (r: Result<
        Vec<(u64, DirEntry<String>)>,
        Errno,
    >)
        requires
            self.wf(),
        ensures
            match (r, entries(self@, uid, ino)) {
                (Ok(list), Ok(all)) => {
                    &&& list@.len() == entries_from(all, offset).len()
                    &&& forall|i: int|
                        0 <= i < list@.len() ==> (#[trigger] list@[i])@ == (
                            (offset + i + 1) as u64,
                            entries_from(all, offset)[i],
                        )
                },
                (Err(e), Err(f)) => e == f,
                _ => false,
            },
    {
        let all = match self.list(uid, ino) {
            Ok(all) => all,
            Err(e) => return Err(e),
        };
        let ghost listed = views(all@);
        let mut rest = all;
        let mut out: Vec<(u64, DirEntry<String>)> = Vec::new();
        if offset >= rest.len() as u64 {
            return Ok(out);
        }
        let from = offset as usize;
        let mut tail = rest.split_off(from);
        let ghost want = entries_from(listed, offset);
        let ghost from_here = tail@;
        assert forall|i: int| 0 <= i < from_here.len() implies (#[trigger] from_here[i])@
            == want[i] by {
            assert(all@[from + i]@ == listed[from + i]);
        }
        let mut i: usize = 0;
        while tail.len() > 0
            invariant
                from == offset,
                from_here.len() + from <= usize::MAX,
                from_here.len() == want.len(),
                i <= from_here.len(),
                tail@ == from_here.skip(i as int),
                out@.len() == i,
                forall|j: int|
                    0 <= j < from_here.len() ==> (#[trigger] from_here[j])@ == want[j],
                forall|j: int|
                    0 <= j < i ==> (#[trigger] out@[j])@ == ((offset + j + 1) as u64, want[j]),
            decreases tail@.len(),
        {
            let e = tail.remove(0);
            assert(e == from_here[i as int]);
            out.push((from as u64 + i as u64 + 1, e));
            assert(tail@ =~= from_here.skip(i + 1));
            i = i + 1;
        }
        Ok(out)
    }

    /// What is in a directory.
    fn list(&self, uid: u32, ino: u64) -> (r: Result<Vec<DirEntry<String>>, Errno>)
        requires
            self.wf(),
        ensures
            match (r, entries(self@, uid, ino)) {
                (Ok(list), Ok(all)) => views(list@) == all,
                (Err(e), Err(f)) => e == f,
                _ => false,
            },
    {
        broadcast use group_views;

        let mut list: Vec<DirEntry<String>> = Vec::new();
        if ino == ROOT {
            list.push(
                DirEntry { ino: ROOT, kind: FileType::Directory, name: ".".to_owned() },
            );
            list.push(
                DirEntry { ino: ROOT, kind: FileType::Directory, name: "..".to_owned() },
            );
            let ghost start = seq![
                dir_entry(ROOT as int, "."@),
                dir_entry(ROOT as int, ".."@),
            ];
            assert(views(list@) =~= start + own_dirs(self@, uid, 0));
            let mut n: u64 = 0;
            while n < self.by_id.len() as u64
                invariant
                    self.wf(),
                    n <= self.by_id@.len(),
                    views(list@) == start + own_dirs(self@, uid, n as int),
                decreases self.by_id@.len() - n,
            {
                broadcast use group_views;

                let id = n + 1;
                if self.grant(uid, id).is_some() {
                    list.push(
                        DirEntry {
                            ino: id * 2,
                            kind: FileType::Directory,
                            name: number(id),
                        },
                    );
                    assert(views(list@) =~= start + own_dirs(self@, uid, id as int));
                }
                n = id;
            }
            return Ok(list);
        }
        match split(ino) {
            Some((id, false)) => match self.grant(uid, id) {
                Some(g) => {
                    list.push(
                        DirEntry {
                            ino: id * 2,
                            kind: FileType::Directory,
                            name: ".".to_owned(),
                        },
                    );
                    list.push(
                        DirEntry { ino: ROOT, kind: FileType::Directory, name: "..".to_owned() },
                    );
                    list.push(
                        DirEntry {
                            ino: id * 2 + 1,
                            kind: FileType::RegularFile,
                            name: g.name.clone(),
                        },
                    );
                    assert(views(list@) =~= entries(self@, uid, ino)->Ok_0);
                    Ok(list)
                },
                None => Err(Errno::NoEntry),
            },
            _ => Err(Errno::NotDir),
        }
    }
}

/// What one read came to.
#[derive(Clone, Copy, Debug, PartialEq, Eq, Structural)]
pub enum Got {
    Bytes(u32),
    Interrupted,
    Failed,
}

/// What follows a read.
#[derive(Clone, Copy, Debug, PartialEq, Eq, Structural)]
pub enum Reading {
    /// So much is read; more is asked for.
    More(u32),
    /// So much was read, and no more is to be had or asked for.
    Done(u32),
    Failed,
}

/// What follows a read, with `n` read before of `size` asked for: it goes on until all is read
/// or nothing more comes.
pub fn read_on(size: u32, n: u32, got: Got) -> (r: Reading)
    requires
        n < size,
        got is Bytes ==> got->0 <= size - n,
    ensures
        r == match got {
            Got::Failed => Reading::Failed,
            Got::Interrupted => Reading::More(n),
            Got::Bytes(k) => if k == 0 || n + k == size {
                Reading::Done((n + k) as u32)
            } else {
                Reading::More((n + k) as u32)
            },
        },
{
    match got {
        Got::Failed => Reading::Failed,
        Got::Interrupted => Reading::More(n),
        Got::Bytes(k) => if k == 0 || n + k == size {
            Reading::Done(n + k)
        } else {
            Reading::More(n + k)
        },
    }
}

/// Two sets of grants are one to a caller: what is theirs is the same in both.
pub open spec fn alike(a: Seq<GrantView>, b: Seq<GrantView>, uid: u32) -> bool {
    forall|id: int| #[trigger] own(a, uid, id) == own(b, uid, id)
}

proof fn lemma_own_dirs(a: Seq<GrantView>, b: Seq<GrantView>, uid: u32, n: int)
    requires
        alike(a, b, uid),
    ensures
        own_dirs(a, uid, n) == own_dirs(b, uid, n),
    decreases n,
{
    if n > 0 {
        lemma_own_dirs(a, b, uid, n - 1);
        assert(own(a, uid, n) == own(b, uid, n));
    }
}

proof fn lemma_own_dirs_end(a: Seq<GrantView>, uid: u32, n: int)
    requires
        n >= a.len(),
    ensures
        own_dirs(a, uid, n) == own_dirs(a, uid, a.len() as int),
    decreases n,
{
    if n > a.len() {
        lemma_own_dirs_end(a, uid, n - 1);
    }
}

/// Nobody learns of what is not theirs: whatever others were given, every answer is the same.
pub proof fn strangers_see_nothing(
    a: Seq<GrantView>,
    b: Seq<GrantView>,
    owner: u32,
    uid: u32,
    ino: u64,
    name: Option<Seq<char>>,
    meta: Option<Meta>,
)
    requires
        alike(a, b, uid),
    ensures
        said_of(a, owner, uid, ino, meta) == said_of(b, owner, uid, ino, meta),
        found(a, uid, ino, name, meta) == found(b, uid, ino, name, meta),
        file_of(a, uid, ino) == file_of(b, uid, ino),
        writable(a, uid, ino) == writable(b, uid, ino),
        entries(a, uid, ino) == entries(b, uid, ino),
{
    if let Some((id, _)) = parted(ino) {
        assert(own(a, uid, id as int) == own(b, uid, id as int));
    }
    if let Some(name) = name {
        if let Some(id) = unsigned(name, u64::MAX as nat) {
            assert(own(a, uid, id as int) == own(b, uid, id as int));
        }
    }
    let n = if a.len() < b.len() {
        b.len() as int
    } else {
        a.len() as int
    };
    lemma_own_dirs(a, b, uid, n);
    lemma_own_dirs_end(a, uid, n);
    lemma_own_dirs_end(b, uid, n);
}

/// A grant that is handed out is found by its id and name by the app it is for, and by no one
/// else; only what was handed out to be written can be.
pub proof fn a_grant_is_its_apps_own(grants: Seq<GrantView>, grant: GrantView, uid: u32, meta: Option<Meta>)
    requires
        grants.len() < MAX_ID,
    ensures
        ({
            let after = grants.push(grant);
            let id = after.len() as int;
            let dir = dir_inode(id) as u64;
            let file = file_inode(id) as u64;
            &&& found(after, grant.uid, ROOT, Some(decimal(id as nat)), meta) == Ok::<
                FileAttr,
                Errno,
            >(attributes(dir, FileType::Directory, 0o500, grant.uid, 0, epoch()))
            &&& found(after, grant.uid, dir, Some(grant.name), meta) == file_said(
                after,
                grant.uid,
                id,
                meta,
            )
            &&& file_of(after, grant.uid, file) == Ok::<u64, Errno>(id as u64)
            &&& writable(after, grant.uid, file) is Ok == grant.write
            &&& uid != grant.uid ==> {
                &&& alike(grants, after, uid)
                &&& file_of(after, uid, file) == Err::<u64, Errno>(Errno::NoEntry)
                &&& found(after, uid, ROOT, Some(decimal(id as nat)), meta) == Err::<
                    FileAttr,
                    Errno,
                >(Errno::NoEntry)
            }
        }),
{
    let after = grants.push(grant);
    let id = after.len() as u64;
    inodes_lead_back(id);
    crate::text::decimal_reads_back(id as nat, u64::MAX as nat);
    if uid != grant.uid {
        assert forall|k: int| #[trigger] own(grants, uid, k) == own(after, uid, k) by {
            if 1 <= k <= grants.len() {
                assert(after[k - 1] == grants[k - 1]);
            }
        }
    }
}

} // verus!
