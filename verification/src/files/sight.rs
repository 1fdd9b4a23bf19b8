//! What an app sees of the documents it was given, and what its requests come to.
use vstd::prelude::*;

use super::app::{heard, Conn};
use super::docs::{
    entries, entries_from, file_of, found, own_dirs, said_of, writable, DirEntry, Errno, FileAttr,
    FileType, GrantView, Meta, Moment,
};
use super::wire::{Kind, ToFiles};
use crate::assoc::get;
use crate::chooser::{FrontView, Pending, Turn, What};
use crate::text::{decimal, decimal_reads_back};

verus! {

/// What is said of the root of the documents, to everyone: a directory that can be read and
/// walked, the owner's.
pub proof fn the_root_is_everyones(
    grants: Seq<GrantView>,
    owner: u32,
    uid: u32,
    meta: Option<Meta>,
)
    ensures
        ({
            let said = said_of(grants, owner, uid, 1, meta);
            &&& said is Ok
            &&& said->Ok_0.ino == 1
            &&& said->Ok_0.kind == FileType::Directory
            &&& said->Ok_0.perm == 365u16
            &&& said->Ok_0.uid == owner
            &&& said->Ok_0.gid == owner
            &&& said->Ok_0.size == 0
            &&& said->Ok_0.nlink == 2
        }),
        said_of(grants, owner, uid, 0, meta) == Err::<FileAttr, Errno>(Errno::NoEntry),
        file_of(grants, uid, 1) == Err::<u64, Errno>(Errno::IsDir),
        writable(grants, uid, 1) == Err::<u64, Errno>(Errno::IsDir),
{
}

/// The `id`th grant is seen by the uid that it is for, as a directory of its own that nobody
/// else can read, at inode twice the id, and a file at the next inode: as big and as old as it
/// is, readable, and writable where it was given so. To anybody else neither exists.
pub proof fn a_document_is_its_uids(
    grants: Seq<GrantView>,
    owner: u32,
    uid: u32,
    id: u64,
    meta: Meta,
)
    requires
        1 <= id <= grants.len() <= 0x7fff_ffff_ffff_ffff,
    ensures
        ({
            let g = grants[id - 1];
            let dir = said_of(grants, owner, uid, (2 * id) as u64, Some(meta));
            let file = said_of(grants, owner, uid, (2 * id + 1) as u64, Some(meta));
            &&& g.uid == uid ==> {
                &&& dir is Ok
                &&& dir->Ok_0.ino == 2 * id
                &&& dir->Ok_0.kind == FileType::Directory
                &&& dir->Ok_0.perm == 320u16
                &&& dir->Ok_0.uid == uid && dir->Ok_0.gid == uid
                &&& file is Ok
                &&& file->Ok_0.ino == 2 * id + 1
                &&& file->Ok_0.kind == FileType::RegularFile
                &&& file->Ok_0.perm == if g.write { 384u16 } else { 256u16 }
                &&& file->Ok_0.uid == uid && file->Ok_0.gid == uid
                &&& file->Ok_0.size == meta.size
                &&& file->Ok_0.mtime == meta.mtime
                &&& file->Ok_0.nlink == 1
                &&& meta.size <= u64::MAX - 511 ==> (file->Ok_0.blocks - 1) * 512 < meta.size
                    <= file->Ok_0.blocks * 512
                &&& file_of(grants, uid, (2 * id + 1) as u64) == Ok::<u64, Errno>(id)
                &&& writable(grants, uid, (2 * id + 1) as u64) == if g.write {
                    Ok::<u64, Errno>(id)
                } else {
                    Err(Errno::Access)
                }
            }
            &&& g.uid != uid ==> {
                &&& dir == Err::<FileAttr, Errno>(Errno::NoEntry)
                &&& file == Err::<FileAttr, Errno>(Errno::NoEntry)
                &&& file_of(grants, uid, (2 * id + 1) as u64) == Err::<u64, Errno>(Errno::NoEntry)
                &&& writable(grants, uid, (2 * id + 1) as u64) == Err::<u64, Errno>(
                    Errno::NoEntry,
                )
            }
            &&& file_of(grants, uid, (2 * id) as u64) == Err::<u64, Errno>(Errno::IsDir)
        }),
{
    assert((2 * id + 1) / 2 == id);
    assert((2 * id) / 2 == id);
}

/// An inode past the last grant is nobody's.
pub proof fn nothing_is_past_the_last(
    grants: Seq<GrantView>,
    owner: u32,
    uid: u32,
    ino: u64,
    meta: Option<Meta>,
)
    requires
        ino >= 2 * (grants.len() + 1),
    ensures
        said_of(grants, owner, uid, ino, meta) == Err::<FileAttr, Errno>(Errno::NoEntry),
        ino % 2 == 1 ==> file_of(grants, uid, ino) == Err::<u64, Errno>(Errno::NoEntry),
{
}

/// Names lead where they should: an id to the directory of that grant, the grant's name in it
/// to its file, and any other name, or none, nowhere.
pub proof fn names_lead_to_documents(
    grants: Seq<GrantView>,
    owner: u32,
    uid: u32,
    id: u64,
    name: Seq<char>,
    meta: Option<Meta>,
)
    requires
        1 <= id <= grants.len() <= 0x7fff_ffff_ffff_ffff,
        grants[id - 1].uid == uid,
    ensures
        found(grants, uid, 1, Some(decimal(id as nat)), meta) == said_of(
            grants,
            owner,
            uid,
            (2 * id) as u64,
            meta,
        ),
        name == grants[id - 1].name ==> found(grants, uid, (2 * id) as u64, Some(name), meta)
            == said_of(grants, owner, uid, (2 * id + 1) as u64, meta),
        name != grants[id - 1].name ==> found(grants, uid, (2 * id) as u64, Some(name), meta)
            == Err::<FileAttr, Errno>(Errno::NoEntry),
        found(grants, uid, (2 * id) as u64, None, meta) == Err::<FileAttr, Errno>(Errno::NoEntry),
        found(grants, uid, (2 * id + 1) as u64, Some(name), meta) == Err::<FileAttr, Errno>(
            Errno::NoEntry,
        ),
{
    decimal_reads_back(id as nat, u64::MAX as nat);
    assert((2 * id + 1) / 2 == id);
    assert((2 * id) / 2 == id);
}

proof fn lemma_own_dirs(grants: Seq<GrantView>, uid: u32, n: int, e: DirEntry<Seq<char>>)
    requires
        0 <= n <= grants.len() <= 0x7fff_ffff_ffff_ffff,
    ensures
        own_dirs(grants, uid, n).contains(e) <==> exists|id: int|
            1 <= id <= n && (#[trigger] grants[id - 1]).uid == uid && e == (DirEntry {
                ino: (2 * id) as u64,
                kind: FileType::Directory,
                name: decimal(id as nat),
            }),
    decreases n,
{
    if n > 0 {
        lemma_own_dirs(grants, uid, n - 1, e);
        let before = own_dirs(grants, uid, n - 1);
        let last = DirEntry {
            ino: (2 * n) as u64,
            kind: FileType::Directory,
            name: decimal(n as nat),
        };
        vstd::seq_lib::lemma_seq_contains_after_push(before, last, e);
        assert(n * 2 == 2 * n);
        if grants[n - 1].uid == uid {
            assert(own_dirs(grants, uid, n) == before.push(last));
        } else {
            assert(own_dirs(grants, uid, n) == before);
        }
    }
}

/// What an app lists: in the root its own grants by their ids, and nobody else's; in a grant's
/// directory its one file. A file cannot be listed, and a stranger's directory is not there.
pub proof fn apps_list_their_own(
    grants: Seq<GrantView>,
    uid: u32,
    id: u64,
    e: DirEntry<Seq<char>>,
)
    requires
        1 <= id <= grants.len() <= 0x7fff_ffff_ffff_ffff,
    ensures
        ({
            let all = entries(grants, uid, 1);
            let up = |name: Seq<char>|
                DirEntry { ino: 1u64, kind: FileType::Directory, name };
            &&& all is Ok
            &&& all->Ok_0.len() >= 2
            &&& all->Ok_0[0] == up("."@)
            &&& all->Ok_0[1] == up(".."@)
            &&& all->Ok_0.skip(2).contains(e) <==> exists|k: int|
                1 <= k <= grants.len() && (#[trigger] grants[k - 1]).uid == uid && e == (DirEntry {
                    ino: (2 * k) as u64,
                    kind: FileType::Directory,
                    name: decimal(k as nat),
                })
        }),
        grants[id - 1].uid == uid ==> entries(grants, uid, (2 * id) as u64) == Ok::<
            Seq<DirEntry<Seq<char>>>,
            Errno,
        >(
            seq![
                DirEntry { ino: (2 * id) as u64, kind: FileType::Directory, name: "."@ },
                DirEntry { ino: 1u64, kind: FileType::Directory, name: ".."@ },
                DirEntry {
                    ino: (2 * id + 1) as u64,
                    kind: FileType::RegularFile,
                    name: grants[id - 1].name,
                },
            ],
        ),
        grants[id - 1].uid != uid ==> entries(grants, uid, (2 * id) as u64) == Err::<
            Seq<DirEntry<Seq<char>>>,
            Errno,
        >(Errno::NoEntry),
        entries(grants, uid, (2 * id + 1) as u64) is Err,
{
    let n = grants.len() as int;
    lemma_own_dirs(grants, uid, n, e);
    let all = entries(grants, uid, 1)->Ok_0;
    assert(all.skip(2) =~= own_dirs(grants, uid, n));
    assert((2 * id + 1) / 2 == id);
    assert((2 * id) / 2 == id);
}

/// A listing that is read in parts goes on where it stopped, and ends.
pub proof fn listings_go_on(all: Seq<DirEntry<Seq<char>>>, offset: u64, i: int)
    ensures
        offset <= all.len() ==> entries_from(all, offset).len() == all.len() - offset,
        offset > all.len() ==> entries_from(all, offset).len() == 0,
        0 <= i < entries_from(all, offset).len() ==> entries_from(all, offset)[i] == all[offset
            + i],
{
}

/// What an app asks for is put to the person in its own name and for its own uid, as it was
/// asked, under its connection and number; what it withdraws is that one; and who is not
/// connected asks nothing.
pub proof fn apps_ask_in_their_own_name(
    conns: Seq<(u64, Conn<Seq<char>>)>,
    desk: FrontView,
    conn: u64,
    req: u64,
    kind: Kind,
    c: Conn<Seq<char>>,
    version: u32,
)
    ensures
        get(conns, conn) == Some(c) ==> heard(conns, desk, conn, ToFiles::Choose { req, kind })
            == Turn::start(desk).ask(
            Pending {
                who: (conn, req),
                app: c.app,
                uid: c.uid,
                title: Seq::empty(),
                what: match kind {
                    Kind::Open => What::Open,
                    Kind::Save { name } => What::Save { name: name@ },
                },
            },
        ),
        get(conns, conn) is None ==> heard(conns, desk, conn, ToFiles::Choose { req, kind })
            == Turn::start(desk),
        heard(conns, desk, conn, ToFiles::Cancel { req }) == Turn::start(desk).withdraw(
            conn,
            Some(req),
        ),
        heard(conns, desk, conn, ToFiles::Hello { version }) == Turn::start(desk),
{
}

/// What is said of every document besides: no device, no flags, blocks of 4096; a file of which
/// nothing is known is empty and as old as time, and so are all directories.
pub proof fn what_else_is_said(
    grants: Seq<GrantView>,
    owner: u32,
    uid: u32,
    id: u64,
    ino: u64,
    meta: Option<Meta>,
)
    ensures
        ({
            let said = said_of(grants, owner, uid, ino, meta);
            &&& said is Ok ==> said->Ok_0.ino == ino && said->Ok_0.rdev == 0 && said->Ok_0.flags == 0
                && said->Ok_0.blksize == 4096 && said->Ok_0.gid == said->Ok_0.uid
            &&& said is Ok && (said->Ok_0.kind == FileType::Directory || meta is None)
                ==> said->Ok_0.size == 0 && said->Ok_0.blocks == 0 && said->Ok_0.mtime == (Moment {
                secs: 0,
                nanos: 0,
            })
            &&& said is Ok && ino > 1 ==> (said->Ok_0.kind == FileType::RegularFile <==> ino % 2
                == 1)
        }),
{
    assert((0 + 511) / 512 == 0);
}

} // verus!
