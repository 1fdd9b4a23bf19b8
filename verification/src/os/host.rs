//! What is read off the host: our cgroup, users and groups, owned directories, the mapping of a
//! user namespace.
use vstd::prelude::*;
use vstd::string::*;

use super::path::{parent, parent_of};
use crate::text::{
    after_prefix, chars_of, decimal, find_char, join_path, lines, lines_of, number, path_under,
    quote, quoted, read_unsigned, string_of, strip_front, trim, trimmed, unsigned,
};
use crate::views::{group_views, views};

verus! {

/// Where the cgroups are.
pub const CGROUPS: &'static str = "/sys/fs/cgroup";

/// `s` without the slashes in front.
pub open spec fn without_slashes(s: Seq<char>) -> Seq<char>
    decreases s.len(),
{
    if s.len() > 0 && s[0] == '/' {
        without_slashes(s.skip(1))
    } else {
        s
    }
}

/// What follows `prefix` in the first line that starts with it.
pub open spec fn first_after(list: Seq<Seq<char>>, prefix: Seq<char>) -> Option<Seq<char>>
    decreases list.len(),
{
    if list.len() == 0 {
        None
    } else if prefix.is_prefix_of(list[0]) {
        after_prefix(list[0], prefix)
    } else {
        first_after(list.skip(1), prefix)
    }
}

fn find_after(list: &Vec<Vec<char>>, prefix: &str) -> (r: Option<Vec<char>>)
    ensures
        match r {
            Some(rest) => first_after(views(list@), prefix@) == Some(rest@),
            None => first_after(views(list@), prefix@) is None,
        },
{
    broadcast use group_views;

    let ghost all = views(list@);
    let mut i: usize = 0;
    assert(all.skip(0) =~= all);
    while i < list.len()
        invariant
            i <= list@.len(),
            all == views(list@),
            first_after(all, prefix@) == first_after(all.skip(i as int), prefix@),
        decreases list@.len() - i,
    {
        assert(all.skip(i as int)[0] == list@[i as int]@);
        if let Some(rest) = strip_front(&list[i], prefix) {
            return Some(rest);
        }
        assert(all.skip(i as int).skip(1) =~= all.skip(i + 1));
        i = i + 1;
    }
    None
}

/// Our own cgroup's directory, by what the kernel says our cgroup is.
pub fn own_cgroup(text: &str) -> (r: Result<String, String>)
    ensures
        match first_after(lines(text@), "0::"@) {
            Some(path) => r matches Ok(dir) && dir@ == path_under(CGROUPS@, without_slashes(path)),
            None => r matches Err(e) && e@ == "not on cgroup v2"@,
        },
{
    match find_after(&lines_of(&chars_of(text)), "0::") {
        None => Err("not on cgroup v2".to_owned()),
        Some(path) => {
            let mut i: usize = 0;
            assert(path@.skip(0) =~= path@);
            while i < path.len() && path[i] == '/'
                invariant
                    i <= path@.len(),
                    without_slashes(path@) == without_slashes(path@.skip(i as int)),
                decreases path@.len() - i,
            {
                assert(path@.skip(i as int).skip(1) =~= path@.skip(i + 1));
                i = i + 1;
            }
            let rest = string_of(&path, i, path.len());
            assert(rest@ =~= path@.skip(i as int));
            Ok(join_path(CGROUPS, rest.as_str()))
        },
    }
}

/// The apps' cgroup: `apps`, next to our own.
pub fn apps_cgroup(own: &str) -> (r: Result<String, String>)
    ensures
        match parent_of(own@) {
            Some(dir) => r matches Ok(apps) && apps@ == path_under(dir, "apps"@),
            None => r matches Err(e) && e@ == "own cgroup has no parent"@,
        },
{
    match parent(own) {
        Some(dir) => Ok(join_path(dir.as_str(), "apps")),
        None => Err("own cgroup has no parent".to_owned()),
    }
}

/// A number in octal.
pub open spec fn octal(n: nat) -> Seq<char>
    decreases n,
{
    if n < 8 {
        seq![(48 + n) as char]
    } else {
        octal(n / 8).push((48 + n % 8) as char)
    }
}

fn octal_of(n: u32) -> (r: String)
    ensures
        r@ == octal(n as nat),
    decreases n,
{
    let d: u8 = (n % 8) as u8;
    let c = (48 + d) as char;
    if n < 8 {
        let mut out = String::new();
        out.push(c);
        assert(out@ =~= seq![(48 + n) as char]);
        out
    } else {
        let mut out = octal_of(n / 8);
        out.push(c);
        out
    }
}

/// What is at a path, without following a link.
#[derive(Debug)]
pub enum Status {
    /// Why that cannot be said.
    Missing(String),
    Found { dir: bool, uid: u32, gid: u32, mode: u32 },
}

/// The permission bits of a mode.
pub open spec fn permissions(mode: u32) -> nat {
    (mode % 4096) as nat
}

/// What is wrong with a directory that should be `uid:gid` with `mode`.
pub open spec fn dir_fault(path: Seq<char>, status: Status, uid: u32, gid: u32, mode: u32) -> Option<
    Seq<char>,
> {
    match status {
        Status::Missing(err) => Some(path + ": "@ + err@ + " (a tmpfiles rule makes it)"@),
        Status::Found { dir, uid: u, gid: g, mode: m } => if !dir {
            Some(path + ": not a directory"@)
        } else if u != uid || g != gid || permissions(m) != mode {
            Some(
                path + ": "@ + decimal(u as nat) + ":"@ + decimal(g as nat) + " mode "@ + octal(
                    permissions(m),
                ) + ", wanted "@ + decimal(uid as nat) + ":"@ + decimal(gid as nat) + " mode "@
                    + octal(mode as nat) + " (a tmpfiles rule makes it)"@,
            )
        } else {
            None
        },
    }
}

/// `path` is there, is a directory, and is `uid:gid` with `mode`.
pub fn check_owned_dir(path: &str, status: &Status, uid: u32, gid: u32, mode: u32) -> (r: Result<
    (),
    String,
>)
    ensures
        match r {
            Ok(_) => dir_fault(path@, *status, uid, gid, mode) is None,
            Err(e) => dir_fault(path@, *status, uid, gid, mode) == Some(e@),
        },
{
    match status {
        Status::Missing(err) => {
            let mut text = path.to_owned();
            text.append(": ");
            text.append(err.as_str());
            text.append(" (a tmpfiles rule makes it)");
            Err(text)
        },
        Status::Found { dir, uid: u, gid: g, mode: m } => {
            if !*dir {
                let mut text = path.to_owned();
                text.append(": not a directory");
                return Err(text);
            }
            let bits: u32 = *m % 4096;
            if *u != uid || *g != gid || bits != mode {
                let mut text = path.to_owned();
                text.append(": ");
                text.append(number(*u as u64).as_str());
                text.append(":");
                text.append(number(*g as u64).as_str());
                text.append(" mode ");
                text.append(octal_of(bits).as_str());
                text.append(", wanted ");
                text.append(number(uid as u64).as_str());
                text.append(":");
                text.append(number(gid as u64).as_str());
                text.append(" mode ");
                text.append(octal_of(mode).as_str());
                text.append(" (a tmpfiles rule makes it)");
                return Err(text);
            }
            Ok(())
        },
    }
}

/// What the system's databases say of a name.
#[derive(Debug)]
pub enum Entry<T> {
    Found(T),
    Unknown,
    Failed(String),
}

/// The error for a name that was not found.
pub open spec fn entry_fault<T>(
    name: Seq<char>,
    bad: Seq<char>,
    call: Seq<char>,
    none: Seq<char>,
    entry: Entry<T>,
) -> Option<Seq<char>> {
    if name.contains('\0') {
        Some(bad + quoted(name))
    } else {
        match entry {
            Entry::Found(_) => None,
            Entry::Unknown => Some(none + quoted(name)),
            Entry::Failed(err) => Some(call + quoted(name) + ": "@ + err@),
        }
    }
}

fn checked_entry<T>(name: &str, bad: &str, call: &str, none: &str, entry: Entry<T>) -> (r: Result<
    T,
    String,
>)
    ensures
        match r {
            Ok(t) => entry_fault(name@, bad@, call@, none@, entry) is None && entry
                == Entry::<T>::Found(t),
            Err(e) => entry_fault(name@, bad@, call@, none@, entry) == Some(e@),
        },
{
    if let Some(i) = find_char(&chars_of(name), '\0') {
        assert(name@[i as int] == '\0');
        let mut text = bad.to_owned();
        text.append(quote(name).as_str());
        return Err(text);
    }
    match entry {
        Entry::Found(t) => Ok(t),
        Entry::Unknown => {
            let mut text = none.to_owned();
            text.append(quote(name).as_str());
            Err(text)
        },
        Entry::Failed(err) => {
            let mut text = call.to_owned();
            text.append(quote(name).as_str());
            text.append(": ");
            text.append(err.as_str());
            Err(text)
        },
    }
}

/// A group's id, by what the system's database says of its name.
pub fn group_id(name: &str, entry: Entry<u32>) -> (r: Result<u32, String>)
    ensures
        match r {
            Ok(gid) => entry == Entry::Found(gid) && !name@.contains('\0'),
            Err(e) => entry_fault(
                name@,
                "bad group name "@,
                "getgrnam "@,
                "no such group "@,
                entry,
            ) == Some(e@),
        },
{
    checked_entry(name, "bad group name ", "getgrnam ", "no such group ", entry)
}

/// A user's uid and primary gid, by what the system's database says of its name.
pub fn user_ids(name: &str, entry: Entry<(u32, u32)>) -> (r: Result<(u32, u32), String>)
    ensures
        match r {
            Ok(ids) => entry == Entry::Found(ids) && !name@.contains('\0'),
            Err(e) => entry_fault(
                name@,
                "bad user name "@,
                "getpwnam "@,
                "no such user "@,
                entry,
            ) == Some(e@),
        },
{
    checked_entry(name, "bad user name ", "getpwnam ", "no such user ", entry)
}

/// What follows a question for a user's groups: enough room was there, more is needed, or it
/// failed.
#[derive(Clone, Copy, Debug, PartialEq, Eq, Structural)]
pub enum More {
    Done(usize),
    Again(usize),
    Failed,
}

/// `room` groups could be taken, the call returned `rc` and says that there are `n`.
pub fn user_groups(rc: i32, n: usize, room: usize) -> (r: More)
    ensures
        r == if rc >= 0 {
            More::Done(n)
        } else if n <= room {
            More::Failed
        } else {
            More::Again(n)
        },
{
    if rc >= 0 {
        More::Done(n)
    } else if n <= room {
        More::Failed
    } else {
        More::Again(n)
    }
}

/// A line of a user namespace's map: the id inside, the id outside, one of them.
pub fn map_line(inside: u32, outside: u32) -> (r: String)
    ensures
        r@ == decimal(inside as nat) + " "@ + decimal(outside as nat) + " 1\n"@,
{
    let mut text = number(inside as u64);
    text.append(" ");
    text.append(number(outside as u64).as_str());
    text.append(" 1\n");
    text
}

/// The pid in `/proc`'s namespace, by what a pidfd's fdinfo says.
pub open spec fn fdinfo_pid(text: Seq<char>) -> Option<nat> {
    match first_after(lines(text), "Pid:"@) {
        None => None,
        Some(rest) => match unsigned(trimmed(rest), i64::MAX as nat) {
            Some(n) => if n > 0 {
                Some(n)
            } else {
                None
            },
            None => None,
        },
    }
}

/// The pid in `/proc`'s namespace, by what a pidfd's fdinfo says.
pub fn host_pid(text: &str) -> (r: Result<u64, String>)
    ensures
        match r {
            Ok(pid) => fdinfo_pid(text@) == Some(pid as nat),
            Err(e) => fdinfo_pid(text@) is None && e@ == "pidfd's fdinfo has no Pid"@,
        },
{
    if let Some(rest) = find_after(&lines_of(&chars_of(text)), "Pid:") {
        if let Some(n) = read_unsigned(&trim(&rest), i64::MAX as u64) {
            if n > 0 {
                return Ok(n);
            }
        }
    }
    Err("pidfd's fdinfo has no Pid".to_owned())
}

} // verus!
