//! What fds one process hands another, which are refused, and what is read of the host.
use vstd::prelude::*;

use super::fds::{
    handed, handoff_env, name_fault, numbered, socket_fault, taken_as, Fds, Kind, Probe, Var,
};
use super::host::{
    dir_fault, entry_fault, fdinfo_pid, first_after, octal, without_slashes, Entry, Status,
};
use crate::text::{decimal, joined, lines, pieces, quoted, trimmed, unsigned};

verus! {

/// The two variables of a handoff: how many fds, and their names with colons between them.
pub proof fn a_handoff_is_two_variables(names: Seq<Seq<char>>)
    ensures
        handoff_env(names) == seq![
            ("LISTEN_FDS"@, decimal(names.len())),
            ("LISTEN_FDNAMES"@, joined(names, ":"@)),
        ],
{
}

/// What is refused of a handoff as a whole: a count that is none, another process's, no names,
/// names that are no text, and a count that is not that of the names. Without a count nothing
/// was handed over.
pub proof fn a_bad_handoff_is_refused(fds: String, pid: String, names: String, ours: u32, n: nat)
    requires
        fds@ == decimal(n),
    ensures
        ({
            let none = Seq::<(Seq<char>, i32)>::empty();
            let count = Var::Text(fds);
            let list = Var::Text(names);
            &&& handed(Var::Unset, Var::Text(pid), list, ours) == (none, None::<Seq<char>>)
            &&& n == 0 || n > 1024 ==> handed(count, Var::Unset, list, ours) == (
                none,
                Some("LISTEN_FDS"@ + "="@ + quoted(fds@) + " is not a count"@),
            )
            &&& 1 <= n <= 1024 && unsigned(pid@, u32::MAX as nat) != Some(ours as nat) ==> handed(
                count,
                Var::Text(pid),
                list,
                ours,
            ) == (
                none,
                Some(
                    "LISTEN_PID"@ + "="@ + quoted(pid@) + " but we are pid "@ + decimal(
                        ours as nat,
                    ) + ": these fds are not ours"@,
                ),
            )
            &&& 1 <= n <= 1024 ==> handed(count, Var::Unset, Var::Unset, ours) == (
                none,
                Some(
                    "LISTEN_FDS"@ + " without "@ + "LISTEN_FDNAMES"@
                        + ": unnamed fds are refused"@,
                ),
            )
            &&& 1 <= n <= 1024 ==> handed(count, Var::Unset, Var::Other(names), ours) == (
                none,
                Some("LISTEN_FDNAMES"@ + " is not UTF-8"@),
            )
            &&& 1 <= n <= 1024 && pieces(names@, ':').len() != n ==> handed(
                count,
                Var::Unset,
                list,
                ours,
            ) == (
                none,
                Some(
                    decimal(pieces(names@, ':').len()) + " names for "@ + decimal(n) + " fds"@,
                ),
            )
            &&& 1 <= n <= 1024 && pieces(names@, ':').len() == n && (unsigned(
                pid@,
                u32::MAX as nat,
            ) == Some(ours as nat)) ==> handed(count, Var::Text(pid), list, ours) == numbered(
                pieces(names@, ':'),
            ) && handed(count, Var::Unset, list, ours) == numbered(pieces(names@, ':'))
        }),
{
    crate::text::lemma_decimal_digits(n);
    if n <= 1024 {
        crate::text::decimal_reads_back(n, 1024);
    }
    let d = decimal(n);
    assert(crate::text::is_digit(d[0]));
    assert(crate::text::unsigned_digits(d) == d);
}

/// The names of a handoff are taken in order from fd 3 up, until one that is empty or that came
/// before.
pub proof fn names_are_taken_from_three(names: Seq<Seq<char>>, i: int)
    requires
        names.len() <= 1024,
        0 <= i < names.len(),
        forall|a: int, b: int| 0 <= a < b < i ==> #[trigger] names[a] != #[trigger] names[b],
        forall|a: int| 0 <= a < i ==> (#[trigger] names[a]).len() > 0,
    ensures
        ({
            let (taken, wrong) = numbered(names.take(i + 1));
            let fd = (3 + i) as i32;
            let twice = exists|a: int| 0 <= a < i && #[trigger] names[a] == names[i];
            &&& names[i].len() > 0 && !twice ==> wrong is None && taken.len() == i + 1
                && taken.last() == (names[i], fd)
            &&& names[i].len() == 0 ==> wrong == Some(
                "fd "@ + decimal(fd as nat) + " has no name"@,
            ) && taken.len() == i
            &&& names[i].len() > 0 && twice ==> wrong == Some("two fds named "@ + quoted(names[i]))
                && taken.len() == i + 1
        }),
    decreases i,
{
    let now = names.take(i + 1);
    let front = names.take(i);
    assert(now.drop_last() =~= front);
    assert(now.last() == names[i]);
    if i > 0 {
        names_are_taken_from_three(names, i - 1);
        assert(names.take(i - 1 + 1) =~= front);
        assert(!(exists|a: int| 0 <= a < i - 1 && #[trigger] names[a] == names[i - 1])) by {
            if exists|a: int| 0 <= a < i - 1 && #[trigger] names[a] == names[i - 1] {
                let a = choose|a: int| 0 <= a < i - 1 && #[trigger] names[a] == names[i - 1];
                assert(names[a] != names[i - 1]);
            }
        }
    } else {
        assert(front.len() == 0);
        assert(numbered(front) == (Seq::<(Seq<char>, i32)>::empty(), None::<Seq<char>>));
    }
    if front.contains(names[i]) {
        let a = choose|a: int| 0 <= a < front.len() && front[a] == names[i];
        assert(names[a] == names[i]);
    }
    if exists|a: int| 0 <= a < i && #[trigger] names[a] == names[i] {
        let a = choose|a: int| 0 <= a < i && #[trigger] names[a] == names[i];
        assert(front[a] == names[i]);
    }
}

/// A name can be handed over where it is not empty, has no colon and did not come before; the
/// first that cannot is told.
pub proof fn the_first_bad_name_is_told(names: Seq<Seq<char>>, name: Seq<char>)
    ensures
        name_fault(Seq::empty()) is None,
        name_fault(names) is Some ==> name_fault(names.push(name)) == name_fault(names),
        name_fault(names) is None && (name.len() == 0 || name.contains(':')) ==> name_fault(
            names.push(name),
        ) == Some("bad fd name "@ + quoted(name)),
        name_fault(names) is None && name.len() > 0 && !name.contains(':') && names.contains(name)
            ==> name_fault(names.push(name)) == Some(
            "fd name "@ + quoted(name) + " given twice"@,
        ),
        name_fault(names) is None && name.len() > 0 && !name.contains(':') && !names.contains(name)
            ==> name_fault(names.push(name)) is None,
{
    assert(names.push(name).drop_last() =~= names);
}

/// A socket is what it is expected to be: a unix one, of that kind, and one that listens or one
/// that does not; else the first of these that fails is told.
pub proof fn sockets_are_what_is_expected(
    name: Seq<char>,
    probe: Probe,
    kind: u32,
    listening: bool,
)
    ensures
        ({
            let fault = socket_fault(name, probe, Some(kind), listening);
            let unix = probe.domain is Ok && probe.domain->Ok_0 == 1;
            let same = probe.socket_type is Ok && probe.socket_type->Ok_0 == kind;
            &&& fault is None <==> unix && same && probe.accepting is Ok && probe.accepting->Ok_0
                == listening
            &&& probe.domain is Err ==> fault == Some(
                name + ": SO_DOMAIN: "@ + probe.domain->Err_0@,
            )
            &&& probe.domain is Ok && !unix ==> fault == Some(name + " is not a unix socket"@)
            &&& unix && probe.socket_type is Err ==> fault == Some(
                name + ": SO_TYPE: "@ + probe.socket_type->Err_0@,
            )
            &&& unix && probe.socket_type is Ok && !same ==> fault == Some(
                name + " is a SocketType("@ + decimal(probe.socket_type->Ok_0 as nat)
                    + ") socket, expected SocketType("@ + decimal(kind as nat) + ")"@,
            )
            &&& unix && same && probe.accepting is Err ==> fault == Some(
                name + ": SO_ACCEPTCONN: "@ + probe.accepting->Err_0@,
            )
            &&& unix && same && probe.accepting == Ok::<bool, String>(false) && listening ==> fault
                == Some(name + " is not listening"@)
            &&& unix && same && probe.accepting == Ok::<bool, String>(true) && !listening ==> fault
                == Some(name + " is a listening socket, expected a connection"@)
        }),
        Kind::Stream.spec_socket_type() == 1,
        Kind::SeqPacket.spec_socket_type() == 5,
{
}

/// An fd that is taken is held no longer, and is given out only where it is what it is expected
/// to be; a name that is not held is refused, and nothing changes.
pub proof fn an_fd_is_taken_once(
    before: Fds,
    after: Fds,
    name: Seq<char>,
    kind: Kind,
    listening: bool,
    r: Result<i32, String>,
    i: int,
)
    requires
        before.wf(),
        taken_as(before, after, name, kind, listening, r),
    ensures
        0 <= i < before.held@.len() && before.held@[i].name@ == name ==> {
            let h = before.held@[i];
            let fault = socket_fault(name, h.probe, Some(kind.spec_socket_type()), listening);
            &&& after.held@ == before.held@.remove(i)
            &&& fault is None ==> r == Ok::<i32, String>(h.fd)
            &&& fault is Some ==> r is Err && r->Err_0@ == fault->0
        },
        (forall|k: int| 0 <= k < before.held@.len() ==> (#[trigger] before.held@[k]).name@ != name)
            ==> after.held@ == before.held@ && r is Err && r->Err_0@ == "no fd named "@ + quoted(
            name,
        ) + " was handed to us (we run under drv-supervisor)"@,
{
    if 0 <= i < before.held@.len() && before.held@[i].name@ == name {
        assert(before.at(name, i));
        let k = choose|k: int| #[trigger]
            before.at(name, k) && after.held@ == before.held@.remove(k) && match r {
                Ok(fd) => fd == before.held@[k].fd && socket_fault(
                    name,
                    before.held@[k].probe,
                    Some(kind.spec_socket_type()),
                    listening,
                ) is None,
                Err(e) => socket_fault(
                    name,
                    before.held@[k].probe,
                    Some(kind.spec_socket_type()),
                    listening,
                ) == Some(e@),
            };
        if k < i {
            assert(before.held@[k].name@ != before.held@[i].name@);
        } else if i < k {
            assert(before.held@[i].name@ != before.held@[k].name@);
        }
    }
    if forall|k: int| 0 <= k < before.held@.len() ==> (#[trigger] before.held@[k]).name@ != name {
        if before.has(name) {
            let k = choose|k: int| #[trigger] before.at(name, k);
            assert(before.held@[k].name@ == name);
        }
    }
}

/// What is read of a list of lines is what follows the prefix in the first that has it.
pub proof fn the_first_line_counts(
    list: Seq<Seq<char>>,
    prefix: Seq<char>,
    rest: Seq<char>,
    i: int,
)
    requires
        0 <= i <= list.len(),
        i < list.len() ==> list[i] == prefix + rest,
        forall|j: int| 0 <= j < i ==> !prefix.is_prefix_of(#[trigger] list[j]),
    ensures
        i < list.len() ==> first_after(list, prefix) == Some(rest),
        i == list.len() ==> first_after(list, prefix) is None,
    decreases list.len(),
{
    if i < list.len() {
        assert((prefix + rest).subrange(0, prefix.len() as int) =~= prefix);
        assert((prefix + rest).skip(prefix.len() as int) =~= rest);
    }
    if i > 0 {
        assert(!prefix.is_prefix_of(list[0]));
        let more = list.skip(1);
        if i < list.len() {
            assert(more[i - 1] == list[i]);
        }
        assert forall|j: int| 0 <= j < i - 1 implies !prefix.is_prefix_of(#[trigger] more[j]) by {
            assert(more[j] == list[j + 1]);
        }
        the_first_line_counts(more, prefix, rest, i - 1);
    }
}

/// Slashes go from the front, all of them and nothing else.
pub proof fn slashes_go_from_the_front(s: Seq<char>)
    ensures
        without_slashes(seq!['/'] + s) == without_slashes(s),
        s.len() > 0 && s[0] != '/' ==> without_slashes(s) == s,
        without_slashes(Seq::empty()) == Seq::<char>::empty(),
{
    assert((seq!['/'] + s).skip(1) =~= s);
}

/// A number in octal has the digits of its eighths and then the rest.
pub proof fn octal_goes_by_eights(n: nat, d: nat)
    requires
        d < 8,
    ensures
        octal(d) == seq![(48 + d) as char],
        n > 0 ==> octal(8 * n + d) == octal(n).push((48 + d) as char),
{
    if n > 0 {
        assert((8 * n + d) / 8 == n && (8 * n + d) % 8 == d);
    }
}

/// A directory is as it should be where it is one, of that user and group, with just those
/// permissions; else what is wrong with it is told.
pub proof fn a_directory_is_as_it_should_be(
    path: Seq<char>,
    err: String,
    dir: bool,
    u: u32,
    g: u32,
    m: u32,
    uid: u32,
    gid: u32,
    mode: u32,
)
    ensures
        dir_fault(path, Status::Missing(err), uid, gid, mode) == Some(
            path + ": "@ + err@ + " (a tmpfiles rule makes it)"@,
        ),
        ({
            let fault = dir_fault(path, Status::Found { dir, uid: u, gid: g, mode: m }, uid, gid, mode);
            let p = m & 0xfff;
            &&& fault is None <==> dir && u == uid && g == gid && p == mode
            &&& !dir ==> fault == Some(path + ": not a directory"@)
            &&& dir && !(u == uid && g == gid && p == mode) ==> fault == Some(
                path + ": "@ + decimal(u as nat) + ":"@ + decimal(g as nat) + " mode "@ + octal(
                    p as nat,
                ) + ", wanted "@ + decimal(uid as nat) + ":"@ + decimal(gid as nat) + " mode "@
                    + octal(mode as nat) + " (a tmpfiles rule makes it)"@,
            )
        }),
{
    assert(m & 0xfff == m % 4096) by (bit_vector);
}

/// A name is looked up only where it holds no NUL; what was found is no fault, and what was not
/// is told as unknown or as failed.
pub proof fn names_are_looked_up<T>(
    name: Seq<char>,
    bad: Seq<char>,
    call: Seq<char>,
    none: Seq<char>,
    t: T,
    err: String,
)
    ensures
        name.contains('\0') ==> entry_fault(name, bad, call, none, Entry::Found(t)) == Some(
            bad + quoted(name),
        ),
        !name.contains('\0') ==> entry_fault(name, bad, call, none, Entry::Found(t)) is None,
        !name.contains('\0') ==> entry_fault(name, bad, call, none, Entry::<T>::Unknown) == Some(
            none + quoted(name),
        ),
        !name.contains('\0') ==> entry_fault(name, bad, call, none, Entry::<T>::Failed(err))
            == Some(call + quoted(name) + ": "@ + err@),
{
}

/// The pid in an fdinfo is the number behind "Pid:", where it is more than 0.
pub proof fn the_pid_is_behind_its_name(text: Seq<char>)
    ensures
        ({
            let rest = first_after(lines(text), "Pid:"@);
            let n = unsigned(trimmed(rest->0), i64::MAX as nat);
            &&& rest is Some && n is Some && n->0 > 0 ==> fdinfo_pid(text) == n
            &&& rest is None || n is None || n->0 == 0 ==> fdinfo_pid(text) is None
        }),
{
}

} // verus!
