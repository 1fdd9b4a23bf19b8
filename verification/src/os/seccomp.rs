//! One allowlist of system calls for the leaves: a baseline every confined daemon needs, plus
//! a few additions per process. Anything else is refused and logged.
use std::collections::BTreeMap;

use vstd::prelude::*;
use vstd::string::*;

pub use super::seccomp_calls::Syscall;
use super::seccomp_calls::{
    accept_calls, accept_calls_list, base_calls, base_calls_list, read_calls, read_calls_list,
    write_calls, write_calls_list,
};
use crate::text::same_text;
use crate::views::{group_views, views};

verus! {

/// Set to `0` it runs a leaf unconfined, for debugging.
pub const DISABLE_ENV: &'static str = "DRV_SECCOMP";

/// Whether a leaf is confined, by the value of that variable.
pub fn enabled(value: Option<&str>) -> (r: bool)
    ensures
        r == (value is None || value->0@ != "0"@),
{
    match value {
        None => true,
        Some(v) => !same_text(v, "0"),
    }
}

pub const FIONBIO: u64 = 0x5421;

pub const FIONREAD: u64 = 0x541b;

pub const TCGETS: u64 = 0x5401;

pub const TCGETS2: u64 = 0x802c542a;

pub const CLONE_THREAD: u64 = 0x10000;

pub const PR_SET_NAME: u64 = 15;

pub const PR_GET_NAME: u64 = 16;

pub const PR_SET_VMA: u64 = 0x53564d41;

pub const PR_SET_NO_NEW_PRIVS: u64 = 38;

pub const AT_EMPTY_PATH: u64 = 0x1000;

pub const AF_UNIX: i32 = 1;

pub const AF_NETLINK: i32 = 16;

/// The type byte of an ioctl request.
pub const IOC_TYPE_MASK: u64 = 0xff00;

/// An unnamed file in a directory.
pub const O_TMPFILE_BIT: u64 = 0o20000000;

/// Opening that could create, truncate or append.
pub const CREATING: u64 = 0o20003100;

/// Opening for anything but reading.
pub const WRITING: u64 = 0o20003103;

/// A condition on one argument of a call: its value, or the bits of it that a mask selects.
#[derive(Clone, Copy, Debug, PartialEq, Eq, Structural)]
pub struct Cond {
    pub arg: u8,
    /// All 64 bits of the argument are compared, not the lower 32.
    pub wide: bool,
    pub mask: Option<u64>,
    pub value: u64,
}

/// The rules of a call: each is a list of conditions that must all hold; one that holds is
/// enough, and no rules at all allow any arguments.
pub type Rules = Seq<Seq<Cond>>;

/// The argument is this value.
pub open spec fn is(arg: u8, value: u64) -> Cond {
    Cond { arg, wide: false, mask: None, value }
}

/// The masked bits of the argument are these.
pub open spec fn masked(arg: u8, mask: u64, value: u64) -> Cond {
    Cond { arg, wide: false, mask: Some(mask), value }
}

/// A call of the allowlist, and its rules.
#[derive(Debug)]
pub struct Entry {
    pub call: Syscall,
    pub rules: Vec<Vec<Cond>>,
}

/// System calls a process may make.
#[derive(Debug)]
pub struct Allowlist {
    /// The machine has the older calls too.
    pub x86_64: bool,
    pub entries: Vec<Entry>,
}

/// The rules under which a call is allowed, by the first entry for it.
pub open spec fn rules_in(entries: Seq<Entry>, call: Syscall) -> Option<Rules>
    decreases entries.len(),
{
    if entries.len() == 0 {
        None
    } else if entries[0].call == call {
        Some(views(entries[0].rules@))
    } else {
        rules_in(entries.skip(1), call)
    }
}

/// `i` is the first entry of a call.
pub open spec fn first_entry(entries: Seq<Entry>, call: Syscall, i: int) -> bool {
    &&& 0 <= i < entries.len()
    &&& entries[i].call == call
    &&& forall|j: int| 0 <= j < i ==> (#[trigger] entries[j]).call != call
}

proof fn lemma_rules_at(entries: Seq<Entry>, call: Syscall, i: int)
    requires
        first_entry(entries, call, i),
    ensures
        rules_in(entries, call) == Some(views(entries[i].rules@)),
    decreases entries.len(),
{
    if i > 0 {
        assert(entries[0].call != call);
        assert(first_entry(entries.skip(1), call, i - 1)) by {
            assert forall|j: int| 0 <= j < i - 1 implies (#[trigger] entries.skip(1)[j]).call
                != call by {
                assert(entries.skip(1)[j] == entries[j + 1]);
            }
        }
        lemma_rules_at(entries.skip(1), call, i - 1);
    }
}

proof fn lemma_rules_absent(entries: Seq<Entry>, call: Syscall)
    requires
        forall|j: int| 0 <= j < entries.len() ==> (#[trigger] entries[j]).call != call,
    ensures
        rules_in(entries, call) is None,
    decreases entries.len(),
{
    if entries.len() > 0 {
        assert(entries[0].call != call);
        assert forall|j: int| 0 <= j < entries.skip(1).len() implies (
        #[trigger] entries.skip(1)[j]).call != call by {
            assert(entries.skip(1)[j] == entries[j + 1]);
        }
        lemma_rules_absent(entries.skip(1), call);
    }
}

proof fn lemma_rules_update(entries: Seq<Entry>, i: int, e: Entry, other: Syscall)
    requires
        0 <= i < entries.len(),
        entries[i].call == e.call,
        other != e.call,
    ensures
        rules_in(entries.update(i, e), other) == rules_in(entries, other),
    decreases entries.len(),
{
    let new = entries.update(i, e);
    if i == 0 {
        assert(new.skip(1) =~= entries.skip(1));
    } else {
        assert(new[0] == entries[0]);
        assert(new.skip(1) =~= entries.skip(1).update(i - 1, e));
        lemma_rules_update(entries.skip(1), i - 1, e, other);
    }
}

proof fn lemma_rules_push(entries: Seq<Entry>, e: Entry, other: Syscall)
    ensures
        rules_in(entries.push(e), other) == match rules_in(entries, other) {
            Some(r) => Some(r),
            None => if other == e.call {
                Some(views(e.rules@))
            } else {
                None
            },
        },
    decreases entries.len(),
{
    let new = entries.push(e);
    if entries.len() == 0 {
        assert(new.skip(1) =~= Seq::empty());
        assert(rules_in(new.skip(1), other) is None);
    } else {
        assert(new[0] == entries[0]);
        assert(new.skip(1) =~= entries.skip(1).push(e));
        lemma_rules_push(entries.skip(1), e, other);
    }
}

/// A call that is allowed with any arguments.
pub open spec fn freely() -> Option<Rules> {
    Some(Seq::<Seq<Cond>>::empty())
}

/// A call that is allowed when `conds` hold too: one that was allowed freely stays so.
pub open spec fn allowed_when(rules: Option<Rules>, conds: Seq<Cond>) -> Option<Rules> {
    match rules {
        None => Some(seq![conds]),
        Some(r) => if r.len() == 0 {
            Some(r)
        } else {
            Some(r.push(conds))
        },
    }
}

/// As above, for one condition.
pub open spec fn allowed_if(rules: Option<Rules>, cond: Cond) -> Option<Rules> {
    allowed_when(rules, seq![cond])
}

/// What is added for one ioctl request.
pub open spec fn ioctl_rule(call: Syscall, rules: Option<Rules>, request: u64) -> Option<Rules> {
    if call == Syscall::Ioctl {
        allowed_if(rules, is(1, request))
    } else {
        rules
    }
}

/// The baseline: what is allowed of a call.
pub open spec fn base_rules(x86_64: bool, pid: u32, call: Syscall) -> Option<Rules> {
    if base_calls(x86_64).contains(call) {
        freely()
    } else {
        match call {
            Syscall::Ioctl => Some(
                seq![
                    seq![is(1, FIONBIO)],
                    seq![is(1, FIONREAD)],
                    seq![is(1, TCGETS)],
                    seq![is(1, TCGETS2)],
                ],
            ),
            Syscall::Clone => Some(
                seq![
                    seq![
                        Cond {
                            arg: 0,
                            wide: true,
                            mask: Some(CLONE_THREAD),
                            value: CLONE_THREAD,
                        },
                    ],
                ],
            ),
            Syscall::Tgkill => Some(seq![seq![is(0, pid as u64)]]),
            Syscall::Prctl => Some(
                seq![
                    seq![is(0, PR_SET_NAME)],
                    seq![is(0, PR_GET_NAME)],
                    seq![is(0, PR_SET_VMA)],
                ],
            ),
            Syscall::Newfstatat => Some(seq![seq![masked(3, AT_EMPTY_PATH, AT_EMPTY_PATH)]]),
            Syscall::Statx => Some(seq![seq![masked(2, AT_EMPTY_PATH, AT_EMPTY_PATH)]]),
            _ => None,
        }
    }
}

/// What reading files by path adds.
pub open spec fn read_rules(x86_64: bool, call: Syscall, rules: Option<Rules>) -> Option<Rules> {
    if read_calls(x86_64).contains(call) {
        freely()
    } else if call == Syscall::Openat {
        allowed_if(rules, masked(2, WRITING, 0))
    } else if x86_64 && call == Syscall::Open {
        allowed_if(rules, masked(1, WRITING, 0))
    } else {
        rules
    }
}

/// What opening existing files for writing adds.
pub open spec fn open_rules(x86_64: bool, call: Syscall, rules: Option<Rules>) -> Option<Rules> {
    let reading = read_rules(x86_64, call, rules);
    if call == Syscall::Openat {
        allowed_if(reading, masked(2, CREATING, 0))
    } else if x86_64 && call == Syscall::Open {
        allowed_if(reading, masked(1, CREATING, 0))
    } else {
        reading
    }
}

/// What writing files by path adds.
pub open spec fn write_rules(x86_64: bool, call: Syscall, rules: Option<Rules>) -> Option<Rules> {
    if write_calls(x86_64).contains(call) {
        freely()
    } else {
        read_rules(x86_64, call, rules)
    }
}

/// What sockets of one family add.
pub open spec fn socket_rules(call: Syscall, rules: Option<Rules>, family: i32) -> Option<Rules> {
    if call == Syscall::Socket {
        allowed_if(rules, is(0, family as u64))
    } else {
        rules
    }
}

/// What connecting to unix sockets adds.
pub open spec fn connect_rules(call: Syscall, rules: Option<Rules>) -> Option<Rules> {
    if call == Syscall::Connect {
        freely()
    } else {
        socket_rules(call, rules, AF_UNIX)
    }
}

/// What a second, stricter filter later takes.
pub open spec fn reseal_rules(call: Syscall, rules: Option<Rules>) -> Option<Rules> {
    if call == Syscall::Seccomp {
        freely()
    } else if call == Syscall::Prctl {
        allowed_if(rules, is(0, PR_SET_NO_NEW_PRIVS))
    } else {
        rules
    }
}

impl Allowlist {
    /// The rules under which a call is allowed; none where it is not.
    pub open spec fn rules(&self, call: Syscall) -> Option<Rules> {
        rules_in(self.entries@, call)
    }

    fn find(&self, call: Syscall) -> (r: Option<usize>)
        ensures
            match r {
                Some(i) => first_entry(self.entries@, call, i as int),
                None => forall|j: int|
                    0 <= j < self.entries@.len() ==> (#[trigger] self.entries@[j]).call != call,
            },
    {
        let mut i: usize = 0;
        while i < self.entries.len()
            invariant
                i <= self.entries@.len(),
                forall|j: int| 0 <= j < i ==> (#[trigger] self.entries@[j]).call != call,
            decreases self.entries@.len() - i,
        {
            if self.entries[i].call == call {
                return Some(i);
            }
            i = i + 1;
        }
        None
    }

    fn allow_one(&mut self, call: Syscall)
        ensures
            final(self).x86_64 == old(self).x86_64,
            forall|c: Syscall| #[trigger]
                final(self).rules(c) == if c == call {
                    freely()
                } else {
                    old(self).rules(c)
                },
    {
        broadcast use group_views;

        let ghost before = self.entries@;
        let entry = Entry { call, rules: Vec::new() };
        let ghost e = entry;
        assert(views(e.rules@) =~= Seq::<Seq<Cond>>::empty());
        match self.find(call) {
            Some(i) => {
                self.entries[i] = entry;
                proof {
                    assert(self.entries@ == before.update(i as int, e));
                    assert(first_entry(self.entries@, call, i as int));
                    lemma_rules_at(self.entries@, call, i as int);
                    assert forall|c: Syscall| #[trigger] self.rules(c) == if c == call {
                        freely()
                    } else {
                        old(self).rules(c)
                    } by {
                        if c != call {
                            lemma_rules_update(before, i as int, e, c);
                        }
                    }
                }
            },
            None => {
                self.entries.push(entry);
                proof {
                    lemma_rules_absent(before, call);
                    assert forall|c: Syscall| #[trigger] self.rules(c) == if c == call {
                        freely()
                    } else {
                        old(self).rules(c)
                    } by {
                        lemma_rules_push(before, e, c);
                    }
                }
            },
        }
    }

    /// Allows these with any arguments (replacing any conditions on them).
    pub fn allow(&mut self, calls: &Vec<Syscall>)
        ensures
            final(self).x86_64 == old(self).x86_64,
            forall|c: Syscall| #[trigger]
                final(self).rules(c) == if calls@.contains(c) {
                    freely()
                } else {
                    old(self).rules(c)
                },
    {
        let mut i: usize = 0;
        assert(calls@.take(0) =~= Seq::<Syscall>::empty());
        while i < calls.len()
            invariant
                i <= calls@.len(),
                self.x86_64 == old(self).x86_64,
                forall|c: Syscall| #[trigger]
                    self.rules(c) == if calls@.take(i as int).contains(c) {
                        freely()
                    } else {
                        old(self).rules(c)
                    },
            decreases calls@.len() - i,
        {
            let ghost before = *self;
            self.allow_one(calls[i]);
            proof {
                assert(calls@.take(i + 1) =~= calls@.take(i as int).push(calls@[i as int]));
                assert forall|c: Syscall| #[trigger] self.rules(c) == if calls@.take(
                    i + 1,
                ).contains(c) {
                    freely()
                } else {
                    old(self).rules(c)
                } by {
                    vstd::seq_lib::lemma_seq_contains_after_push(
                        calls@.take(i as int),
                        calls@[i as int],
                        c,
                    );
                    assert(before.rules(c) == if calls@.take(i as int).contains(c) {
                        freely()
                    } else {
                        old(self).rules(c)
                    });
                }
            }
            i = i + 1;
        }
        assert(calls@.take(i as int) =~= calls@);
    }

    /// Allows a call when `conds` hold (on top of other conditions already allowed for it). A
    /// call already allowed with any arguments stays so; a rule without conditions is refused.
    pub fn allow_when(&mut self, call: Syscall, conds: Vec<Cond>) -> (r: Result<(), String>)
        ensures
            final(self).x86_64 == old(self).x86_64,
            match r {
                Ok(_) => forall|c: Syscall| #[trigger]
                    final(self).rules(c) == if c == call {
                        allowed_when(old(self).rules(c), conds@)
                    } else {
                        old(self).rules(c)
                    },
                Err(e) => {
                    &&& *final(self) == *old(self)
                    &&& e@ == "seccomp: The condition vector of a rule cannot be empty."@
                },
            },
            r is Ok <==> conds@.len() > 0 || old(self).rules(call) == freely(),
    {
        broadcast use group_views;

        let ghost before = self.entries@;
        match self.find(call) {
            Some(i) => {
                proof {
                    lemma_rules_at(before, call, i as int);
                }
                if self.entries[i].rules.len() == 0 {
                    assert(views(before[i as int].rules@) =~= Seq::<Seq<Cond>>::empty());
                    return Ok(());
                }
                assert(views(before[i as int].rules@).len() > 0);
                if conds.len() == 0 {
                    return Err(
                        "seccomp: The condition vector of a rule cannot be empty.".to_owned(),
                    );
                }
                let old_entry = self.entries.remove(i);
                let mut rules = old_entry.rules;
                rules.push(conds);
                let entry = Entry { call, rules };
                let ghost e = entry;
                self.entries.insert(i, entry);
                proof {
                    assert(self.entries@ =~= before.update(i as int, e));
                    assert(first_entry(self.entries@, call, i as int)) by {
                        assert forall|j: int| 0 <= j < i implies (#[trigger] self.entries@[j]).call
                            != call by {
                            assert(before[j].call != call);
                        }
                    }
                    lemma_rules_at(self.entries@, call, i as int);
                    assert forall|c: Syscall| #[trigger] self.rules(c) == if c == call {
                        allowed_when(old(self).rules(c), conds@)
                    } else {
                        old(self).rules(c)
                    } by {
                        if c != call {
                            lemma_rules_update(before, i as int, e, c);
                        }
                    }
                }
                Ok(())
            },
            None => {
                proof {
                    lemma_rules_absent(before, call);
                }
                if conds.len() == 0 {
                    return Err(
                        "seccomp: The condition vector of a rule cannot be empty.".to_owned(),
                    );
                }
                let mut rules: Vec<Vec<Cond>> = Vec::new();
                rules.push(conds);
                assert(views(rules@) =~= seq![conds@]);
                let entry = Entry { call, rules };
                let ghost e = entry;
                self.entries.push(entry);
                proof {
                    assert forall|c: Syscall| #[trigger] self.rules(c) == if c == call {
                        allowed_when(old(self).rules(c), conds@)
                    } else {
                        old(self).rules(c)
                    } by {
                        lemma_rules_push(before, e, c);
                    }
                }
                Ok(())
            },
        }
    }

    fn allow_if(&mut self, call: Syscall, cond: Cond)
        ensures
            final(self).x86_64 == old(self).x86_64,
            forall|c: Syscall| #[trigger]
                final(self).rules(c) == if c == call {
                    allowed_if(old(self).rules(c), cond)
                } else {
                    old(self).rules(c)
                },
    {
        let conds: Vec<Cond> = vec![cond];
        assert(conds@ =~= seq![cond]);
        let _ = self.allow_when(call, conds);
    }

    /// What every leaf needs: talking on the fds it already holds, memory, event loops,
    /// threads (never processes), time, signals to itself, exiting. No open, no socket, no
    /// exec, ioctl only to switch fds nonblocking. `pid` is the leaf's own.
    pub fn base(x86_64: bool, pid: u32) -> (r: Allowlist)
        ensures
            r.x86_64 == x86_64,
            forall|c: Syscall| #[trigger] r.rules(c) == base_rules(x86_64, pid, c),
    {
        let mut list = Allowlist { x86_64, entries: Vec::new() };
        assert forall|c: Syscall| #[trigger] list.rules(c) is None by {
            lemma_rules_absent(list.entries@, c);
        }
        list.allow(&base_calls_list(x86_64));
        list.ioctl(FIONBIO);
        list.ioctl(FIONREAD);
        list.ioctl(TCGETS);
        list.ioctl(TCGETS2);
        list.allow_if(
            Syscall::Clone,
            Cond { arg: 0, wide: true, mask: Some(CLONE_THREAD), value: CLONE_THREAD },
        );
        list.allow_if(
            Syscall::Tgkill,
            Cond { arg: 0, wide: false, mask: None, value: pid as u64 },
        );
        list.allow_if(
            Syscall::Prctl,
            Cond { arg: 0, wide: false, mask: None, value: PR_SET_NAME },
        );
        list.allow_if(
            Syscall::Prctl,
            Cond { arg: 0, wide: false, mask: None, value: PR_GET_NAME },
        );
        list.allow_if(
            Syscall::Prctl,
            Cond { arg: 0, wide: false, mask: None, value: PR_SET_VMA },
        );
        list.allow_if(
            Syscall::Newfstatat,
            Cond { arg: 3, wide: false, mask: Some(AT_EMPTY_PATH), value: AT_EMPTY_PATH },
        );
        list.allow_if(
            Syscall::Statx,
            Cond { arg: 2, wide: false, mask: Some(AT_EMPTY_PATH), value: AT_EMPTY_PATH },
        );
        proof {
            lemma_base_leaves_out(x86_64);
            assert forall|c: Syscall| #[trigger] list.rules(c) == base_rules(x86_64, pid, c) by {
                if !base_calls(x86_64).contains(c) {
                    match base_rules(x86_64, pid, c) {
                        Some(rules) => {
                            assert(list.rules(c)->0 =~= rules);
                        },
                        None => {},
                    }
                }
            }
        }
        list
    }

    /// A listening socket: accepting connections.
    pub fn accept(&mut self)
        ensures
            final(self).x86_64 == old(self).x86_64,
            forall|c: Syscall| #[trigger]
                final(self).rules(c) == if accept_calls(old(self).x86_64).contains(c) {
                    freely()
                } else {
                    old(self).rules(c)
                },
    {
        let calls = accept_calls_list(self.x86_64);
        self.allow(&calls);
    }

    /// One ioctl request.
    pub fn ioctl(&mut self, request: u64)
        ensures
            final(self).x86_64 == old(self).x86_64,
            forall|c: Syscall| #[trigger]
                final(self).rules(c) == ioctl_rule(c, old(self).rules(c), request),
    {
        self.allow_if(
            Syscall::Ioctl,
            Cond { arg: 1, wide: false, mask: None, value: request },
        );
    }

    /// Every ioctl of one type byte (`b'd'` is DRM).
    pub fn ioctl_type(&mut self, ty: u8)
        ensures
            final(self).x86_64 == old(self).x86_64,
            forall|c: Syscall| #[trigger]
                final(self).rules(c) == if c == Syscall::Ioctl {
                    allowed_if(old(self).rules(c), masked(1, IOC_TYPE_MASK, (ty * 256) as u64))
                } else {
                    old(self).rules(c)
                },
    {
        self.allow_if(
            Syscall::Ioctl,
            Cond {
                arg: 1,
                wide: false,
                mask: Some(IOC_TYPE_MASK),
                value: ty as u64 * 256,
            },
        );
    }

    /// Files by path, read-only: opening without write, create, truncate or append, stat,
    /// readlink, access, directory listing.
    pub fn read_files(&mut self)
        ensures
            final(self).x86_64 == old(self).x86_64,
            forall|c: Syscall| #[trigger]
                final(self).rules(c) == read_rules(old(self).x86_64, c, old(self).rules(c)),
    {
        proof {
            lemma_read_leaves_out(self.x86_64);
        }
        self.allow_if(
            Syscall::Openat,
            Cond { arg: 2, wide: false, mask: Some(WRITING), value: 0 },
        );
        let calls = read_calls_list(self.x86_64);
        self.allow(&calls);
        if self.x86_64 {
            self.allow_if(
                Syscall::Open,
                Cond { arg: 1, wide: false, mask: Some(WRITING), value: 0 },
            );
        }
    }

    /// Existing files by path, read or write, never creating, truncating or appending: device
    /// nodes and ttys, on top of [`Self::read_files`].
    pub fn open_existing(&mut self)
        ensures
            final(self).x86_64 == old(self).x86_64,
            forall|c: Syscall| #[trigger]
                final(self).rules(c) == open_rules(old(self).x86_64, c, old(self).rules(c)),
    {
        self.read_files();
        self.allow_if(
            Syscall::Openat,
            Cond { arg: 2, wide: false, mask: Some(CREATING), value: 0 },
        );
        if self.x86_64 {
            self.allow_if(
                Syscall::Open,
                Cond { arg: 1, wide: false, mask: Some(CREATING), value: 0 },
            );
        }
    }

    /// Anonymous files, never linked into a directory.
    pub fn anonymous_files(&mut self)
        ensures
            final(self).x86_64 == old(self).x86_64,
            forall|c: Syscall| #[trigger]
                final(self).rules(c) == if c == Syscall::Openat {
                    allowed_if(old(self).rules(c), masked(2, O_TMPFILE_BIT, O_TMPFILE_BIT))
                } else {
                    old(self).rules(c)
                },
    {
        self.allow_if(
            Syscall::Openat,
            Cond { arg: 2, wide: false, mask: Some(O_TMPFILE_BIT), value: O_TMPFILE_BIT },
        );
    }

    /// Installing another, stricter filter later (a process that seals in two steps).
    pub fn reseal(&mut self)
        ensures
            final(self).x86_64 == old(self).x86_64,
            forall|c: Syscall| #[trigger]
                final(self).rules(c) == reseal_rules(c, old(self).rules(c)),
    {
        self.allow_one(Syscall::Seccomp);
        self.allow_if(
            Syscall::Prctl,
            Cond { arg: 0, wide: false, mask: None, value: PR_SET_NO_NEW_PRIVS },
        );
    }

    /// Making sockets of one address family.
    pub fn socket(&mut self, family: i32)
        ensures
            final(self).x86_64 == old(self).x86_64,
            forall|c: Syscall| #[trigger]
                final(self).rules(c) == socket_rules(c, old(self).rules(c), family),
    {
        #[verifier::truncate]
        let value: u64 = family as u64;
        self.allow_if(Syscall::Socket, Cond { arg: 0, wide: false, mask: None, value });
    }

    /// Connecting to Unix sockets by path (nothing over the network).
    pub fn connect_unix(&mut self)
        ensures
            final(self).x86_64 == old(self).x86_64,
            forall|c: Syscall| #[trigger]
                final(self).rules(c) == connect_rules(c, old(self).rules(c)),
    {
        self.socket(AF_UNIX);
        self.allow_one(Syscall::Connect);
    }

    /// Files by path, read-write: a daemon's own state directory, on top of
    /// [`Self::read_files`].
    pub fn write_files(&mut self)
        ensures
            final(self).x86_64 == old(self).x86_64,
            forall|c: Syscall| #[trigger]
                final(self).rules(c) == write_rules(old(self).x86_64, c, old(self).rules(c)),
    {
        self.read_files();
        let calls = write_calls_list(self.x86_64);
        self.allow(&calls);
    }
}

/// The calls that the baseline allows under conditions are not among those it allows freely.
proof fn lemma_base_leaves_out(x86_64: bool)
    ensures
        !base_calls(x86_64).contains(Syscall::Ioctl),
        !base_calls(x86_64).contains(Syscall::Clone),
        !base_calls(x86_64).contains(Syscall::Tgkill),
        !base_calls(x86_64).contains(Syscall::Prctl),
        !base_calls(x86_64).contains(Syscall::Newfstatat),
        !base_calls(x86_64).contains(Syscall::Statx),
        !base_calls(x86_64).contains(Syscall::Openat),
        !base_calls(x86_64).contains(Syscall::Open),
        !base_calls(x86_64).contains(Syscall::Socket),
        !base_calls(x86_64).contains(Syscall::Connect),
{
}

proof fn lemma_read_leaves_out(x86_64: bool)
    ensures
        !read_calls(x86_64).contains(Syscall::Openat),
        !read_calls(x86_64).contains(Syscall::Open),
{
}

/// What is allowed freely stays so, whatever conditions are added.
pub proof fn free_stays_free(conds: Seq<Cond>)
    ensures
        allowed_when(freely(), conds) == freely(),
{
}

/// The baseline opens no file, makes no socket and connects nowhere, and starts threads only.
pub proof fn the_baseline_opens_nothing(x86_64: bool, pid: u32)
    ensures
        base_rules(x86_64, pid, Syscall::Openat) is None,
        base_rules(x86_64, pid, Syscall::Open) is None,
        base_rules(x86_64, pid, Syscall::Socket) is None,
        base_rules(x86_64, pid, Syscall::Connect) is None,
        base_rules(x86_64, pid, Syscall::Fork) is None,
        base_rules(x86_64, pid, Syscall::Clone) == Some(
            seq![
                seq![Cond { arg: 0u8, wide: true, mask: Some(CLONE_THREAD), value: CLONE_THREAD }],
            ],
        ),
{
    lemma_base_leaves_out(x86_64);
    assert(!base_calls(x86_64).contains(Syscall::Fork));
}

/// A leaf that may read files may open them for nothing else.
pub proof fn reading_opens_for_reading_only(x86_64: bool, pid: u32)
    ensures
        read_rules(x86_64, Syscall::Openat, base_rules(x86_64, pid, Syscall::Openat)) == Some(
            seq![seq![masked(2, WRITING, 0)]],
        ),
        read_rules(x86_64, Syscall::Open, base_rules(x86_64, pid, Syscall::Open)) == if x86_64 {
            Some(seq![seq![masked(1, WRITING, 0)]])
        } else {
            None
        },
{
    lemma_base_leaves_out(x86_64);
    lemma_read_leaves_out(x86_64);
}

/// The machine a filter is for.
#[derive(Clone, Copy, Debug, PartialEq, Eq, Structural)]
pub enum Arch {
    X86_64,
    Aarch64,
}

/// What becomes of a call.
#[derive(Clone, Copy, Debug, PartialEq, Eq, Structural)]
pub enum Action {
    Allow,
    /// A signal to the process.
    Trap,
    Errno(u32),
}

/// An instruction of a filter: its code, the two jumps, and its operand.
pub type Insn = (u16, u8, u8, u32);

/// A rule of the seccompiler crate.
#[verifier::external_type_specification]
#[verifier::external_body]
pub struct ExSeccompRule(seccompiler::SeccompRule);

/// The conditions a rule holds, in order.
pub uninterp spec fn rule_holds(rule: seccompiler::SeccompRule) -> Seq<Cond>;

/// The last argument of a call that a condition can be about.
pub const MAX_ARG: u8 = 5;

/// Conditions on arguments that there are.
pub open spec fn sound_args(conds: Seq<Cond>) -> bool {
    forall|i: int| 0 <= i < conds.len() ==> (#[trigger] conds[i]).arg <= MAX_ARG
}

/// What is wrong with the conditions of a rule.
pub open spec fn conds_fault(conds: Seq<Cond>) -> Option<Seq<char>> {
    if !sound_args(conds) {
        Some("The seccomp rule contains an invalid argument index. Maximum index value: 5"@)
    } else if conds.len() == 0 {
        Some("The condition vector of a rule cannot be empty."@)
    } else {
        None
    }
}

/// `SeccompCondition::new` and `SeccompRule::new` of the seccompiler crate: a rule holds the
/// conditions it is made of; one about an argument beyond the last, and one without conditions,
/// are refused.
#[verifier::external_body]
fn rule_of(conds: &Vec<Cond>) -> (r: Result<seccompiler::SeccompRule, String>)
    ensures
        match r {
            Ok(rule) => conds_fault(conds@) is None && rule_holds(rule) == conds@,
            Err(e) => conds_fault(conds@) == Some(e@),
        },
{
    let made: Result<Vec<_>, _> = conds.iter().map(|c| seccompiler::SeccompCondition::new(
        c.arg,
        if c.wide { seccompiler::SeccompCmpArgLen::Qword } else { seccompiler::SeccompCmpArgLen::Dword },
        match c.mask {
            Some(mask) => seccompiler::SeccompCmpOp::MaskedEq(mask),
            None => seccompiler::SeccompCmpOp::Eq,
        },
        c.value,
    )).collect();
    made.and_then(seccompiler::SeccompRule::new).map_err(|e| e.to_string())
}

/// The program of a filter, or why there is none.
pub uninterp spec fn filter_program(
    rules: Map<i64, Seq<Seq<Cond>>>,
    mismatch: Action,
    matched: Action,
    arch: Arch,
) -> Result<Seq<Insn>, Seq<char>>;

/// The conditions that the rules of each call hold.
pub open spec fn held(map: Map<i64, Vec<seccompiler::SeccompRule>>) -> Map<i64, Seq<Seq<Cond>>> {
    map.map_values(
        |rules: Vec<seccompiler::SeccompRule>|
            rules@.map_values(|rule: seccompiler::SeccompRule| rule_holds(rule)),
    )
}

/// `SeccompFilter::new` of the seccompiler crate and its compilation into a `BpfProgram`: the
/// program depends on the rules, the two actions and the machine alone; equal actions are
/// refused, and a program is never longer than the kernel takes. A call's number is an
/// unsigned 32-bit one.
#[verifier::external_body]
fn compile(
    map: BTreeMap<i64, Vec<seccompiler::SeccompRule>>,
    mismatch: Action,
    matched: Action,
    arch: Arch,
) -> (r: Result<Vec<Insn>, String>)
    requires
        forall|nr: i64| #[trigger] map@.contains_key(nr) ==> 0 <= nr <= u32::MAX,
    ensures
        match r {
            Ok(program) => filter_program(held(map@), mismatch, matched, arch) == Ok::<
                Seq<Insn>,
                Seq<char>,
            >(program@) && mismatch != matched && program@.len() < 4096,
            Err(e) => filter_program(held(map@), mismatch, matched, arch) == Err::<
                Seq<Insn>,
                Seq<char>,
            >(e@),
        },
{
    let act = |a: Action| match a {
        Action::Allow => seccompiler::SeccompAction::Allow,
        Action::Trap => seccompiler::SeccompAction::Trap,
        Action::Errno(n) => seccompiler::SeccompAction::Errno(n),
    };
    let arch = match arch {
        Arch::X86_64 => seccompiler::TargetArch::x86_64,
        Arch::Aarch64 => seccompiler::TargetArch::aarch64,
    };
    let filter = seccompiler::SeccompFilter::new(map, act(mismatch), act(matched), arch);
    let program: Result<seccompiler::BpfProgram, _> = filter.and_then(|f| f.try_into());
    program.map(|p| p.into_iter().map(|i| (i.code, i.jt, i.jf, i.k)).collect()).map_err(|e| e.to_string())
}

/// The rules of a call, by its number.
pub type Numbered = (i64, Vec<Vec<Cond>>);

/// Numbered rules as a map: what comes last for a number stands.
pub open spec fn numbered_map(rules: Seq<Numbered>) -> Map<i64, Seq<Seq<Cond>>>
    decreases rules.len(),
{
    if rules.len() == 0 {
        Map::empty()
    } else {
        numbered_map(rules.drop_last()).insert(rules.last().0, views(rules.last().1@))
    }
}

/// No rule is refused.
pub open spec fn sound_rules(rules: Seq<Numbered>) -> bool {
    forall|i: int, j: int|
        0 <= i < rules.len() && 0 <= j < rules[i].1@.len() ==> conds_fault(
            (#[trigger] rules[i].1@[j])@,
        ) is None
}

/// Rule `j` of row `i` is the first that is refused.
pub open spec fn first_fault(rules: Seq<Numbered>, i: int, j: int) -> bool {
    &&& 0 <= i < rules.len()
    &&& 0 <= j < rules[i].1@.len()
    &&& conds_fault(rules[i].1@[j]@) is Some
    &&& forall|a: int, b: int|
        0 <= a < rules.len() && 0 <= b < rules[a].1@.len() && (a < i || (a == i && b < j))
            ==> conds_fault((#[trigger] rules[a].1@[b])@) is None
}

fn prefixed(e: String) -> (r: String)
    ensures
        r@ == "seccomp: "@ + e@,
{
    let mut text = "seccomp: ".to_owned();
    text.append(e.as_str());
    text
}

fn put_rules(
    map: &mut BTreeMap<i64, Vec<seccompiler::SeccompRule>>,
    nr: i64,
    chain: Vec<seccompiler::SeccompRule>,
)
    ensures
        final(map)@ == old(map)@.insert(nr, chain),
{
    broadcast use vstd::laws_cmp::group_laws_cmp;

    let _ = map.insert(nr, chain);
}

/// What compiling a filter comes to: its program, or the first fault of its rules, or why the
/// filter is refused.
pub open spec fn compiles_to(
    rules: Seq<Numbered>,
    mismatch: Action,
    matched: Action,
    arch: Arch,
    r: Result<Vec<Insn>, String>,
) -> bool {
    match r {
        Ok(program) => {
            &&& sound_rules(rules)
            &&& filter_program(numbered_map(rules), mismatch, matched, arch) == Ok::<
                Seq<Insn>,
                Seq<char>,
            >(program@)
            &&& mismatch != matched
        },
        Err(e) => {
            ||| sound_rules(rules) && exists|text: Seq<char>|
                e@ == "seccomp: "@ + text && #[trigger] filter_program(
                    numbered_map(rules),
                    mismatch,
                    matched,
                    arch,
                ) == Err::<Seq<Insn>, Seq<char>>(text)
            ||| exists|i: int, j: int| #[trigger]
                first_fault(rules, i, j) && e@ == "seccomp: "@ + conds_fault(rules[i].1@[j]@)->0
        },
    }
}

/// The program of a filter that does `matched` with the calls of `rules`, where their
/// conditions hold, and `mismatch` with all others.
pub fn program(rules: &Vec<Numbered>, mismatch: Action, matched: Action, arch: Arch) -> (r: Result<
    Vec<Insn>,
    String,
>)
    requires
        forall|i: int| 0 <= i < rules@.len() ==> 0 <= (#[trigger] rules@[i]).0 <= u32::MAX,
    ensures
        compiles_to(rules@, mismatch, matched, arch, r),
{
    broadcast use group_views;

    let mut map: BTreeMap<i64, Vec<seccompiler::SeccompRule>> = BTreeMap::new();
    assert(held(map@) =~= numbered_map(rules@.take(0)));
    let mut i: usize = 0;
    while i < rules.len()
        invariant
            i <= rules@.len(),
            forall|k: int| 0 <= k < rules@.len() ==> 0 <= (#[trigger] rules@[k]).0 <= u32::MAX,
            forall|nr: i64| #[trigger] map@.contains_key(nr) ==> 0 <= nr <= u32::MAX,
            held(map@) == numbered_map(rules@.take(i as int)),
            forall|a: int, b: int|
                0 <= a < i && 0 <= b < rules@[a].1@.len() ==> conds_fault(
                    (#[trigger] rules@[a].1@[b])@,
                ) is None,
        decreases rules@.len() - i,
    {
        let mut chain: Vec<seccompiler::SeccompRule> = Vec::new();
        let ghost conds = rules@[i as int].1@;
        let n: usize = rules[i].1.len();
        let mut j: usize = 0;
        while j < n
            invariant
                i < rules@.len(),
                j <= n == conds.len(),
                conds == rules@[i as int].1@,
                chain@.len() == j,
                forall|b: int| 0 <= b < j ==> rule_holds(#[trigger] chain@[b]) == conds[b]@,
                forall|a: int, b: int|
                    0 <= a < rules@.len() && 0 <= b < rules@[a].1@.len() && (a < i || (a == i && b
                        < j)) ==> conds_fault((#[trigger] rules@[a].1@[b])@) is None,
            decreases n - j,
        {
            match rule_of(&rules[i].1[j]) {
                Ok(rule) => {
                    chain.push(rule);
                },
                Err(e) => {
                    assert(first_fault(rules@, i as int, j as int));
                    return Err(prefixed(e));
                },
            }
            j = j + 1;
        }
        let nr: i64 = rules[i].0;
        let ghost before = map@;
        let ghost held_chain = chain@.map_values(
            |rule: seccompiler::SeccompRule| rule_holds(rule),
        );
        assert(held_chain =~= views(conds));
        let ghost chain_value = chain;
        put_rules(&mut map, nr, chain);
        proof {
            assert(map@ == before.insert(nr, chain_value));
            assert(held(map@) =~= held(before).insert(nr, held_chain));
            assert(rules@.take(i + 1).drop_last() =~= rules@.take(i as int));
        }
        i = i + 1;
    }
    assert(rules@.take(i as int) =~= rules@);
    match compile(map, mismatch, matched, arch) {
        Ok(program) => Ok(program),
        Err(e) => {
            let r = prefixed(e);
            assert(filter_program(numbered_map(rules@), mismatch, matched, arch) == Err::<
                Seq<Insn>,
                Seq<char>,
            >(e@));
            Err(r)
        },
    }
}

/// `ENOSYS`.
pub const ENOSYS: u32 = 38;

/// The two filters a process is sealed with, in the order they are installed. The C library
/// calls `clone3` with every signal blocked, so a trap there would kill the process: the first
/// filter fails it, and the library falls back to `clone`. The second traps what is not
/// allowed; the kernel applies the strictest verdict.
pub fn filters(rules: &Vec<Numbered>, clone3: i64, arch: Arch) -> (r: Result<
    (Vec<Insn>, Vec<Insn>),
    String,
>)
    requires
        0 <= clone3 <= u32::MAX,
        forall|i: int| 0 <= i < rules@.len() ==> 0 <= (#[trigger] rules@[i]).0 <= u32::MAX,
    ensures
        match r {
            Ok((first, second)) => {
                &&& filter_program(
                    map![clone3 => Seq::<Seq<Cond>>::empty()],
                    Action::Allow,
                    Action::Errno(ENOSYS),
                    arch,
                ) == Ok::<Seq<Insn>, Seq<char>>(first@)
                &&& compiles_to(rules@, Action::Trap, Action::Allow, arch, Ok(second))
            },
            Err(e) => {
                ||| exists|text: Seq<char>|
                    e@ == "seccomp: "@ + text && #[trigger] filter_program(
                        map![clone3 => Seq::<Seq<Cond>>::empty()],
                        Action::Allow,
                        Action::Errno(ENOSYS),
                        arch,
                    ) == Err::<Seq<Insn>, Seq<char>>(text)
                ||| compiles_to(rules@, Action::Trap, Action::Allow, arch, Err(e))
            },
        },
{
    broadcast use group_views;

    let none: Vec<Vec<Cond>> = Vec::new();
    let mut only: Vec<Numbered> = Vec::new();
    only.push((clone3, none));
    proof {
        assert(only@.drop_last() =~= Seq::<Numbered>::empty());
        reveal_with_fuel(numbered_map, 2);
        assert(numbered_map(only@) =~= map![clone3 => Seq::<Seq<Cond>>::empty()]);
    }
    match program(&only, Action::Allow, Action::Errno(ENOSYS), arch) {
        Err(e) => Err(e),
        Ok(first) => match program(rules, Action::Trap, Action::Allow, arch) {
            Err(e) => Err(e),
            Ok(second) => Ok((first, second)),
        },
    }
}

/// The calls of a list, and their rules: what a filter of it is made of.
pub fn entries(list: Allowlist) -> (r: Vec<Entry>)
    ensures
        forall|c: Syscall| rules_in(r@, c) == #[trigger] list.rules(c),
{
    list.entries
}

} // verus!
