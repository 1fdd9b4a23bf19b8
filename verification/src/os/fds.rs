//! Named fds at startup: the one way a process under the supervisor gets its peers.
//! `LISTEN_FDS` fds from 3 up, `LISTEN_FDNAMES` their names, colon-separated, and
//! `LISTEN_PID`, when set, the pid they are for.
use vstd::prelude::*;
use vstd::string::*;

use crate::order::{rearranged, sorted_texts, texts_in_order};
use crate::text::{
    chars_of, decimal, decimal_reads_back, find_char, join, joined, joined_comes_apart, number,
    pieces, quote, quoted, read_unsigned, same_text, split, string_of, unsigned,
};
use crate::views::{group_views, view_opt, views};

verus! {

/// The first passed fd.
pub const FIRST_FD: i32 = 3;

pub const ENV_FDS: &'static str = "LISTEN_FDS";

pub const ENV_NAMES: &'static str = "LISTEN_FDNAMES";

pub const ENV_PID: &'static str = "LISTEN_PID";

/// The pidfd guard; unset with the rest so nothing downstream sees a stale one.
pub const ENV_PIDFDID: &'static str = "LISTEN_PIDFDID";

/// As many fds as a handoff may have.
pub const MAX_HANDED: u64 = 1024;

/// What a connected socket carries: one message per datagram, or a byte stream.
#[derive(Clone, Copy, Debug, PartialEq, Eq, Structural)]
pub enum Kind {
    Stream,
    SeqPacket,
}

/// `AF_UNIX`.
pub const AF_UNIX: u32 = 1;

/// `SOCK_STREAM`.
pub const SOCK_STREAM: u32 = 1;

/// `SOCK_SEQPACKET`.
pub const SOCK_SEQPACKET: u32 = 5;

impl Kind {
    pub open spec fn spec_socket_type(self) -> u32 {
        match self {
            Kind::Stream => SOCK_STREAM,
            Kind::SeqPacket => SOCK_SEQPACKET,
        }
    }

    /// The kernel's number for it.
    pub fn socket_type(self) -> (r: u32)
        ensures
            r == self.spec_socket_type(),
    {
        match self {
            Kind::Stream => SOCK_STREAM,
            Kind::SeqPacket => SOCK_SEQPACKET,
        }
    }
}

/// A variable of the environment.
#[derive(Debug)]
pub enum Var {
    Unset,
    Text(String),
    /// Not UTF-8, by the form in which an error shows it.
    Other(String),
}

impl Var {
    /// How an error shows it.
    pub open spec fn shown(self) -> Seq<char> {
        match self {
            Var::Unset => Seq::empty(),
            Var::Text(s) => quoted(s@),
            Var::Other(s) => s@,
        }
    }

    fn show(&self) -> (r: String)
        ensures
            r@ == self.shown(),
    {
        match self {
            Var::Unset => String::new(),
            Var::Text(s) => quote(s.as_str()),
            Var::Other(s) => s.clone(),
        }
    }

    /// The number it writes, up to `max`.
    pub open spec fn unsigned(self, max: nat) -> Option<nat> {
        match self {
            Var::Text(s) => unsigned(s@, max),
            _ => None,
        }
    }

    fn read(&self, max: u64) -> (r: Option<u64>)
        ensures
            match r {
                Some(n) => self.unsigned(max as nat) == Some(n as nat),
                None => self.unsigned(max as nat) is None,
            },
    {
        match self {
            Var::Text(s) => read_unsigned(&chars_of(s.as_str()), max),
            _ => None,
        }
    }
}

/// The fds that are taken by name and number, in order, and what is wrong with the handoff
/// once they are taken.
pub open spec fn numbered(names: Seq<Seq<char>>) -> (Seq<(Seq<char>, i32)>, Option<Seq<char>>)
    decreases names.len(),
{
    if names.len() == 0 {
        (Seq::empty(), None)
    } else {
        let (taken, wrong) = numbered(names.drop_last());
        let fd = (FIRST_FD + names.len() - 1) as i32;
        if wrong is Some {
            (taken, wrong)
        } else if names.last().len() == 0 {
            (taken, Some("fd "@ + decimal(fd as nat) + " has no name"@))
        } else if names.drop_last().contains(names.last()) {
            (taken.push((names.last(), fd)), Some("two fds named "@ + quoted(names.last())))
        } else {
            (taken.push((names.last(), fd)), None)
        }
    }
}

/// What a process takes of the handoff its environment describes.
pub open spec fn handed(fds: Var, pid: Var, names: Var, ours: u32) -> (
    Seq<(Seq<char>, i32)>,
    Option<Seq<char>>,
) {
    let none = Seq::<(Seq<char>, i32)>::empty();
    if fds is Unset {
        (none, None)
    } else if !(fds.unsigned(MAX_HANDED as nat) is Some && fds.unsigned(MAX_HANDED as nat)->0
        >= 1) {
        (none, Some(ENV_FDS@ + "="@ + fds.shown() + " is not a count"@))
    } else if !(pid is Unset) && pid.unsigned(u32::MAX as nat) != Some(ours as nat) {
        (
            none,
            Some(
                ENV_PID@ + "="@ + pid.shown() + " but we are pid "@ + decimal(ours as nat)
                    + ": these fds are not ours"@,
            ),
        )
    } else {
        match names {
            Var::Unset => (
                none,
                Some(ENV_FDS@ + " without "@ + ENV_NAMES@ + ": unnamed fds are refused"@),
            ),
            Var::Other(_) => (none, Some(ENV_NAMES@ + " is not UTF-8"@)),
            Var::Text(s) => {
                let list = pieces(s@, ':');
                let count = fds.unsigned(MAX_HANDED as nat)->0;
                if list.len() != count {
                    (
                        none,
                        Some(
                            decimal(list.len()) + " names for "@ + decimal(count) + " fds"@,
                        ),
                    )
                } else {
                    numbered(list)
                }
            },
        }
    }
}

/// What was handed over: the fds to take, in order, and the error that follows them, if any.
#[derive(Debug)]
pub struct Handed {
    pub taken: Vec<(String, i32)>,
    pub wrong: Option<String>,
}

fn refused(text: String) -> (r: Handed)
    ensures
        views(r.taken@) == Seq::<(Seq<char>, i32)>::empty(),
        view_opt(r.wrong) == Some(text@),
{
    broadcast use group_views;

    Handed { taken: Vec::new(), wrong: Some(text) }
}

fn number_names(names: &Vec<Vec<char>>) -> (r: Handed)
    requires
        names@.len() <= MAX_HANDED,
    ensures
        (views(r.taken@), view_opt(r.wrong)) == numbered(views(names@)),
{
    broadcast use group_views;

    let ghost all = views(names@);
    let mut taken: Vec<(String, i32)> = Vec::new();
    let mut i: usize = 0;
    while i < names.len()
        invariant
            i <= names@.len() <= MAX_HANDED,
            all == views(names@),
            numbered(all.take(i as int)) == (views(taken@), None::<Seq<char>>),
            views(taken@).len() == i,
            forall|j: int| 0 <= j < i ==> (#[trigger] views(taken@)[j]).0 == all[j],
        decreases names@.len() - i,
    {
        let ghost so_far = all.take(i + 1);
        let ghost before = all.take(i as int);
        assert(so_far.drop_last() =~= before);
        assert(so_far.last() == names@[i as int]@);
        let fd: i32 = FIRST_FD + i as i32;
        if names[i].len() == 0 {
            let mut text = "fd ".to_owned();
            text.append(number(fd as u64).as_str());
            text.append(" has no name");
            proof {
                lemma_numbered_stops(all, i + 1);
            }
            return Handed { taken, wrong: Some(text) };
        }
        let name = string_of(&names[i], 0, names[i].len());
        assert(name@ =~= names@[i as int]@);
        let mut seen = false;
        let mut j: usize = 0;
        while j < taken.len()
            invariant
                j <= taken@.len() == before.len(),
                views(taken@).len() == before.len(),
                forall|k: int| 0 <= k < before.len() ==> (#[trigger] views(taken@)[k]).0 == before[k],
                seen == before.take(j as int).contains(name@),
            decreases taken@.len() - j,
        {
            assert(views(taken@)[j as int] == taken@[j as int]@);
            assert(before.take(j + 1) =~= before.take(j as int).push(before[j as int]));
            proof {
                vstd::seq_lib::lemma_seq_contains_after_push(
                    before.take(j as int),
                    before[j as int],
                    name@,
                );
            }
            if same_text(taken[j].0.as_str(), name.as_str()) {
                seen = true;
            }
            j = j + 1;
        }
        assert(before.take(j as int) =~= before);
        if seen {
            let mut text = "two fds named ".to_owned();
            text.append(quote(name.as_str()).as_str());
            taken.push((name, fd));
            proof {
                lemma_numbered_stops(all, i + 1);
            }
            return Handed { taken, wrong: Some(text) };
        }
        taken.push((name, fd));
        i = i + 1;
    }
    assert(all.take(i as int) =~= all);
    Handed { taken, wrong: None }
}

proof fn lemma_numbered_stops(names: Seq<Seq<char>>, k: int)
    requires
        0 <= k <= names.len(),
        numbered(names.take(k)).1 is Some,
    ensures
        numbered(names) == numbered(names.take(k)),
    decreases names.len() - k,
{
    if k == names.len() {
        assert(names.take(k) =~= names);
    } else {
        assert(names.take(k + 1).drop_last() =~= names.take(k));
        lemma_numbered_stops(names, k + 1);
    }
}

/// Reads what the `LISTEN_*` environment says was handed to us, `ours` being our pid. An
/// empty result means we were started without fds; a malformed handoff is an error.
pub fn take(fds: &Var, pid: &Var, names: &Var, ours: u32) -> (r: Handed)
    ensures
        (views(r.taken@), view_opt(r.wrong)) == handed(*fds, *pid, *names, ours),
{
    broadcast use group_views;

    if matches!(fds, Var::Unset) {
        return Handed { taken: Vec::new(), wrong: None };
    }
    let count: u64 = match fds.read(MAX_HANDED) {
        Some(n) => n,
        None => 0,
    };
    if count < 1 {
        let mut text = ENV_FDS.to_owned();
        text.append("=");
        text.append(fds.show().as_str());
        text.append(" is not a count");
        return refused(text);
    }
    if !matches!(pid, Var::Unset) {
        let theirs = pid.read(u32::MAX as u64);
        let same = match theirs {
            Some(n) => n == ours as u64,
            None => false,
        };
        if !same {
            let mut text = ENV_PID.to_owned();
            text.append("=");
            text.append(pid.show().as_str());
            text.append(" but we are pid ");
            text.append(number(ours as u64).as_str());
            text.append(": these fds are not ours");
            return refused(text);
        }
    }
    match names {
        Var::Unset => {
            let mut text = ENV_FDS.to_owned();
            text.append(" without ");
            text.append(ENV_NAMES);
            text.append(": unnamed fds are refused");
            refused(text)
        },
        Var::Other(_) => {
            let mut text = ENV_NAMES.to_owned();
            text.append(" is not UTF-8");
            refused(text)
        },
        Var::Text(s) => {
            let list = split(&chars_of(s.as_str()), ':');
            if list.len() as u64 != count {
                let mut text = number(list.len() as u64);
                text.append(" names for ");
                text.append(number(count).as_str());
                text.append(" fds");
                return refused(text);
            }
            number_names(&list)
        },
    }
}

/// What the kernel says of a socket, each answer or its error.
#[derive(Debug)]
pub struct Probe {
    pub domain: Result<u32, String>,
    pub socket_type: Result<u32, String>,
    pub accepting: Result<bool, String>,
}

/// The error for a socket that is not what it is expected to be, if it is not.
pub open spec fn socket_fault(name: Seq<char>, probe: Probe, kind: Option<u32>, listening: bool) -> Option<
    Seq<char>,
> {
    match probe.domain {
        Err(e) => Some(name + ": SO_DOMAIN: "@ + e@),
        Ok(domain) => if domain != AF_UNIX {
            Some(name + " is not a unix socket"@)
        } else if kind is Some && probe.socket_type is Err {
            Some(name + ": SO_TYPE: "@ + probe.socket_type->Err_0@)
        } else if kind is Some && probe.socket_type->Ok_0 != kind->0 {
            Some(
                name + " is a SocketType("@ + decimal(probe.socket_type->Ok_0 as nat)
                    + ") socket, expected SocketType("@ + decimal(kind->0 as nat) + ")"@,
            )
        } else {
            match probe.accepting {
                Err(e) => Some(name + ": SO_ACCEPTCONN: "@ + e@),
                Ok(accepting) => if accepting == listening {
                    None
                } else if listening {
                    Some(name + " is not listening"@)
                } else {
                    Some(name + " is a listening socket, expected a connection"@)
                },
            }
        },
    }
}

fn with(name: &str, rest: &str) -> (r: String)
    ensures
        r@ == name@ + rest@,
{
    let mut out = name.to_owned();
    out.append(rest);
    out
}

/// Holds a socket to what it is expected to be: a unix socket, of `kind` where one is given,
/// listening or connected.
pub fn check_unix(name: &str, probe: &Probe, kind: Option<u32>, listening: bool) -> (r: Result<
    (),
    String,
>)
    ensures
        match r {
            Ok(_) => socket_fault(name@, *probe, kind, listening) is None,
            Err(e) => socket_fault(name@, *probe, kind, listening) == Some(e@),
        },
{
    match &probe.domain {
        Err(e) => {
            let mut text = with(name, ": SO_DOMAIN: ");
            text.append(e.as_str());
            return Err(text);
        },
        Ok(domain) => {
            if *domain != AF_UNIX {
                return Err(with(name, " is not a unix socket"));
            }
        },
    }
    if let Some(kind) = kind {
        match &probe.socket_type {
            Err(e) => {
                let mut text = with(name, ": SO_TYPE: ");
                text.append(e.as_str());
                return Err(text);
            },
            Ok(actual) => {
                if *actual != kind {
                    let mut text = with(name, " is a SocketType(");
                    text.append(number(*actual as u64).as_str());
                    text.append(") socket, expected SocketType(");
                    text.append(number(kind as u64).as_str());
                    text.append(")");
                    return Err(text);
                }
            },
        }
    }
    match &probe.accepting {
        Err(e) => {
            let mut text = with(name, ": SO_ACCEPTCONN: ");
            text.append(e.as_str());
            Err(text)
        },
        Ok(accepting) => {
            if *accepting == listening {
                Ok(())
            } else if listening {
                Err(with(name, " is not listening"))
            } else {
                Err(with(name, " is a listening socket, expected a connection"))
            }
        },
    }
}

/// One fd that was handed over, and what the kernel says of it.
#[derive(Debug)]
pub struct Held {
    pub name: String,
    pub fd: i32,
    pub probe: Probe,
}

/// The fds we were started with, by name, each taken once.
#[derive(Debug)]
pub struct Fds {
    pub held: Vec<Held>,
}

impl Fds {
    /// No name is held twice.
    pub open spec fn wf(&self) -> bool {
        forall|i: int, j: int|
            0 <= i < j < self.held@.len() ==> (#[trigger] self.held@[i]).name@ != (
            #[trigger] self.held@[j]).name@
    }

    /// `i` is where `name` is held.
    pub open spec fn at(&self, name: Seq<char>, i: int) -> bool {
        0 <= i < self.held@.len() && self.held@[i].name@ == name
    }

    /// Whether `name` is held.
    pub open spec fn has(&self, name: Seq<char>) -> bool {
        exists|i: int| #[trigger] self.at(name, i)
    }

    /// Nothing handed over.
    pub fn new() -> (r: Fds)
        ensures
            r.held@ == Seq::<Held>::empty(),
            r.wf(),
    {
        Fds { held: Vec::new() }
    }

    fn find(&self, name: &str) -> (r: Option<usize>)
        ensures
            match r {
                Some(i) => self.at(name@, i as int),
                None => !self.has(name@),
            },
    {
        let mut i: usize = 0;
        while i < self.held.len()
            invariant
                i <= self.held@.len(),
                forall|j: int| 0 <= j < i ==> !#[trigger] self.at(name@, j),
            decreases self.held@.len() - i,
        {
            if same_text(self.held[i].name.as_str(), name) {
                return Some(i);
            }
            i = i + 1;
        }
        None
    }

    /// Holds one more fd; an error, and the fd not held, where the name is held already.
    pub fn add(&mut self, name: String, fd: i32, probe: Probe) -> (r: Result<(), String>)
        requires
            old(self).wf(),
        ensures
            final(self).wf(),
            match r {
                Ok(_) => !old(self).has(name@) && final(self).held@ == old(self).held@.push(
                    Held { name, fd, probe },
                ),
                Err(e) => old(self).has(name@) && final(self).held@ == old(self).held@ && e@
                    == "two fds named "@ + quoted(name@),
            },
    {
        match self.find(name.as_str()) {
            Some(_) => {
                let mut text = "two fds named ".to_owned();
                text.append(quote(name.as_str()).as_str());
                Err(text)
            },
            None => {
                let ghost before = *self;
                self.held.push(Held { name, fd, probe });
                proof {
                    assert forall|i: int, j: int| 0 <= i < j < self.held@.len() implies (
                    #[trigger] self.held@[i]).name@ != (#[trigger] self.held@[j]).name@ by {
                        assert(!before.at(name@, i));
                        if j < before.held@.len() {
                            assert(before.held@[i].name@ != before.held@[j].name@);
                        }
                    }
                }
                Ok(())
            },
        }
    }

    /// Takes an fd by its name.
    pub fn remove(&mut self, name: &str) -> (r: Result<Held, String>)
        requires
            old(self).wf(),
        ensures
            final(self).wf(),
            match r {
                Ok(held) => exists|i: int| #[trigger]
                    old(self).at(name@, i) && held == old(self).held@[i] && final(self).held@
                        == old(self).held@.remove(i),
                Err(e) => !old(self).has(name@) && final(self).held@ == old(self).held@ && e@
                    == "no fd named "@ + quoted(name@)
                    + " was handed to us (we run under drv-supervisor)"@,
            },
    {
        match self.find(name) {
            Some(i) => {
                let ghost before = *self;
                let held = self.held.remove(i);
                proof {
                    assert(before.at(name@, i as int));
                    assert forall|a: int, b: int| 0 <= a < b < self.held@.len() implies (
                    #[trigger] self.held@[a]).name@ != (#[trigger] self.held@[b]).name@ by {
                        let x = if a < i { a } else { a + 1 };
                        let y = if b < i { b } else { b + 1 };
                        assert(self.held@[a] == before.held@[x]);
                        assert(self.held@[b] == before.held@[y]);
                    }
                }
                Ok(held)
            },
            None => {
                let mut text = "no fd named ".to_owned();
                text.append(quote(name).as_str());
                text.append(" was handed to us (we run under drv-supervisor)");
                Err(text)
            },
        }
    }

    /// Takes a connected unix socket of `kind`. Whatever else it turns out to be is refused,
    /// and no longer held.
    pub fn socket(&mut self, name: &str, kind: Kind) -> (r: Result<i32, String>)
        requires
            old(self).wf(),
        ensures
            final(self).wf(),
            taken_as(*old(self), *final(self), name@, kind, false, r),
    {
        self.checked(name, kind, false)
    }

    /// Takes a listening unix socket of `kind`.
    pub fn listener_of(&mut self, name: &str, kind: Kind) -> (r: Result<i32, String>)
        requires
            old(self).wf(),
        ensures
            final(self).wf(),
            taken_as(*old(self), *final(self), name@, kind, true, r),
    {
        self.checked(name, kind, true)
    }

    /// Takes a listening unix stream socket.
    pub fn listener(&mut self, name: &str) -> (r: Result<i32, String>)
        requires
            old(self).wf(),
        ensures
            final(self).wf(),
            taken_as(*old(self), *final(self), name@, Kind::Stream, true, r),
    {
        self.checked(name, Kind::Stream, true)
    }

    /// Takes whatever was handed over under `name`, for what is not a socket.
    pub fn file(&mut self, name: &str) -> (r: Result<i32, String>)
        requires
            old(self).wf(),
        ensures
            final(self).wf(),
            match r {
                Ok(fd) => exists|i: int| #[trigger]
                    old(self).at(name@, i) && fd == old(self).held@[i].fd && final(self).held@
                        == old(self).held@.remove(i),
                Err(e) => !old(self).has(name@) && final(self).held@ == old(self).held@ && e@
                    == "no fd named "@ + quoted(name@)
                    + " was handed to us (we run under drv-supervisor)"@,
            },
    {
        match self.remove(name) {
            Ok(held) => Ok(held.fd),
            Err(e) => Err(e),
        }
    }

    fn checked(&mut self, name: &str, kind: Kind, listening: bool) -> (r: Result<i32, String>)
        requires
            old(self).wf(),
        ensures
            final(self).wf(),
            taken_as(*old(self), *final(self), name@, kind, listening, r),
    {
        match self.remove(name) {
            Ok(held) => match check_unix(
                name,
                &held.probe,
                Some(kind.socket_type()),
                listening,
            ) {
                Ok(_) => Ok(held.fd),
                Err(e) => Err(e),
            },
            Err(e) => Err(e),
        }
    }

    /// The names of what was handed over and not taken, in order.
    pub fn leftover(&self) -> (r: Vec<String>)
        ensures
            rearranged(views(r@), held_names(self.held@)),
            texts_in_order(views(r@)),
    {
        broadcast use group_views;

        let mut out: Vec<String> = Vec::new();
        let mut i: usize = 0;
        while i < self.held.len()
            invariant
                i <= self.held@.len(),
                out@.len() == i,
                forall|j: int| 0 <= j < i ==> (#[trigger] out@[j])@ == self.held@[j].name@,
            decreases self.held@.len() - i,
        {
            out.push(self.held[i].name.clone());
            i = i + 1;
        }
        assert(views(out@) =~= held_names(self.held@));
        sorted_texts(&out)
    }

    pub fn is_empty(&self) -> (r: bool)
        ensures
            r == (self.held@.len() == 0),
    {
        self.held.len() == 0
    }
}

/// The names of what is held.
pub open spec fn held_names(held: Seq<Held>) -> Seq<Seq<char>> {
    held.map_values(|h: Held| h.name@)
}

/// An fd taken under `name` as a socket of `kind`: gone from what is held, and given out only
/// if it is what it is expected to be.
pub open spec fn taken_as(
    before: Fds,
    after: Fds,
    name: Seq<char>,
    kind: Kind,
    listening: bool,
    r: Result<i32, String>,
) -> bool {
    if before.has(name) {
        exists|i: int| #[trigger]
            before.at(name, i) && after.held@ == before.held@.remove(i) && match r {
                Ok(fd) => fd == before.held@[i].fd && socket_fault(
                    name,
                    before.held@[i].probe,
                    Some(kind.spec_socket_type()),
                    listening,
                ) is None,
                Err(e) => socket_fault(
                    name,
                    before.held@[i].probe,
                    Some(kind.spec_socket_type()),
                    listening,
                ) == Some(e@),
            }
    } else {
        after.held@ == before.held@ && match r {
            Ok(_) => false,
            Err(e) => e@ == "no fd named "@ + quoted(name)
                + " was handed to us (we run under drv-supervisor)"@,
        }
    }
}

/// A name that can be handed over.
pub open spec fn good_name(name: Seq<char>) -> bool {
    name.len() > 0 && !name.contains(':')
}

/// The error for the first name that cannot be handed over, if there is one.
pub open spec fn name_fault(names: Seq<Seq<char>>) -> Option<Seq<char>>
    decreases names.len(),
{
    if names.len() == 0 {
        None
    } else if name_fault(names.drop_last()) is Some {
        name_fault(names.drop_last())
    } else if !good_name(names.last()) {
        Some("bad fd name "@ + quoted(names.last()))
    } else if names.drop_last().contains(names.last()) {
        Some("fd name "@ + quoted(names.last()) + " given twice"@)
    } else {
        None
    }
}

proof fn lemma_name_fault_stays(names: Seq<Seq<char>>, k: int)
    requires
        0 <= k <= names.len(),
        name_fault(names.take(k)) is Some,
    ensures
        name_fault(names) == name_fault(names.take(k)),
    decreases names.len() - k,
{
    if k == names.len() {
        assert(names.take(k) =~= names);
    } else {
        assert(names.take(k + 1).drop_last() =~= names.take(k));
        lemma_name_fault_stays(names, k + 1);
    }
}

/// The names of what is given.
pub open spec fn given_names(fds: Seq<(String, i32)>) -> Seq<Seq<char>> {
    fds.map_values(|f: (String, i32)| f.0@)
}

/// The two variables that say what was handed over.
pub open spec fn handoff_env(names: Seq<Seq<char>>) -> Seq<(Seq<char>, Seq<char>)> {
    seq![(ENV_FDS@, decimal(names.len())), (ENV_NAMES@, joined(names, ":"@))]
}

/// The giving side: `(name, fd)` pairs become the child's fds 3.. in order, and the two
/// environment variables that say so.
pub fn handoff(fds: &Vec<(String, i32)>) -> (r: Result<
    (Vec<(String, String)>, Vec<(i32, i32)>),
    String,
>)
    requires
        fds@.len() <= i32::MAX - FIRST_FD,
    ensures
        match r {
            Ok((env, placed)) => {
                &&& name_fault(given_names(fds@)) is None
                &&& views(env@) == handoff_env(given_names(fds@))
                &&& placed@.len() == fds@.len()
                &&& forall|i: int|
                    0 <= i < fds@.len() ==> #[trigger] placed@[i] == (
                        (FIRST_FD + i) as i32,
                        fds@[i].1,
                    )
            },
            Err(e) => name_fault(given_names(fds@)) == Some(e@),
        },
{
    broadcast use group_views;

    let ghost all = given_names(fds@);
    let mut names: Vec<String> = Vec::new();
    let mut placed: Vec<(i32, i32)> = Vec::new();
    let mut i: usize = 0;
    assert(views(names@) =~= all.take(0));
    while i < fds.len()
        invariant
            i <= fds@.len() <= i32::MAX - FIRST_FD,
            all == given_names(fds@),
            name_fault(all.take(i as int)) is None,
            views(names@) == all.take(i as int),
            placed@.len() == i,
            forall|j: int|
                0 <= j < i ==> #[trigger] placed@[j] == ((FIRST_FD + j) as i32, fds@[j].1),
        decreases fds@.len() - i,
    {
        let ghost before = all.take(i as int);
        assert(all.take(i + 1).drop_last() =~= before);
        let name = fds[i].0.as_str();
        assert(all.take(i + 1).last() == name@);
        let cs = chars_of(name);
        let colon = match find_char(&cs, ':') {
            Some(k) => {
                assert(name@[k as int] == ':');
                true
            },
            None => false,
        };
        if cs.len() == 0 || colon {
            let mut text = "bad fd name ".to_owned();
            text.append(quote(name).as_str());
            proof {
                lemma_name_fault_stays(all, i + 1);
            }
            return Err(text);
        }
        let mut j: usize = 0;
        while j < names.len()
            invariant
                j <= names@.len(),
                i < fds@.len() == all.len(),
                all == given_names(fds@),
                views(names@) == before,
                before == all.take(i as int),
                name@ == all[i as int],
                all.take(i + 1).drop_last() == before,
                all.take(i + 1).last() == name@,
                good_name(name@),
                name_fault(before) is None,
                !before.take(j as int).contains(name@),
            decreases names@.len() - j,
        {
            assert(views(names@)[j as int] == names@[j as int]@);
            if same_text(names[j].as_str(), name) {
                let mut text = "fd name ".to_owned();
                text.append(quote(name).as_str());
                text.append(" given twice");
                proof {
                    assert(before[j as int] == name@);
                    lemma_name_fault_stays(all, i + 1);
                }
                return Err(text);
            }
            assert(before.take(j + 1) =~= before.take(j as int).push(before[j as int]));
            proof {
                vstd::seq_lib::lemma_seq_contains_after_push(
                    before.take(j as int),
                    before[j as int],
                    name@,
                );
            }
            j = j + 1;
        }
        assert(before.take(j as int) =~= before);
        names.push(fds[i].0.clone());
        assert(views(names@) =~= all.take(i + 1));
        placed.push((FIRST_FD + i as i32, fds[i].1));
        i = i + 1;
    }
    assert(all.take(i as int) =~= all);
    let joined_names = join(&names, ":");
    let env: Vec<(String, String)> = vec![
        (ENV_FDS.to_owned(), number(fds.len() as u64)),
        (ENV_NAMES.to_owned(), joined_names),
    ];
    assert(views(env@) =~= handoff_env(all));
    Ok((env, placed))
}

proof fn lemma_good_names_number(names: Seq<Seq<char>>)
    requires
        name_fault(names) is None,
    ensures
        numbered(names).1 is None,
        numbered(names).0 == Seq::new(
            names.len(),
            |i: int| (names[i], (FIRST_FD + i) as i32),
        ),
        forall|i: int| 0 <= i < names.len() ==> good_name(#[trigger] names[i]),
    decreases names.len(),
{
    if names.len() > 0 {
        let front = names.drop_last();
        lemma_good_names_number(front);
        assert forall|i: int| 0 <= i < names.len() implies good_name(#[trigger] names[i]) by {
            if i < front.len() {
                assert(front[i] == names[i]);
            }
        }
        assert(numbered(names).0 =~= Seq::new(
            names.len(),
            |i: int| (names[i], (FIRST_FD + i) as i32),
        ));
    } else {
        assert(numbered(names).0 =~= Seq::new(
            names.len(),
            |i: int| (names[i], (FIRST_FD + i) as i32),
        ));
    }
}

/// What one side hands over under names the other side takes under the same names, in the
/// same order, from fd 3 up.
pub proof fn handoff_is_taken(names: Seq<Seq<char>>, count: Var, list: Var, ours: u32)
    requires
        1 <= names.len() <= MAX_HANDED,
        name_fault(names) is None,
        count matches Var::Text(c) && c@ == handoff_env(names)[0].1,
        list matches Var::Text(l) && l@ == handoff_env(names)[1].1,
    ensures
        handed(count, Var::Unset, list, ours) == (
            Seq::new(names.len(), |i: int| (names[i], (FIRST_FD + i) as i32)),
            None::<Seq<char>>,
        ),
{
    lemma_good_names_number(names);
    decimal_reads_back(names.len(), MAX_HANDED as nat);
    reveal_strlit(":");
    assert(":"@ =~= seq![':']);
    assert forall|i: int| 0 <= i < names.len() implies !(#[trigger] names[i]).contains(':') by {
        assert(good_name(names[i]));
    }
    joined_comes_apart(names, ':');
}

} // verus!
