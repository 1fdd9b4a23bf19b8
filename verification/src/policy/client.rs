//! The asking side: ask the daemon, cache per UID, fail closed.
use vstd::prelude::*;
use vstd::string::*;

use super::rpc::{Response, VERSION};
use super::{AppPolicy, PolicyView};
use crate::table::Table;
use crate::text::{decimal, number};

verus! {

/// How long one request may take, in seconds.
pub const TIMEOUT: u64 = 2;

/// How the daemon is reached.
#[derive(Clone, Copy, Debug, PartialEq, Eq, Structural)]
pub enum Source {
    /// By its path, connecting again after an error.
    Socket { connected: bool },
    /// By one stream, never connected again.
    Stream { open: bool },
}

/// What a request does first.
#[derive(Clone, Copy, Debug, PartialEq, Eq, Structural)]
pub enum Begin {
    /// Connect, then send.
    Connect,
    Send,
}

/// A client of the policy daemon.
#[derive(Debug)]
pub struct PolicyClient {
    pub source: Source,
    /// The answers so far, by UID.
    pub cache: Table<AppPolicy>,
}

/// A client by value: how the daemon is reached, and the records that are remembered.
#[verifier::ext_equal]
pub struct ClientView {
    pub source: Source,
    pub known: Map<u64, PolicyView>,
}

impl View for PolicyClient {
    type V = ClientView;

    open spec fn view(&self) -> ClientView {
        ClientView {
            source: self.source,
            known: self.cache@.map_values(|p: AppPolicy| p@),
        }
    }
}

/// The daemon's reply to a lookup, by value: a record, a refusal, or something else as it is
/// shown.
pub enum Reply {
    Policy(PolicyView),
    Refused(Seq<char>),
    Other(Seq<char>),
}

/// A response as a reply to a lookup; `shown` is how it is shown.
pub open spec fn reply_of(response: Response, shown: Seq<char>) -> Reply {
    match response {
        Response::Policy(p) => Reply::Policy(p@),
        Response::Error(e) => Reply::Refused(e@),
        _ => Reply::Other(shown),
    }
}

impl ClientView {
    /// A client that was just connected.
    pub open spec fn fresh(again: bool) -> ClientView {
        ClientView {
            source: if again {
                Source::Socket { connected: true }
            } else {
                Source::Stream { open: true }
            },
            known: Map::empty(),
        }
    }

    /// What is remembered of a user.
    pub open spec fn remembers(self, uid: u32) -> Option<PolicyView> {
        if self.known.contains_key(uid as u64) {
            Some(self.known[uid as u64])
        } else {
            None
        }
    }

    /// What a request does first; none where there is nothing to send it on any more.
    pub open spec fn begins(self) -> Option<Begin> {
        match self.source {
            Source::Socket { connected } => Some(
                if connected {
                    Begin::Send
                } else {
                    Begin::Connect
                },
            ),
            Source::Stream { open } => if open {
                Some(Begin::Send)
            } else {
                None
            },
        }
    }

    /// After a request that came back, or did not.
    pub open spec fn came(self, ok: bool) -> ClientView {
        ClientView {
            source: match self.source {
                Source::Socket { .. } => Source::Socket { connected: ok },
                Source::Stream { open } => Source::Stream { open: open && ok },
            },
            ..self
        }
    }

    /// After a reply to a lookup, and what the lookup comes to.
    pub open spec fn told(self, uid: u32, reply: Reply) -> (ClientView, Result<PolicyView, Seq<char>>) {
        match reply {
            Reply::Policy(p) => (
                ClientView { known: self.known.insert(uid as u64, p), ..self },
                Ok(p),
            ),
            Reply::Refused(e) => (self, Err(e)),
            Reply::Other(shown) => (self, Err(unexpected("lookup"@, shown))),
        }
    }
}

/// The error for a reply that is not one to `what`.
pub open spec fn unexpected(what: Seq<char>, shown: Seq<char>) -> Seq<char> {
    "unexpected reply to "@ + what + ": "@ + shown
}

fn unexpected_text(what: &str, shown: &str) -> (r: String)
    ensures
        r@ == unexpected(what@, shown@),
{
    let mut text = "unexpected reply to ".to_owned();
    text.append(what);
    text.append(": ");
    text.append(shown);
    text
}

/// Holds the daemon's first reply to our version. `shown` is how the reply is shown.
pub fn hello(reply: &Response, shown: &str) -> (r: Result<(), String>)
    ensures
        match r {
            Ok(_) => reply matches Response::Hello { version } && version == VERSION,
            Err(e) => match *reply {
                Response::Hello { version } => version != VERSION && e@
                    == "policy daemon speaks protocol "@ + decimal(version as nat) + ", we speak "@
                    + decimal(VERSION as nat),
                _ => e@ == unexpected("hello"@, shown@),
            },
        },
{
    match reply {
        Response::Hello { version } => if *version == VERSION {
            Ok(())
        } else {
            let mut text = "policy daemon speaks protocol ".to_owned();
            text.append(number(*version as u64).as_str());
            text.append(", we speak ");
            text.append(number(VERSION as u64).as_str());
            Err(text)
        },
        _ => Err(unexpected_text("hello", shown)),
    }
}

impl PolicyClient {
    pub open spec fn wf(&self) -> bool {
        self.cache.wf()
    }

    /// A client that is connected; by its path it may connect again.
    pub fn connected(again: bool) -> (r: PolicyClient)
        ensures
            r.wf(),
            r@ == ClientView::fresh(again),
    {
        let source = if again {
            Source::Socket { connected: true }
        } else {
            Source::Stream { open: true }
        };
        let r = PolicyClient { source, cache: Table::new() };
        assert(r@ =~= ClientView::fresh(again));
        r
    }

    /// What is known of `uid` already.
    pub fn cached(&self, uid: u32) -> (r: Option<&AppPolicy>)
        requires
            self.wf(),
        ensures
            match r {
                Some(p) => self@.remembers(uid) == Some(p@),
                None => self@.remembers(uid) is None,
            },
    {
        self.cache.get(uid as u64)
    }

    /// What the next request does first.
    pub fn begin(&self) -> (r: Result<Begin, String>)
        ensures
            match r {
                Ok(b) => self@.begins() == Some(b),
                Err(e) => self@.begins() is None && e@ == "policy stream closed"@,
            },
    {
        match self.source {
            Source::Socket { connected } => if connected {
                Ok(Begin::Send)
            } else {
                Ok(Begin::Connect)
            },
            Source::Stream { open } => if open {
                Ok(Begin::Send)
            } else {
                Err("policy stream closed".to_owned())
            },
        }
    }

    /// Whether a fresh connection to the same daemon can be had.
    pub fn reconnect(&self) -> (r: Result<(), String>)
        ensures
            match r {
                Ok(_) => self.source is Socket,
                Err(e) => self.source is Stream && e@ == "cannot reconnect a test stream"@,
            },
    {
        match self.source {
            Source::Socket { .. } => Ok(()),
            Source::Stream { .. } => Err("cannot reconnect a test stream".to_owned()),
        }
    }

    /// A request went through, or failed: after a failure the connection is let go.
    pub fn came_back(&mut self, ok: bool)
        ensures
            old(self).wf() ==> final(self).wf(),
            final(self)@ == old(self)@.came(ok),
    {
        match self.source {
            Source::Socket { .. } => {
                self.source = Source::Socket { connected: ok };
            },
            Source::Stream { open } => {
                self.source = Source::Stream { open: open && ok };
            },
        }
    }

    /// The daemon's reply to a lookup of `uid`. Only a record is kept.
    pub fn lookup(&mut self, uid: u32, reply: Response, shown: &str) -> (r: Result<AppPolicy, String>)
        requires
            old(self).wf(),
        ensures
            final(self).wf(),
            final(self)@ == old(self)@.told(uid, reply_of(reply, shown@)).0,
            match r {
                Ok(p) => old(self)@.told(uid, reply_of(reply, shown@)).1 == Ok::<
                    PolicyView,
                    Seq<char>,
                >(p@),
                Err(e) => old(self)@.told(uid, reply_of(reply, shown@)).1 == Err::<
                    PolicyView,
                    Seq<char>,
                >(e@),
            },
    {
        match reply {
            Response::Policy(policy) => {
                let copy = policy.copy();
                self.cache.insert(uid as u64, policy);
                assert(self@ =~= old(self)@.told(uid, reply_of(reply, shown@)).0);
                Ok(copy)
            },
            Response::Error(err) => Err(err),
            _ => Err(unexpected_text("lookup", shown)),
        }
    }
}

/// The daemon's reply to a launch: the UID the app runs as.
pub fn launch(reply: Response, shown: &str) -> (r: Result<u32, String>)
    ensures
        match reply {
            Response::Launched { uid } => r == Ok::<u32, String>(uid),
            Response::Error(err) => r == Err::<u32, String>(err),
            _ => r matches Err(e) && e@ == unexpected("launch"@, shown@),
        },
{
    match reply {
        Response::Launched { uid } => Ok(uid),
        Response::Error(err) => Err(err),
        _ => Err(unexpected_text("launch", shown)),
    }
}

/// The daemon's reply to a question for the apps.
pub fn apps(reply: Response, shown: &str) -> (r: Result<Vec<String>, String>)
    ensures
        match reply {
            Response::Apps(list) => r == Ok::<Vec<String>, String>(list),
            Response::Error(err) => r == Err::<Vec<String>, String>(err),
            _ => r matches Err(e) && e@ == unexpected("apps"@, shown@),
        },
{
    match reply {
        Response::Apps(list) => Ok(list),
        Response::Error(err) => Err(err),
        _ => Err(unexpected_text("apps", shown)),
    }
}

/// One lookup: the exchange with the daemon is a reply, or why there is none. Where the record is
/// remembered, or there is nothing to ask on, nothing is sent and the exchange counts for
/// nothing.
pub struct Lookup {
    pub uid: u32,
    pub exchange: Result<Reply, Seq<char>>,
}

/// What a lookup does: the client after it, whether the daemon was asked, and the result.
pub open spec fn looked(c: ClientView, l: Lookup) -> (ClientView, bool, Result<PolicyView, Seq<char>>) {
    match c.remembers(l.uid) {
        Some(p) => (c, false, Ok(p)),
        None => match c.begins() {
            None => (c, false, Err("policy stream closed"@)),
            Some(_) => match l.exchange {
                Ok(reply) => {
                    let (after, r) = c.came(true).told(l.uid, reply);
                    (after, true, r)
                },
                Err(e) => (c.came(false), true, Err(e)),
            },
        },
    }
}

/// The client after the first `n` lookups.
pub open spec fn after_lookups(c: ClientView, run: Seq<Lookup>, n: int) -> ClientView
    decreases n,
{
    if n <= 0 {
        c
    } else {
        looked(after_lookups(c, run, n - 1), run[n - 1]).0
    }
}

/// What lookup `i` does.
pub open spec fn lookup_at(c: ClientView, run: Seq<Lookup>, i: int) -> (
    ClientView,
    bool,
    Result<PolicyView, Seq<char>>,
) {
    looked(after_lookups(c, run, i), run[i])
}

proof fn lemma_remembered(again: bool, run: Seq<Lookup>, n: int, uid: u32)
    requires
        0 <= n <= run.len(),
    ensures
        match after_lookups(ClientView::fresh(again), run, n).remembers(uid) {
            Some(p) => exists|i: int|
                0 <= i < n && (#[trigger] run[i]).uid == uid && lookup_at(
                    ClientView::fresh(again),
                    run,
                    i,
                ).2 == Ok::<PolicyView, Seq<char>>(p),
            None => forall|i: int|
                0 <= i < n && (#[trigger] run[i]).uid == uid ==> lookup_at(
                    ClientView::fresh(again),
                    run,
                    i,
                ).2 is Err,
        },
    decreases n,
{
    let c = ClientView::fresh(again);
    if n > 0 {
        lemma_remembered(again, run, n - 1, uid);
        let before = after_lookups(c, run, n - 1);
        let l = run[n - 1];
        if l.uid != uid {
            assert(looked(before, l).0.remembers(uid) == before.remembers(uid));
        }
    }
}

proof fn lemma_stays(c: ClientView, run: Seq<Lookup>, i: int, j: int, uid: u32)
    requires
        0 <= i <= j <= run.len(),
        after_lookups(c, run, i).remembers(uid) is Some,
    ensures
        after_lookups(c, run, j).remembers(uid) == after_lookups(c, run, i).remembers(uid),
    decreases j,
{
    if i < j {
        lemma_stays(c, run, i, j - 1, uid);
    }
}

/// A record that was had once is had again, whatever was looked up between, and the daemon is
/// not asked for it.
pub proof fn a_record_is_asked_for_once(again: bool, run: Seq<Lookup>, i: int, j: int)
    requires
        0 <= i < j < run.len(),
        run[i].uid == run[j].uid,
        lookup_at(ClientView::fresh(again), run, i).2 is Ok,
    ensures
        lookup_at(ClientView::fresh(again), run, j).2 == lookup_at(
            ClientView::fresh(again),
            run,
            i,
        ).2,
        !lookup_at(ClientView::fresh(again), run, j).1,
{
    let c = ClientView::fresh(again);
    lemma_stays(c, run, i + 1, j, run[i].uid);
}

/// A user of whom no lookup gave a record yet is asked about, as long as there is something to
/// ask on: a record is the result, and is remembered of this user alone; a refusal, another
/// reply and a failed exchange are errors, and nothing is remembered.
pub proof fn the_unknown_are_asked_about(again: bool, run: Seq<Lookup>, j: int, other: u32)
    requires
        0 <= j < run.len(),
        forall|i: int|
            0 <= i < j && (#[trigger] run[i]).uid == run[j].uid ==> lookup_at(
                ClientView::fresh(again),
                run,
                i,
            ).2 is Err,
    ensures
        ({
            let before = after_lookups(ClientView::fresh(again), run, j);
            let (after, asked, r) = lookup_at(ClientView::fresh(again), run, j);
            &&& asked <==> before.begins() is Some
            &&& asked ==> match run[j].exchange {
                Ok(Reply::Policy(p)) => r == Ok::<PolicyView, Seq<char>>(p) && after.remembers(
                    run[j].uid,
                ) == Some(p),
                Ok(Reply::Refused(e)) => r == Err::<PolicyView, Seq<char>>(e),
                Ok(Reply::Other(shown)) => r == Err::<PolicyView, Seq<char>>(
                    unexpected("lookup"@, shown),
                ),
                Err(e) => r == Err::<PolicyView, Seq<char>>(e),
            }
            &&& r is Err ==> after.known == before.known
            &&& other != run[j].uid ==> after.remembers(other) == before.remembers(other)
        }),
{
    lemma_remembered(again, run, j, run[j].uid);
}

} // verus!
