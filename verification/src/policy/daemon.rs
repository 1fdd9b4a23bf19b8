//! The answering side. Anyone may connect; the peer's UID is what every answer is keyed on.
//! What a peer may ask is the handler's decision.
use vstd::prelude::*;
use vstd::string::*;

use super::forker::Launch;
use super::rpc::{scheme_of, uri_scheme, Request, Response, VERSION};
use super::{AppPolicy, Grant, PolicyStore, PolicyView};
use crate::text::{decimal, number, quote, quoted};
use crate::views::{views, why};

verus! {

/// What a handler says, by value.
pub enum Said<T> {
    Yes(T),
    No(Seq<char>),
}

/// What a daemon must answer. `peer` is the asking process's UID.
pub trait Handler {
    /// What is started for an app.
    type Start;

    spec fn looked_up(&self, peer: u32, uid: u32) -> Said<PolicyView>;

    /// Policy for `uid`, asked by `peer`.
    fn lookup(&self, peer: u32, uid: u32) -> (r: Result<AppPolicy, String>)
        ensures
            match r {
                Ok(p) => self.looked_up(peer, uid) == Said::Yes(p@),
                Err(e) => self.looked_up(peer, uid) == Said::<PolicyView>::No(e@),
            },
    ;

    /// The handler launches this, or says why not.
    spec fn may_launch(&self, peer: u32, app: Seq<char>, r: Result<Self::Start, String>) -> bool;

    /// What is started for the named app.
    fn launch(&self, peer: u32, app: &str) -> (r: Result<Self::Start, String>)
        ensures
            self.may_launch(peer, app@, r),
    ;

    spec fn listed(&self, peer: u32) -> Said<Seq<Seq<char>>>;

    /// The names `launch` accepts.
    fn apps(&self, peer: u32) -> (r: Result<Vec<String>, String>)
        ensures
            match r {
                Ok(list) => self.listed(peer) == Said::Yes(views(list@)),
                Err(e) => self.listed(peer) == Said::<Seq<Seq<char>>>::No(e@),
            },
    ;

    /// The peer's hello, before the version goes back. A hook, not a decision.
    fn hello(&self, peer: u32) {
    }
}

/// The error for a peer that asks about others.
pub open spec fn no_lookup(peer: u32) -> Seq<char> {
    "uid "@ + decimal(peer as nat) + " may not look up other uids"@
}

pub fn no_lookup_text(peer: u32) -> (r: String)
    ensures
        r@ == no_lookup(peer),
{
    let mut text = "uid ".to_owned();
    text.append(number(peer as u64).as_str());
    text.append(" may not look up other uids");
    text
}

/// A file-backed store answers lookups and cannot launch anything.
impl Handler for PolicyStore {
    type Start = Launch;

    open spec fn looked_up(&self, peer: u32, uid: u32) -> Said<PolicyView> {
        if peer != uid && !self.says(peer).grants.contains(Grant::Lookup) {
            Said::No(no_lookup(peer))
        } else {
            Said::Yes(self.says(uid))
        }
    }

    fn lookup(&self, peer: u32, uid: u32) -> (r: Result<AppPolicy, String>) {
        if peer != uid && !PolicyStore::lookup(self, peer).has(Grant::Lookup) {
            return Err(no_lookup_text(peer));
        }
        Ok(PolicyStore::lookup(self, uid).copy())
    }

    open spec fn may_launch(&self, peer: u32, app: Seq<char>, r: Result<Launch, String>) -> bool {
        r matches Err(e) && e@ == "this policy daemon does not launch apps"@
    }

    fn launch(&self, peer: u32, app: &str) -> (r: Result<Launch, String>) {
        Err("this policy daemon does not launch apps".to_owned())
    }

    open spec fn listed(&self, peer: u32) -> Said<Seq<Seq<char>>> {
        Said::No("this policy daemon does not launch apps"@)
    }

    fn apps(&self, peer: u32) -> (r: Result<Vec<String>, String>) {
        Err("this policy daemon does not launch apps".to_owned())
    }
}

/// What a request comes to: an answer, or an app to be started first.
#[derive(Debug)]
pub enum Answer<S> {
    Reply(Response),
    Start(S),
}

/// A response that refuses with this text.
pub open spec fn refuses(r: Response, text: Seq<char>) -> bool {
    r matches Response::Error(e) && e@ == text
}

/// `r` is what `peer`'s request comes to.
pub open spec fn comes_to<H: Handler>(handler: H, peer: u32, request: Request, r: Answer<H::Start>) -> bool {
    match request {
        Request::Hello { .. } => r == Answer::<H::Start>::Reply(Response::Hello { version: VERSION }),
        Request::Lookup { uid } => match handler.looked_up(peer, uid) {
            Said::Yes(p) => r matches Answer::Reply(Response::Policy(q)) && q@ == p,
            Said::No(text) => r matches Answer::Reply(resp) && refuses(resp, text),
        },
        Request::Launch { app } => match r {
            Answer::Start(launch) => handler.may_launch(peer, app@, Ok::<H::Start, String>(launch)),
            Answer::Reply(Response::Error(e)) => handler.may_launch(
                peer,
                app@,
                Err::<H::Start, String>(e),
            ),
            _ => false,
        },
        Request::Apps => match handler.listed(peer) {
            Said::Yes(list) => r matches Answer::Reply(Response::Apps(l)) && views(l@) == list,
            Said::No(text) => r matches Answer::Reply(resp) && refuses(resp, text),
        },
        Request::Open { uri } => r matches Answer::Reply(resp) && refuses(
            resp,
            match scheme_of(uri@) {
                Some(scheme) => "no app opens "@ + quoted(scheme),
                None => "not a URI"@,
            },
        ),
    }
}

/// What `peer`'s request comes to.
pub fn serve_request<H: Handler>(handler: &H, peer: u32, request: Request) -> (r: Answer<H::Start>)
    ensures
        comes_to(*handler, peer, request, r),
{
    match request {
        Request::Hello { .. } => {
            handler.hello(peer);
            Answer::Reply(Response::Hello { version: VERSION })
        },
        Request::Lookup { uid } => match handler.lookup(peer, uid) {
            Ok(policy) => Answer::Reply(Response::Policy(policy)),
            Err(err) => Answer::Reply(Response::Error(err)),
        },
        Request::Launch { app } => match handler.launch(peer, app.as_str()) {
            Ok(launch) => Answer::Start(launch),
            Err(err) => Answer::Reply(Response::Error(err)),
        },
        Request::Apps => match handler.apps(peer) {
            Ok(list) => Answer::Reply(Response::Apps(list)),
            Err(err) => Answer::Reply(Response::Error(err)),
        },
        Request::Open { uri } => match uri_scheme(uri.as_str()) {
            Some(scheme) => {
                let mut text = "no app opens ".to_owned();
                text.append(quote(scheme.as_str()).as_str());
                Answer::Reply(Response::Error(text))
            },
            None => Answer::Reply(Response::Error("not a URI".to_owned())),
        },
    }
}

/// What comes in on a connection.
#[derive(Debug)]
pub enum Heard {
    Request(Request),
    /// The peer hung up.
    Closed,
    /// Something malformed came, or the last response could not be sent.
    Broken(String),
}

/// What is done with it.
#[derive(Debug)]
pub enum Next<S> {
    /// It is answered, and the next is read.
    Answer(Answer<S>),
    /// Serving ends.
    End(Result<(), String>),
}

/// `r` is what is done with what `peer` sent.
pub open spec fn served<H: Handler>(handler: H, peer: u32, heard: Heard, r: Next<H::Start>) -> bool {
    match heard {
        Heard::Request(request) => r matches Next::Answer(answer) && comes_to(
            handler,
            peer,
            request,
            answer,
        ),
        Heard::Closed => r == Next::<H::Start>::End(Ok(())),
        Heard::Broken(e) => r == Next::<H::Start>::End(Err(e)),
    }
}

/// Answers requests from `peer`, one at a time, until it closes or sends something malformed.
pub fn serve_connection<H: Handler>(handler: &H, peer: u32, heard: Heard) -> (r: Next<H::Start>)
    ensures
        served(*handler, peer, heard, r),
{
    match heard {
        Heard::Request(request) => Next::Answer(serve_request(handler, peer, request)),
        Heard::Closed => Next::End(Ok(())),
        Heard::Broken(e) => Next::End(Err(e)),
    }
}

/// `r` answers a launch, once the app was started under `uid` or was not; `by` is who starts it
/// for us.
pub open spec fn start_answered(
    by: Seq<char>,
    uid: u32,
    outcome: Result<(), Seq<char>>,
    r: Response,
) -> bool {
    match outcome {
        Ok(_) => r == (Response::Launched { uid }),
        Err(e) => refuses(r, by + ": "@ + e),
    }
}

/// The answer to a launch, once the app was started under `uid` or was not; `by` is who starts
/// it for us.
pub fn started(by: &str, uid: u32, outcome: Result<(), String>) -> (r: Response)
    ensures
        start_answered(by@, uid, why(outcome), r),
{
    match outcome {
        Ok(_) => Response::Launched { uid },
        Err(e) => {
            let mut text = by.to_owned();
            text.append(": ");
            text.append(e.as_str());
            Response::Error(text)
        },
    }
}

/// One request of a connection and its response: what it came to, and where that is an app to
/// be started, how that went.
pub struct Turn<S> {
    pub request: Request,
    pub answer: Answer<S>,
    pub by: Seq<char>,
    pub uid: u32,
    pub outcome: Result<(), Seq<char>>,
    pub response: Response,
}

impl<S> Turn<S> {
    /// The response is the one that goes back.
    pub open spec fn responds(self) -> bool {
        match self.answer {
            Answer::Reply(r) => self.response == r,
            Answer::Start(_) => start_answered(self.by, self.uid, self.outcome, self.response),
        }
    }
}

/// A connection, from what comes in to its end: what is answered, in order, and what serving
/// ends with.
pub open spec fn connection<H: Handler>(
    handler: H,
    peer: u32,
    heard: Seq<Heard>,
    turns: Seq<Turn<H::Start>>,
    end: Result<(), String>,
) -> bool {
    &&& turns.len() < heard.len()
    &&& forall|i: int|
        0 <= i < turns.len() ==> {
            &&& (#[trigger] turns[i]).responds()
            &&& heard[i] == Heard::Request(turns[i].request)
            &&& served(handler, peer, heard[i], Next::Answer(turns[i].answer))
        }
    &&& served(handler, peer, heard[turns.len() as int], Next::End(end))
}

/// `response` is the one that `handler` gives `peer` for `request`.
pub open spec fn fits<H: Handler>(handler: H, peer: u32, request: Request, response: Response) -> bool {
    match request {
        Request::Hello { .. } => response == (Response::Hello { version: VERSION }),
        Request::Lookup { uid } => match handler.looked_up(peer, uid) {
            Said::Yes(p) => response matches Response::Policy(q) && q@ == p,
            Said::No(text) => refuses(response, text),
        },
        Request::Launch { .. } => response is Launched || response is Error,
        Request::Apps => match handler.listed(peer) {
            Said::Yes(list) => response matches Response::Apps(l) && views(l@) == list,
            Said::No(text) => refuses(response, text),
        },
        Request::Open { .. } => response is Error,
    }
}

/// On a connection each request gets one response, in order, and the one that fits it; an app
/// is launched only where the handler lets it be and it was started, and a refusal ends nothing.
/// Serving ends at the first thing that is no request: well where the peer closed, with the
/// error where something malformed came.
pub proof fn a_connection_is_answered_in_order<H: Handler>(
    handler: H,
    peer: u32,
    heard: Seq<Heard>,
    turns: Seq<Turn<H::Start>>,
    end: Result<(), String>,
)
    requires
        connection(handler, peer, heard, turns, end),
    ensures
        forall|i: int|
            0 <= i < turns.len() ==> heard[i] == Heard::Request((#[trigger] turns[i]).request)
                && fits(handler, peer, turns[i].request, turns[i].response),
        forall|i: int|
            0 <= i < turns.len() && (#[trigger] turns[i]).request is Launch ==> {
                let app = turns[i].request->app@;
                match turns[i].response {
                    Response::Launched { uid } => {
                        &&& uid == turns[i].uid && turns[i].outcome is Ok
                        &&& turns[i].answer matches Answer::Start(start) && handler.may_launch(
                            peer,
                            app,
                            Ok::<H::Start, String>(start),
                        )
                    },
                    Response::Error(e) => handler.may_launch(peer, app, Err::<H::Start, String>(e))
                        || turns[i].outcome is Err,
                    _ => false,
                }
            },
        !(heard[turns.len() as int] is Request),
        end is Ok <==> heard[turns.len() as int] is Closed,
        end is Err ==> heard[turns.len() as int] == Heard::Broken(end->Err_0),
{
    assert forall|i: int| 0 <= i < turns.len() implies heard[i] == Heard::Request(
        (#[trigger] turns[i]).request,
    ) && fits(handler, peer, turns[i].request, turns[i].response) by {
        assert(turns[i].responds());
        assert(comes_to(handler, peer, turns[i].request, turns[i].answer));
    }
}

/// A peer may always ask about itself; about others it needs the grant.
pub proof fn a_store_answers_its_own(store: PolicyStore, peer: u32, uid: u32)
    ensures
        store.looked_up(peer, peer) == Said::Yes(store.says(peer)),
        store.looked_up(peer, uid) is Yes <==> peer == uid || store.says(peer).grants.contains(
            Grant::Lookup,
        ),
{
}

} // verus!
