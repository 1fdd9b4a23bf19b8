//! Which record a uid gets, what goes over the wire, and what a lookup comes to.
use vstd::prelude::*;

use super::client::{looked, reply_of, unexpected, Begin, ClientView, Lookup, Reply, Source};
use super::daemon::{comes_to, start_answered, Answer, Handler, Said};
use super::forker::Launch;
use super::rpc::{framed, is_letter, is_scheme_char, scheme_of, unframed, Request, Response};
use super::seq::Fault;
use super::{
    answer, disjoint, overlap_from, overlaps, AppEntry, AppPolicy, Global, Grant, PolicyStore,
    PolicyView,
};
use crate::text::{decimal, lemma_first_at, quoted};
use crate::utf8::byte_len;
use crate::views::views;

verus! {

/// An entry is about its uid, or about all from its first to its last, both among them.
pub proof fn an_entry_covers_its_uids(e: AppEntry, uid: u32)
    ensures
        e.uid_end is None ==> (e.covers(uid) <==> uid == e.uid),
        e.uid_end is Some ==> (e.covers(uid) <==> e.uid <= uid && uid <= e.uid_end->0),
{
}

/// Two entries overlap exactly where some uid is covered by both, and then the first such uid
/// is the one that is named.
pub proof fn overlapping_entries_share_a_uid(a: AppEntry, b: AppEntry, uid: u32)
    ensures
        overlaps(a, b) <==> a.covers(overlap_from(a, b)) && b.covers(overlap_from(a, b)),
        a.covers(uid) && b.covers(uid) ==> overlaps(a, b) && overlap_from(a, b) <= uid,
{
}

/// A store whose entries share no uid answers by the entry that covers the uid, else by the
/// default.
pub proof fn the_covering_entry_answers(
    default: AppPolicy,
    apps: Seq<AppEntry>,
    uid: u32,
    i: int,
)
    ensures
        0 <= i < apps.len() && apps[i].covers(uid) && (forall|j: int|
            0 <= j < i ==> !(#[trigger] apps[j]).covers(uid)) ==> answer(default, apps, uid)
            == apps[i].policy@,
        (forall|j: int| 0 <= j < apps.len() ==> !(#[trigger] apps[j]).covers(uid)) ==> answer(
            default,
            apps,
            uid,
        ) == default@,
    decreases apps.len(),
{
    if apps.len() > 0 {
        let rest = apps.skip(1);
        the_covering_entry_answers(default, rest, uid, i - 1);
        if 0 < i < apps.len() && apps[i].covers(uid) && forall|j: int|
            0 <= j < i ==> !(#[trigger] apps[j]).covers(uid) {
            assert(!apps[0].covers(uid));
            assert(rest[i - 1] == apps[i]);
            assert forall|j: int| 0 <= j < i - 1 implies !(#[trigger] rest[j]).covers(uid) by {
                assert(rest[j] == apps[j + 1]);
            }
        }
        if forall|j: int| 0 <= j < apps.len() ==> !(#[trigger] apps[j]).covers(uid) {
            assert(!apps[0].covers(uid));
            assert forall|j: int| 0 <= j < rest.len() implies !(#[trigger] rest[j]).covers(uid) by {
                assert(rest[j] == apps[j + 1]);
            }
        }
    }
}

/// A global is shown where the record lists it, and buffers of the GPU besides where it has the
/// GPU; what nobody knows has none.
pub proof fn what_a_record_shows(p: PolicyView, global: Global)
    ensures
        global != Global::Dmabuf ==> (p.shows(global) <==> p.globals.contains(global)),
        p.shows(Global::Dmabuf) <==> p.gpu || p.globals.contains(Global::Dmabuf),
        PolicyView::unknown().name == "unknown"@,
        !PolicyView::unknown().gpu,
        PolicyView::unknown().icon is None,
{
}

/// A frame is its payload behind four bytes that write its length, the lowest first.
pub proof fn a_frame_starts_with_its_length(payload: Seq<u8>)
    requires
        payload.len() <= 65536,
    ensures
        framed(payload).len() == payload.len() + 4,
        framed(payload)[0] + 256 * framed(payload)[1] + 65536 * framed(payload)[2] + 16777216
            * framed(payload)[3] == payload.len(),
        framed(payload).skip(4) == payload,
{
    assert(framed(payload).skip(4) =~= payload);
}

/// What cannot be a frame is none: too short for its length, for its payload, or too long a
/// payload.
pub proof fn what_is_no_frame_is_refused(bytes: Seq<u8>)
    ensures
        bytes.len() < 4 ==> unframed(bytes) is None,
        bytes.len() >= 4 ==> {
            let n = bytes[0] + 256 * bytes[1] + 65536 * bytes[2] + 16777216 * bytes[3];
            &&& n > 65536 || bytes.len() < 4 + n ==> unframed(bytes) is None
            &&& n <= 65536 && bytes.len() >= 4 + n ==> unframed(bytes) == Some(
                bytes.subrange(4, 4 + n),
            )
        },
{
}

/// A URI is passed on where it is printable ASCII without spaces, of at most 8192 bytes, and
/// starts with a scheme and a colon; its scheme is in lower case then. Nothing else has one.
pub proof fn a_uri_has_a_scheme(uri: Seq<char>, at: int)
    requires
        0 <= at < uri.len(),
        uri[at] == ':',
        forall|j: int| 0 <= j < at ==> uri[j] != ':',
    ensures
        ({
            let letter = |c: char| ('a' <= c && c <= 'z') || ('A' <= c && c <= 'Z');
            let fine = {
                &&& byte_len(uri) <= 8192
                &&& forall|i: int| 0 <= i < uri.len() ==> '!' <= #[trigger] uri[i] && uri[i] <= '~'
                &&& at > 0
                &&& letter(uri[0])
                &&& forall|i: int|
                    1 <= i < at ==> letter(#[trigger] uri[i]) || ('0' <= uri[i] && uri[i] <= '9')
                        || uri[i] == '+' || uri[i] == '-' || uri[i] == '.'
            };
            &&& fine <==> scheme_of(uri) is Some
            &&& fine ==> scheme_of(uri)->0.len() == at && forall|i: int|
                0 <= i < at ==> #[trigger] scheme_of(uri)->0[i] == if 'A' <= uri[i] && uri[i]
                    <= 'Z' {
                    (uri[i] as u32 + 32) as char
                } else {
                    uri[i]
                }
        }),
        forall|s: Seq<char>| !s.contains(':') ==> #[trigger] scheme_of(s) is None,
{
    lemma_first_at(uri, ':', at);
    let scheme = uri.take(at);
    assert forall|i: int| 0 <= i < at implies #[trigger] scheme[i] == uri[i] by {}
    if super::rpc::is_scheme(scheme) {
        assert forall|i: int| 1 <= i < at implies is_letter(#[trigger] uri[i]) || ('0' <= uri[i]
            && uri[i] <= '9') || uri[i] == '+' || uri[i] == '-' || uri[i] == '.' by {
            assert(is_scheme_char(scheme[i]));
        }
        assert(is_letter(scheme[0]));
    }
}

/// What a request comes to: the version to a hello, the record or the refusal to a lookup, the
/// list or the refusal to a question for the apps, and to a URI always a refusal.
pub proof fn requests_get_their_answers<H: Handler>(
    handler: H,
    peer: u32,
    uid: u32,
    uri: String,
    r: Answer<H::Start>,
    version: u32,
)
    ensures
        comes_to(handler, peer, Request::Hello { version }, r) ==> r == Answer::<H::Start>::Reply(
            Response::Hello { version: 7 },
        ),
        comes_to(handler, peer, Request::Lookup { uid }, r) ==> match handler.looked_up(peer, uid) {
            Said::Yes(p) => r is Reply && r->Reply_0 is Policy && r->Reply_0->Policy_0@ == p,
            Said::No(text) => r is Reply && r->Reply_0 is Error && r->Reply_0->Error_0@ == text,
        },
        comes_to(handler, peer, Request::Apps, r) ==> match handler.listed(peer) {
            Said::Yes(list) => r is Reply && r->Reply_0 is Apps && views(r->Reply_0->Apps_0@)
                == list,
            Said::No(text) => r is Reply && r->Reply_0 is Error && r->Reply_0->Error_0@ == text,
        },
        comes_to(handler, peer, Request::Open { uri }, r) ==> r is Reply && r->Reply_0 is Error
            && r->Reply_0->Error_0@ == if scheme_of(uri@) is Some {
            "no app opens "@ + quoted(scheme_of(uri@)->0)
        } else {
            "not a URI"@
        },
{
}

/// A launch that is let through starts what the handler lets be started, and is answered with
/// the uid once it was, and with who failed and why where it was not.
pub proof fn a_launch_is_answered<H: Handler>(
    handler: H,
    peer: u32,
    app: String,
    r: Answer<H::Start>,
    by: Seq<char>,
    uid: u32,
    outcome: Result<(), Seq<char>>,
    resp: Response,
)
    ensures
        comes_to(handler, peer, Request::Launch { app }, r) ==> match r {
            Answer::Start(s) => handler.may_launch(peer, app@, Ok(s)),
            Answer::Reply(resp) => resp is Error && handler.may_launch(
                peer,
                app@,
                Err(resp->Error_0),
            ),
        },
        start_answered(by, uid, outcome, resp) && outcome is Ok ==> resp == (Response::Launched {
            uid,
        }),
        start_answered(by, uid, outcome, resp) && outcome is Err ==> resp is Error
            && resp->Error_0@ == by + ": "@ + outcome->Err_0,
{
}

/// A file of records launches nothing and lists nothing, and answers about others only who
/// holds the grant.
pub proof fn a_store_only_answers(
    store: PolicyStore,
    peer: u32,
    uid: u32,
    name: Seq<char>,
    launch: Launch,
    e: String,
)
    ensures
        !store.may_launch(peer, name, Ok(launch)),
        store.may_launch(peer, name, Err(e)) ==> e@ == "this policy daemon does not launch apps"@,
        store.listed(peer) == Said::<Seq<Seq<char>>>::No(
            "this policy daemon does not launch apps"@,
        ),
        store.looked_up(peer, uid) == if peer == uid || store.says(peer).grants.contains(
            Grant::Lookup,
        ) {
            Said::Yes(store.says(uid))
        } else {
            Said::No("uid "@ + decimal(peer as nat) + " may not look up other uids"@)
        },
{
}

/// A lookup: what is remembered is the answer and nothing is asked; else what the daemon says
/// is, and a record is remembered from then on, but no refusal; and a line that failed is
/// connected again only by its path.
pub proof fn a_lookup_asks_the_daemon(
    c: ClientView,
    uid: u32,
    p: PolicyView,
    text: Seq<char>,
    other: u32,
)
    requires
        !c.known.contains_key(uid as u64),
        c.source != (Source::Stream { open: false }),
    ensures
        ({
            let (after, asked, r) = looked(c, Lookup { uid, exchange: Ok(Reply::Policy(p)) });
            &&& asked
            &&& r == Ok::<PolicyView, Seq<char>>(p)
            &&& after.known == c.known.insert(uid as u64, p)
            &&& after.source == match c.source {
                Source::Socket { .. } => Source::Socket { connected: true },
                Source::Stream { .. } => Source::Stream { open: true },
            }
            &&& looked(after, Lookup { uid, exchange: Err(text) }) == (
                after,
                false,
                Ok::<PolicyView, Seq<char>>(p),
            )
        }),
        ({
            let (after, asked, r) = looked(c, Lookup { uid, exchange: Ok(Reply::Refused(text)) });
            asked && r == Err::<PolicyView, Seq<char>>(text) && after.known == c.known
        }),
        ({
            let (after, asked, r) = looked(c, Lookup { uid, exchange: Ok(Reply::Other(text)) });
            asked && r == Err::<PolicyView, Seq<char>>(
                "unexpected reply to "@ + "lookup"@ + ": "@ + text,
            ) && after.known == c.known
        }),
        ({
            let (after, asked, r) = looked(c, Lookup { uid, exchange: Err(text) });
            &&& asked && r == Err::<PolicyView, Seq<char>>(text) && after.known == c.known
            &&& after.source == match c.source {
                Source::Socket { .. } => Source::Socket { connected: false },
                Source::Stream { .. } => Source::Stream { open: false },
            }
        }),
{
}

/// A client starts connected and remembers nothing; by its path it connects before it sends
/// where it is not, and by a stream that closed it sends no more.
pub proof fn lines_are_opened_again_by_path(c: ClientView, uid: u32, e: Result<Reply, Seq<char>>)
    ensures
        ClientView::fresh(true).source == (Source::Socket { connected: true }),
        ClientView::fresh(false).source == (Source::Stream { open: true }),
        ClientView::fresh(true).known == Map::<u64, PolicyView>::empty(),
        ClientView::fresh(false).known == Map::<u64, PolicyView>::empty(),
        c.source == (Source::Socket { connected: true }) ==> c.begins() == Some(Begin::Send),
        c.source == (Source::Socket { connected: false }) ==> c.begins() == Some(Begin::Connect),
        c.source == (Source::Stream { open: true }) ==> c.begins() == Some(Begin::Send),
        c.source == (Source::Stream { open: false }) ==> c.begins() is None,
        c.source == (Source::Stream { open: false }) && !c.known.contains_key(uid as u64)
            ==> looked(c, Lookup { uid, exchange: e }) == (
            c,
            false,
            Err::<PolicyView, Seq<char>>("policy stream closed"@),
        ),
{
}

/// What a response is to a lookup.
pub proof fn responses_are_read(p: AppPolicy, e: String, shown: Seq<char>, version: u32, uid: u32)
    ensures
        reply_of(Response::Policy(p), shown) == Reply::Policy(p@),
        reply_of(Response::Error(e), shown) == Reply::Refused(e@),
        reply_of(Response::Hello { version }, shown) == Reply::Other(shown),
        reply_of(Response::Launched { uid }, shown) == Reply::Other(shown),
        unexpected(shown, e@) == "unexpected reply to "@ + shown + ": "@ + e@,
{
}

/// What stops a message, in words.
pub proof fn faults_say_what_stopped_it()
    ensures
        Fault::TooLarge.text() == "message too large"@,
        Fault::TooManyFds.text() == "too many fds"@,
        Fault::ShortSend.text() == "short send"@,
        Fault::Closed.text() == "peer closed"@,
        Fault::NotOneFd.text() == "attachment without exactly one fd"@,
{
}

/// The first two entries that share a uid, in the order in which pairs are looked at: they share
/// one, and no pair before them does; so there is only one such pair.
pub proof fn the_first_overlap_is_one(apps: Seq<AppEntry>, i: int, j: int, a: int, b: int)
    requires
        super::first_overlap(apps, i, j),
    ensures
        0 <= i < j < apps.len(),
        overlaps(apps[i], apps[j]),
        0 <= a < b < apps.len() && overlaps(apps[a], apps[b]) ==> i < a || (i == a && j <= b),
        super::first_overlap(apps, a, b) ==> a == i && b == j,
        !disjoint(apps),
{
    if 0 <= a < b < apps.len() && overlaps(apps[a], apps[b]) && !(i < a || (i == a && j <= b)) {
        assert(!overlaps(apps[a], apps[b]));
    }
    if super::first_overlap(apps, a, b) && !(a == i && b == j) {
        if a < i || (a == i && b < j) {
            assert(!overlaps(apps[a], apps[b]));
        } else {
            assert(!overlaps(apps[i], apps[j]));
        }
    }
}

} // verus!
