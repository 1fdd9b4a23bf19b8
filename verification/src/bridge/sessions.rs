//! What holds of a screencast session over all the calls that are made.
use vstd::prelude::*;
use vstd::string::*;

use super::shim::{
    begins, called, chosen, created, cursor_of, first_session, handle_reply, has_handle,
    request_handle, session_gone, session_handle, takes_screens, takes_windows, Call, Options, OutView, Session, Shim,
};
use super::wire::ToServer;
use crate::names::{lemma_row, row_of};
use crate::views::view_opt;

verus! {

/// What happens to the shim.
pub enum Move {
    Create { call: Call, options: Options },
    Select { call: Call, session: Seq<char>, options: Options },
    Start { call: Call, session: Seq<char>, options: Options, line: Option<String> },
    /// A call on a session's object.
    Call { call: Call, session: Seq<char>, member: Seq<char>, line: Option<String> },
    /// A session was ended on the other side.
    Ended { number: u64 },
    /// Anything else: no session changes, and no cast is asked for.
    Other,
}

/// A cast is asked for.
pub open spec fn asks_for_cast(out: Seq<OutView>) -> bool {
    exists|i: int|
        0 <= i < out.len() && (#[trigger] out[i]) is Ask && out[i]->Ask_msg is Cast
}

/// One move: the shim before it and after it, and what goes out.
pub struct Turn {
    pub before: Shim,
    pub after: Shim,
    pub what: Move,
    pub out: Seq<OutView>,
}

impl Turn {
    /// The shim did what it does.
    pub open spec fn holds(self) -> bool {
        &&& self.before.wf()
        &&& match self.what {
            Move::Create { call, options } => created(
                self.before,
                self.after,
                call,
                options,
                self.out,
            ),
            Move::Select { call, session, options } => chosen(
                self.before,
                self.after,
                call,
                session,
                options,
                self.out,
            ),
            Move::Start { call, session, options, line } => begins(
                self.before,
                self.after,
                call,
                session,
                options,
                line,
                self.out,
            ),
            Move::Call { call, session, member, line } => called(
                self.before,
                self.after,
                call,
                session,
                member,
                line,
                self.out,
            ),
            Move::Ended { number } => session_gone(self.before, self.after, number, self.out),
            Move::Other => self.after.sessions@ == self.before.sessions@ && !asks_for_cast(
                self.out,
            ),
        }
    }

    /// The session is made, or made anew.
    pub open spec fn creates(self, session: Seq<char>) -> bool {
        self.what matches Move::Create { call, options } && call.caller is Some && session_handle(
            call,
            options,
        ) == session
    }

    /// The move is about the session.
    pub open spec fn touches(self, session: Seq<char>) -> bool {
        match self.what {
            Move::Create { .. } => self.creates(session),
            Move::Select { session: s, .. } => s == session,
            Move::Start { session: s, .. } => s == session,
            Move::Call { session: s, .. } => s == session,
            Move::Ended { number } => self.before.sessions@.contains_key(session)
                && self.before.sessions@[session].id == number,
            Move::Other => false,
        }
    }
}

/// The shim that move `i` finds.
pub open spec fn found(turns: Seq<Turn>, i: int) -> Shim {
    if i <= 0 {
        turns[0].before
    } else {
        turns[i - 1].after
    }
}

/// Moves, one after the other.
pub open spec fn history(turns: Seq<Turn>) -> bool {
    forall|i: int|
        0 <= i < turns.len() ==> turns[i].holds() && turns[i].before == #[trigger] found(turns, i)
}

proof fn lemma_turn(turns: Seq<Turn>, i: int)
    requires
        history(turns),
        0 <= i < turns.len(),
    ensures
        turns[i].holds(),
        turns[i].before == found(turns, i),
{
}

/// What is known of a session.
pub open spec fn known(shim: Shim, session: Seq<char>) -> Option<Session> {
    if shim.sessions@.contains_key(session) {
        Some(shim.sessions@[session])
    } else {
        None
    }
}

proof fn lemma_ended(turn: Turn, session: Seq<char>, number: u64)
    requires
        turn.holds(),
        turn.what == (Move::Ended { number }),
    ensures
        known(turn.after, session) == known(turn.before, session) || known(turn.after, session)
            is None,
        !turn.touches(session) ==> known(turn.after, session) == known(turn.before, session),
        !asks_for_cast(turn.out),
{
    let rows = turn.before.sessions.rows@;
    if exists|i: int| #[trigger]
        first_session(rows, number, i) && turn.after.sessions@ == turn.before.sessions@.remove(
            rows[i].0@,
        ) {
        let i = choose|i: int| #[trigger]
            first_session(rows, number, i) && turn.after.sessions@ == turn.before.sessions@.remove(
                rows[i].0@,
            );
        assert(row_of(rows, rows[i].0@, i));
        lemma_row(rows, rows[i].0@, i);
    }
}

/// A move that is not about a session leaves it alone.
proof fn lemma_untouched(turn: Turn, session: Seq<char>)
    requires
        turn.holds(),
        !turn.touches(session),
    ensures
        known(turn.after, session) == known(turn.before, session),
{
    if let Move::Ended { number } = turn.what {
        lemma_ended(turn, session, number);
    }
}

proof fn lemma_kept(turns: Seq<Turn>, a: int, b: int, session: Seq<char>)
    requires
        history(turns),
        0 <= a < b < turns.len(),
        forall|k: int| a < k < b ==> !(#[trigger] turns[k]).touches(session),
    ensures
        known(turns[b].before, session) == known(turns[a].after, session),
    decreases b,
{
    lemma_turn(turns, b);
    if a + 1 < b {
        lemma_kept(turns, a, b - 1, session);
        lemma_turn(turns, b - 1);
        lemma_untouched(turns[b - 1], session);
    }
}

/// A session that was started, or is gone, stays so until it is made anew.
proof fn lemma_stays_started(turns: Seq<Turn>, a: int, b: int, session: Seq<char>)
    requires
        history(turns),
        0 <= a < b < turns.len(),
        known(turns[a].after, session) matches Some(s) ==> s.started,
        forall|k: int| a < k < b ==> !(#[trigger] turns[k]).creates(session),
    ensures
        known(turns[b].before, session) matches Some(s) ==> s.started,
    decreases b,
{
    lemma_turn(turns, b);
    if a + 1 < b {
        lemma_stays_started(turns, a, b - 1, session);
        lemma_turn(turns, b - 1);
        let turn = turns[b - 1];
        if let Move::Ended { number } = turn.what {
            lemma_ended(turn, session, number);
        }
    }
}

/// A session starts at most once: after a `Start` that asked for its cast, every later one on it
/// fails and asks for nothing, until a session is made anew under the same handle.
pub proof fn a_session_starts_once(turns: Seq<Turn>, i: int, j: int, session: Seq<char>)
    requires
        history(turns),
        0 <= i < j < turns.len(),
        turns[i].what matches Move::Start { session: s, .. } && s == session,
        asks_for_cast(turns[i].out),
        turns[j].what matches Move::Start { session: s, .. } && s == session,
        forall|k: int| i < k < j ==> !(#[trigger] turns[k]).creates(session),
    ensures
        !asks_for_cast(turns[j].out),
        turns[j].out.len() == 1,
        turns[j].out[0] is Error,
        turns[j].after.sessions@ == turns[j].before.sessions@,
{
    lemma_turn(turns, i);
    lemma_turn(turns, j);
    assert(known(turns[i].after, session) matches Some(s) ==> s.started) by {
        let out = turns[i].out;
        let k = choose|k: int| 0 <= k < out.len() && (#[trigger] out[k]) is Ask && out[k]->Ask_msg
            is Cast;
        assert(out[k] is Ask);
    }
    lemma_stays_started(turns, i, j, session);
}

/// The first `Start` on a session that was made and had its sources selected, with a handle that
/// can be handed out and a line to ask on, asks for one cast: the session's, with the screens, the windows, the pointer and the token that were selected.
pub proof fn what_was_selected_is_asked_for(
    turns: Seq<Turn>,
    c: int,
    s: int,
    j: int,
    session: Seq<char>,
    select: Options,
    start: Options,
)
    requires
        history(turns),
        0 <= c < s < j < turns.len(),
        turns[c].creates(session),
        turns[s].what matches Move::Select { call, session: at, options } && call.caller is Some
            && at == session && options == select,
        turns[j].what matches Move::Start { call, session: at, options, line } && call.caller is Some
            && at == session && options == start && line is None && has_handle(call, options),
        forall|k: int| c < k < j && k != s ==> !(#[trigger] turns[k]).touches(session),
    ensures
        ({
            let call = turns[j].what->Start_call;
            turns[j].out == seq![
                handle_reply(call.ticket, request_handle(call, start)),
                OutView::Ask {
                    to: call.ticket,
                    msg: ToServer::Cast {
                        req: turns[j].before.next,
                        session: turns[c].before.next,
                        cursor: cursor_of(select.cursor_mode),
                        screens: takes_screens(select.types),
                        windows: takes_windows(select.types),
                        again: view_opt(select.restore_token),
                    },
                },
            ]
        }),
        asks_for_cast(turns[j].out),
{
    lemma_turn(turns, c);
    lemma_turn(turns, s);
    lemma_turn(turns, j);
    lemma_kept(turns, c, s, session);
    lemma_kept(turns, s, j, session);
    assert(turns[j].out[1] is Ask && turns[j].out[1]->Ask_msg is Cast);
}

/// A `Start` on a session that is not there fails and asks for nothing.
pub proof fn only_known_sessions_start(turn: Turn)
    requires
        turn.holds(),
        turn.what matches Move::Start { session, .. } && known(turn.before, session) is None,
    ensures
        !asks_for_cast(turn.out),
        turn.out.len() == 1,
        turn.out[0] is Error,
{
}

} // verus!
