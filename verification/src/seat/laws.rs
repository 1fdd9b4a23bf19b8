//! What holds of a whole connection of the seat daemon.
use vstd::prelude::*;
use vstd::string::*;

use super::daemon::{
    announced, close_answered, let_go, node_opened, requested, switch_answered, Daemon, Do,
};
use super::{is_seat_node, Request, Response};
use crate::table::{has_row, row_of, rows_map, unique_rows};

verus! {

/// One request and its reply: the daemon before it, once it was read, and after it; what was
/// done for it, and how that went.
pub struct Turn {
    pub before: Daemon,
    pub read: Daemon,
    pub after: Daemon,
    pub request: Request,
    pub did: Do,
    pub outcome: Result<(), Seq<char>>,
    pub reply: Response,
}

impl Turn {
    /// The daemon did what it does.
    pub open spec fn holds(self) -> bool {
        &&& requested(self.before, self.read, self.request, self.did)
        &&& match self.did {
            Do::Reply(reply) => self.after == self.read && self.reply == reply,
            Do::Open { path } => node_opened(
                self.read,
                self.after,
                path@,
                self.outcome,
                self.reply,
            ),
            Do::Close { .. } => self.after == self.read && close_answered(
                self.outcome,
                self.reply,
            ),
            Do::SwitchVt { vt } => self.after == self.read && switch_answered(
                vt,
                self.outcome,
                self.reply,
            ),
        }
    }

    /// The device that is opened.
    pub open spec fn opens(self) -> Option<u32> {
        match self.reply {
            Response::Opened { id } => Some(id),
            _ => None,
        }
    }
}

/// The devices that are open, and the next number, once `n` requests were answered.
pub open spec fn open_after(turns: Seq<Turn>, n: int) -> Map<u64, ()> {
    if n <= 0 {
        Map::empty()
    } else {
        turns[n - 1].after.open@
    }
}

pub open spec fn next_after(turns: Seq<Turn>, n: int) -> nat {
    if n <= 0 {
        1
    } else {
        turns[n - 1].after.next_id as nat
    }
}

/// A connection, request by request. Between two requests devices may come and go, and the seat
/// too.
pub open spec fn connection(turns: Seq<Turn>) -> bool {
    forall|i: int|
        0 <= i < turns.len() ==> {
            &&& (#[trigger] turns[i]).holds()
            &&& turns[i].before.open@ == open_after(turns, i)
            &&& turns[i].before.next_id == next_after(turns, i)
        }
}

/// How many of the first `n` requests opened a device.
pub open spec fn opened_before(turns: Seq<Turn>, n: int) -> nat
    decreases n,
{
    if n <= 0 {
        0
    } else if turns[n - 1].opens() is Some {
        opened_before(turns, n - 1) + 1
    } else {
        opened_before(turns, n - 1)
    }
}

/// Among the first `n` requests one opened the device, and none after it closed it.
pub open spec fn held(turns: Seq<Turn>, n: int, id: u32) -> bool
    decreases n,
{
    if n <= 0 {
        false
    } else if turns[n - 1].opens() == Some(id) {
        true
    } else if turns[n - 1].request == (Request::Close { id }) {
        false
    } else {
        held(turns, n - 1, id)
    }
}

proof fn lemma_state(turns: Seq<Turn>, n: int)
    requires
        connection(turns),
        0 <= n <= turns.len(),
    ensures
        next_after(turns, n) == 1 + opened_before(turns, n),
        forall|k: u64| #[trigger] open_after(turns, n).contains_key(k) ==> 1 <= k < next_after(
            turns,
            n,
        ),
    decreases n,
{
    if n > 0 {
        lemma_state(turns, n - 1);
        assert(turns[n - 1].holds());
    }
}

proof fn lemma_held(turns: Seq<Turn>, n: int, id: u32)
    requires
        connection(turns),
        0 <= n <= turns.len(),
    ensures
        open_after(turns, n).contains_key(id as u64) <==> held(turns, n, id),
    decreases n,
{
    if n > 0 {
        lemma_held(turns, n - 1, id);
        assert(turns[n - 1].holds());
    }
}

proof fn lemma_opened_grows(turns: Seq<Turn>, i: int, j: int)
    requires
        0 <= i <= j,
    ensures
        opened_before(turns, i) <= opened_before(turns, j),
    decreases j,
{
    if i < j {
        lemma_opened_grows(turns, i, j - 1);
    }
}

/// On a connection devices are numbered from 1 up, one number each: the number of a device is
/// one more than the devices opened before it, so no later device has it again.
pub proof fn device_numbers_count_up(turns: Seq<Turn>, i: int, j: int)
    requires
        connection(turns),
        0 <= i <= j < turns.len(),
    ensures
        turns[i].opens() matches Some(id) ==> id == 1 + opened_before(turns, i),
        i < j && turns[i].opens() is Some && turns[j].opens() is Some ==> turns[i].opens()->0
            < turns[j].opens()->0,
{
    lemma_state(turns, i);
    lemma_state(turns, j);
    assert(turns[i].holds() && turns[j].holds());
    if i < j {
        lemma_opened_grows(turns, i + 1, j);
    }
}

/// A device is opened only where its node is one of the seat's that is announced now and the
/// seat opens it, and always there.
pub proof fn only_announced_nodes_are_opened(turn: Turn)
    requires
        turn.holds(),
    ensures
        turn.opens() is Some <==> (turn.request matches Request::Open { path } && is_seat_node(path@)
            && announced(turn.before.devices.known@, path@) && turn.outcome is Ok),
{
}

/// A close is done only of a device that was opened on the connection and not closed since, and
/// a second hello is refused.
pub proof fn only_the_open_are_closed(turns: Seq<Turn>, i: int)
    requires
        connection(turns),
        0 <= i < turns.len(),
    ensures
        turns[i].request matches Request::Close { id } ==> (turns[i].reply == Response::Done <==> (
        held(turns, i, id) && turns[i].outcome is Ok)),
        turns[i].request is Hello ==> turns[i].reply is Error,
{
    assert(turns[i].holds());
    if let Request::Close { id } = turns[i].request {
        lemma_held(turns, i, id);
    }
}

/// A hangup closes every device that is still open, each once, and no other.
pub proof fn hanging_up_closes_the_rest(
    turns: Seq<Turn>,
    last: Daemon,
    after: Daemon,
    ids: Seq<u32>,
    id: u32,
)
    requires
        connection(turns),
        last.wf(),
        last.open@ == open_after(turns, turns.len() as int),
        let_go(last, after, ids),
    ensures
        ids.contains(id) <==> held(turns, turns.len() as int, id),
        ids.no_duplicates(),
        after.open@ == Map::<u64, ()>::empty(),
        after.next_id == 1,
{
    let n = turns.len() as int;
    let rows = last.open.rows@;
    lemma_state(turns, n);
    lemma_held(turns, n, id);
    assert(unique_rows(rows));
    assert(last.open@ == rows_map(rows));
    assert(next_after(turns, n) <= u32::MAX) by {
        if n > 0 {
            assert(turns[n - 1].holds());
        }
    }
    assert forall|i: int| 0 <= i < rows.len() implies (#[trigger] rows[i]).0 <= u32::MAX by {
        assert(row_of(rows, rows[i].0, i));
        assert(has_row(rows, rows[i].0));
        assert(last.open@.contains_key(rows[i].0));
    }
    assert forall|i: int, j: int| 0 <= i < ids.len() && 0 <= j < ids.len() && i != j implies ids[i]
        != ids[j] by {
        assert(rows[i].0 != rows[j].0);
    }
    if held(turns, n, id) {
        assert(has_row(rows, id as u64));
        let i = choose|i: int| #[trigger] row_of(rows, id as u64, i);
        assert(ids[i] == id);
    }
    if ids.contains(id) {
        let i = choose|i: int| 0 <= i < ids.len() && ids[i] == id;
        assert(row_of(rows, id as u64, i));
        assert(has_row(rows, id as u64));
    }
}

} // verus!
