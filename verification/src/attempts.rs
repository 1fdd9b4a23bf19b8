//! What attempts at the PIN cost and come to, and what the lock screen takes and shows.
use vstd::prelude::*;
use vstd::string::*;
use vstd::utf8::*;

use crate::auth::{
    delay, doubled, enrolment, hash_check, pin_of, private_write, reply_of, told_of, unlock_for,
    AuthView, Event, File, Outcome, Response, Step, Store, Told, Tried,
};
use crate::chooser::Press;
use crate::lock::LockView;
use crate::text::{decimal, is_control, quoted, trimmed};

verus! {

/// The first five wrong PINs cost nothing, the sixth half a minute, and each one after that
/// twice what the one before cost, up to an hour.
pub proof fn the_delay_doubles(failures: nat)
    ensures
        failures <= 5 ==> delay(failures) == 0,
        delay(6) == 30_000_000_000,
        failures >= 6 && 2 * delay(failures) <= 3_600_000_000_000 ==> delay(failures + 1) == 2
            * delay(failures),
        failures >= 6 && 2 * delay(failures) > 3_600_000_000_000 ==> delay(failures + 1)
            == 3_600_000_000_000,
{
    assert(doubled(0) == 1);
    if failures >= 6 {
        let n = (failures - 6) as nat;
        let d = doubled(n);
        assert(doubled(n + 1) == 2 * d);
        assert(30_000_000_000 * (2 * d) == 2 * (30_000_000_000 * d)) by (nonlinear_arith);
    }
}

/// What a PIN comes to once attempts count again: the right one is granted and the count starts
/// over; a wrong one is counted, denied, and costs the delay of that count. Both are on disk.
pub proof fn an_attempt_is_counted(auth: AuthView, s: Seq<char>, pin: Seq<u8>, now: nat)
    requires
        auth.retry_at is None || auth.retry_at->0 <= now,
        auth.store.pin == File::Text(s),
        auth.failures < u32::MAX,
    ensures
        hash_check(trimmed(s), pin) == Ok::<bool, Seq<char>>(true) ==> auth.verified(
            pin,
            now,
            Ok(()),
        ) == (
            AuthView {
                store: Store { pin: auth.store.pin, failures: File::Text(decimal(0)) },
                failures: 0,
                retry_at: None,
            },
            Ok::<Outcome, Seq<char>>(Outcome::Granted),
        ),
        hash_check(trimmed(s), pin) == Ok::<bool, Seq<char>>(false) ==> {
            let n = (auth.failures + 1) as nat;
            auth.verified(pin, now, Ok(())) == (
                AuthView {
                    store: Store { pin: auth.store.pin, failures: File::Text(decimal(n)) },
                    failures: n,
                    retry_at: if n <= 5 {
                        None
                    } else {
                        Some((now + delay(n)) as nat)
                    },
                },
                Ok::<Outcome, Seq<char>>(Outcome::Denied { retry_after: delay(n) as u128 }),
            )
        },
        hash_check(trimmed(s), pin) is Err ==> auth.verified(pin, now, Ok(())) == (
            auth,
            Err::<Outcome, Seq<char>>(
                "bad PIN file: "@ + hash_check(trimmed(s), pin)->Err_0,
            ),
        ),
{
    crate::auth::delays_grow((auth.failures + 1) as nat, (auth.failures + 1) as nat);
}

/// An attempt whose count cannot be written grants nothing and says why; and without a PIN to
/// go by nothing is granted and nothing counted.
pub proof fn nothing_is_granted_uncounted(
    auth: AuthView,
    pin: Seq<u8>,
    now: nat,
    e: Seq<char>,
    written: Result<(), Seq<char>>,
)
    requires
        auth.retry_at is None || auth.retry_at->0 <= now,
    ensures
        auth.store.pin is Text && hash_check(trimmed(auth.store.pin->Text_0), pin) is Ok
            ==> auth.verified(pin, now, Err(e)).1 == Err::<Outcome, Seq<char>>(e),
        auth.store.pin is Missing ==> auth.verified(pin, now, written) == (
            auth,
            Err::<Outcome, Seq<char>>("no PIN enrolled"@),
        ),
        auth.store.pin is Unreadable ==> auth.verified(pin, now, written) == (
            auth,
            Err::<Outcome, Seq<char>>(auth.store.pin->Unreadable_0),
        ),
{
}

/// An attempt that comes too early is denied for the time that is left, and changes nothing.
pub proof fn the_time_left_is_told(
    auth: AuthView,
    pin: Seq<u8>,
    now: nat,
    written: Result<(), Seq<char>>,
)
    requires
        auth.retry_at is Some,
        now < auth.retry_at->0 <= u128::MAX,
    ensures
        auth.verified(pin, now, written) == (
            auth,
            Ok::<Outcome, Seq<char>>(
                Outcome::Denied { retry_after: (auth.retry_at->0 - now) as u128 },
            ),
        ),
{
}

/// The count that is read is the one that was written; one that cannot be read is none.
pub proof fn the_count_reads_back(n: u32, pin: File<Seq<char>>, e: Seq<char>)
    ensures
        (Store { pin, failures: File::Text(decimal(n as nat)) }).counted() == n,
        (Store { pin, failures: File::Missing }).counted() == 0,
        (Store { pin, failures: File::Unreadable(e) }).counted() == 0,
        (Store { pin, failures: File::Missing }).enrolled() <==> !(pin is Missing),
{
    let s = decimal(n as nat);
    crate::text::decimal_reads_back(n as nat, u32::MAX as nat);
    crate::text::lemma_decimal_digits(n as nat);
    assert(crate::text::is_digit(s[0]) && crate::text::is_digit(s.last()));
    assert(trimmed(s) == s);
}

/// A file is replaced in four steps: written beside under a name of its own that only its owner
/// can read, synced, and only then put in its place.
pub proof fn files_are_replaced_whole(name: Seq<char>, data: Seq<char>)
    ensures
        ({
            let steps = private_write(name, data);
            let beside = "."@ + name + ".tmp"@;
            &&& steps.len() == 4
            &&& steps[0] == (Step::Create { name: beside, mode: 384u32 })
            &&& steps[1] == (Step::Data { data })
            &&& steps[2] == Step::<Seq<char>>::Sync
            &&& steps[3] == (Step::Rename { from: beside, to: name })
        }),
{
}

/// Enrolling makes the directory, closes it to everyone else, and replaces the PIN's file and
/// then the count, which starts at 0.
pub proof fn enrolling_starts_over(hash: Seq<char>)
    ensures
        enrolment(hash).len() == 10,
        enrolment(hash)[0] == Step::<Seq<char>>::MakeDir,
        enrolment(hash)[1] == (Step::<Seq<char>>::Mode { mode: 448u32 }),
        enrolment(hash).subrange(2, 6) == private_write("pin"@, hash),
        enrolment(hash).subrange(6, 10) == private_write("failures"@, "0"@),
{
    assert(enrolment(hash).subrange(2, 6) =~= private_write("pin"@, hash));
    assert(enrolment(hash).subrange(6, 10) =~= private_write("failures"@, "0"@));
}

/// Of a typed line the ends of lines at its end are no part of the PIN, and everything before
/// them is.
pub proof fn the_pin_ends_before_the_line(line: Seq<u8>)
    ensures
        pin_of(line).len() <= line.len(),
        pin_of(line) == line.take(pin_of(line).len() as int),
        pin_of(line).len() > 0 ==> pin_of(line).last() != 10 && pin_of(line).last() != 13,
        forall|i: int|
            pin_of(line).len() <= i < line.len() ==> #[trigger] line[i] == 10 || line[i] == 13,
    decreases line.len(),
{
    if line.len() > 0 && (line.last() == 10 || line.last() == 13) {
        let front = line.drop_last();
        the_pin_ends_before_the_line(front);
        assert(front.take(pin_of(front).len() as int) =~= line.take(pin_of(front).len() as int));
        assert forall|i: int| pin_of(line).len() <= i < line.len() implies #[trigger] line[i] == 10
            || line[i] == 13 by {
            if i < front.len() {
                assert(front[i] == line[i]);
            }
        }
    } else {
        assert(line.take(line.len() as int) =~= line);
    }
}

/// What the lock screen hears: that it is granted only where the compositor was told; the time
/// left in milliseconds; and what went wrong. The compositor is told of nothing but a grant.
pub proof fn the_lock_screen_hears(
    retry_after: u128,
    e: Seq<char>,
    told: Told,
    connected: bool,
    outcome: Result<Outcome, Seq<char>>,
    sent: bool,
    idle_timeout: u64,
)
    ensures
        reply_of(Ok(Outcome::Granted), Told::Sent) == Response::<Seq<char>>::Granted,
        told != Told::Sent ==> reply_of(Ok(Outcome::Granted), told) == Response::Error(
            "compositor not connected"@,
        ),
        retry_after / 1_000_000 <= u64::MAX ==> reply_of(
            Ok(Outcome::Denied { retry_after }),
            told,
        ) == (Response::<Seq<char>>::Denied {
            retry_after_ms: (retry_after / 1_000_000) as u64,
        }),
        reply_of(Err(e), told) == Response::Error(e),
        told_of(connected, outcome, sent) == Told::Sent <==> connected && sent && outcome
            == Ok::<Outcome, Seq<char>>(Outcome::Granted),
        told_of(connected, outcome, sent) == Told::Lost <==> connected && !sent && outcome
            == Ok::<Outcome, Seq<char>>(Outcome::Granted),
        idle_timeout * 1000 <= u64::MAX ==> unlock_for(idle_timeout) == (Event::Unlock {
            idle_timeout_ms: (idle_timeout * 1000) as u64,
        }),
{
}

/// What the keys do on the lock screen while nothing was granted: what is typed joins the PIN
/// where it holds no control character and the whole fits in 32 bytes, BackSpace takes the last
/// byte back, Escape all of it and what was said, and nothing else does anything.
pub proof fn the_lock_takes_a_short_pin(lock: LockView, s: Seq<char>)
    requires
        !lock.granted,
    ensures
        ({
            let fits = lock.pin.len() + encode_utf8(s).len() <= 32 && forall|i: int|
                0 <= i < s.len() ==> !is_control(#[trigger] s[i]);
            &&& fits ==> lock.pressed(Press::Typed(s)) == (
                LockView { pin: lock.pin + encode_utf8(s), message: Seq::empty(), ..lock },
                true,
            )
            &&& !fits ==> lock.pressed(Press::Typed(s)) == (lock, false)
        }),
        lock.pin.len() > 0 ==> lock.pressed(Press::BackSpace) == (
            LockView { pin: lock.pin.take(lock.pin.len() - 1), ..lock },
            true,
        ),
        lock.pin.len() == 0 ==> lock.pressed(Press::BackSpace) == (lock, true),
        lock.pressed(Press::Escape) == (
            LockView { pin: Seq::empty(), message: Seq::empty(), ..lock },
            true,
        ),
        lock.pressed(Press::Enter) == (lock, false),
        lock.pressed(Press::Up) == (lock, false),
        lock.pressed(Press::Down) == (lock, false),
        lock.pressed(Press::Left) == (lock, false),
{
    if lock.pin.len() > 0 {
        assert(lock.pin.drop_last() =~= lock.pin.take(lock.pin.len() - 1));
    }
}

/// What is said of an answer: nothing of a right PIN, how many seconds to wait after a wrong
/// one, rounded up, and what went wrong with the service. Only a grant is a grant.
pub proof fn the_lock_says_how_long(lock: LockView, ms: u64, e: Seq<char>)
    ensures
        lock.answered(Response::Granted) == (LockView {
            granted: true,
            message: Seq::empty(),
            ..lock
        }),
        lock.answered(Response::Denied { retry_after_ms: 0 }) == (LockView {
            message: "Wrong PIN"@,
            ..lock
        }),
        ms > 0 ==> exists|secs: nat|
            {
                &&& (secs - 1) * 1000 < ms <= secs * 1000
                &&& lock.answered(Response::Denied { retry_after_ms: ms }) == (LockView {
                    message: "Wrong PIN, try again in "@ + #[trigger] decimal(secs) + " s"@,
                    ..lock
                })
            },
        lock.answered(Response::Error(e)) == (LockView {
            message: "Auth failed: Error("@ + quoted(e) + ")"@,
            ..lock
        }),
{
    if ms > 0 {
        let secs = ((ms + 999) / 1000) as nat;
        assert((secs - 1) * 1000 < ms <= secs * 1000);
        assert(decimal(secs) == decimal(secs));
    }
}

/// What stands on the lock's line: a dot for each byte that was typed, and words where nothing
/// was or where it was right.
pub proof fn the_line_shows_dots(lock: LockView)
    ensures
        lock.granted ==> lock.line() == "Unlocking\u{2026}"@,
        !lock.granted && lock.pin.len() == 0 ==> lock.line() == "Enter PIN"@,
        !lock.granted && lock.pin.len() > 0 ==> lock.line().len() == lock.pin.len() && forall|i: int|
            0 <= i < lock.line().len() ==> #[trigger] lock.line()[i] == '\u{25cf}',
{
}

/// So many seconds went by.
pub open spec fn seconds(lock: LockView, n: nat) -> LockView
    decreases n,
{
    if n == 0 {
        lock
    } else {
        seconds(lock, (n - 1) as nat).ticked().0
    }
}

/// A grant that the compositor does not follow up stands for ten seconds and is taken back in
/// the eleventh, with a word about it.
pub proof fn a_grant_stands_ten_seconds(lock: LockView, n: nat)
    requires
        lock.granted,
        lock.ticks == 0,
        n <= 10,
    ensures
        seconds(lock, n) == (LockView { ticks: n, ..lock }),
        seconds(lock, 11) == (LockView {
            granted: false,
            message: "Unlock did not go through, try again"@,
            ..lock
        }),
    decreases n,
{
    if n > 0 {
        a_grant_stands_ten_seconds(lock, (n - 1) as nat);
    }
    lemma_seconds(lock, 10);
}

proof fn lemma_seconds(lock: LockView, n: nat)
    requires
        lock.granted,
        lock.ticks == 0,
        n <= 10,
    ensures
        seconds(lock, n) == (LockView { ticks: n, ..lock }),
    decreases n,
{
    if n > 0 {
        lemma_seconds(lock, (n - 1) as nat);
    }
}

/// A right PIN ends the count here even where it cannot be written, and a wrong one counts; the
/// disk says what it said. The count stops where it cannot grow.
pub proof fn attempts_count_before_they_are_written(
    auth: AuthView,
    pin: Seq<u8>,
    now: nat,
    e: Seq<char>,
)
    requires
        auth.retry_at is None || auth.retry_at->0 <= now,
        auth.store.pin is Text,
    ensures
        ({
            let check = hash_check(trimmed(auth.store.pin->Text_0), pin);
            let after = auth.verified(pin, now, Err(e)).0;
            &&& check == Ok::<bool, Seq<char>>(true) ==> after == (AuthView {
                failures: 0,
                retry_at: None,
                ..auth
            })
            &&& check == Ok::<bool, Seq<char>>(false) && auth.failures < u32::MAX ==> after == (
            AuthView { failures: (auth.failures + 1) as nat, ..auth })
            &&& check == Ok::<bool, Seq<char>>(false) && auth.failures == u32::MAX ==> after
                == auth
        }),
{
}

/// A PIN that is tried is held off, failed, right or wrong, before anything is written.
pub proof fn trying_comes_before_writing(auth: AuthView, pin: Seq<u8>, now: nat)
    ensures
        ({
            let (after, tried) = auth.tried(pin, now);
            let held = auth.retry_at is Some && now < auth.retry_at->0;
            let check = hash_check(trimmed(auth.store.pin->Text_0), pin);
            &&& held ==> after == auth && tried == (Tried::<Seq<char>>::Held {
                retry_after: (auth.retry_at->0 - now) as u128,
            })
            &&& !held && auth.store.pin is Text && check == Ok::<bool, Seq<char>>(true) ==> tried
                == Tried::<Seq<char>>::Right
            &&& !held && auth.store.pin is Text && check == Ok::<bool, Seq<char>>(false) ==> tried
                == Tried::<Seq<char>>::Wrong
            &&& !held && auth.store.pin is Missing ==> after == auth && tried == Tried::Failed(
                "no PIN enrolled"@,
            )
        }),
{
}

} // verus!
