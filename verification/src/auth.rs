//! The lock PIN. The lock screen sends `Verify` with the PIN; a right one makes the daemon tell
//! the compositor to unlock. Wrong ones are counted on disk, and past a few each costs a
//! growing delay.
use argon2::password_hash::{PasswordHash, PasswordHasher, PasswordVerifier, SaltString};
use argon2::Argon2;
use rand_core::OsRng;
use std::time::Instant;
use vstd::prelude::*;
use vstd::string::*;
use zeroize::Zeroize;

use crate::text::{
    chars_of, decimal, decimal_reads_back, is_space, number, read_unsigned,
    string_of, trim, trimmed, unsigned,
};
use crate::views::{group_views, views, why};

verus! {

pub const MAX_MSG: usize = 4096;

/// Free attempts before the delay kicks in.
pub const FREE_ATTEMPTS: u32 = 5;

/// The first delay, in nanoseconds.
pub const BASE_DELAY: u128 = 30_000_000_000;

/// The longest delay, in nanoseconds.
pub const MAX_DELAY: u128 = 3_600_000_000_000;

/// The longest time std can hold, in nanoseconds.
pub const MAX_TIME: u128 = 18_446_744_073_709_551_615_999_999_999;

#[derive(Debug)]
pub enum Request {
    Verify { secret: Vec<u8> },
}

/// An answer. `T` is text.
#[derive(Debug)]
pub enum Response<T> {
    Granted,
    Denied { retry_after_ms: u64 },
    Error(T),
}

impl View for Response<String> {
    type V = Response<Seq<char>>;

    open spec fn view(&self) -> Response<Seq<char>> {
        match *self {
            Response::Granted => Response::Granted,
            Response::Denied { retry_after_ms } => Response::Denied { retry_after_ms },
            Response::Error(e) => Response::Error(e@),
        }
    }
}

#[derive(Debug, Clone, Copy, PartialEq, Eq, Structural)]
pub enum Event {
    /// The PIN was right: unlock for this long of inactivity.
    Unlock { idle_timeout_ms: u64 },
}

/// The PHC string of a PIN under a salt, or what is wrong with the two.
pub uninterp spec fn hashed(pin: Seq<u8>, salt: Seq<char>) -> Result<Seq<char>, Seq<char>>;

/// Whether a PHC string is that of a PIN, or what is wrong with the string.
pub uninterp spec fn hash_check(text: Seq<char>, pin: Seq<u8>) -> Result<bool, Seq<char>>;

/// A text that is a hash of a PIN: it has no white space at either end, and is the PIN's.
pub open spec fn is_hash_of(hash: Seq<char>, pin: Seq<u8>) -> bool {
    &&& hash.len() > 0 && !is_space(hash[0]) && !is_space(hash.last())
    &&& hash_check(hash, pin) == Ok::<bool, Seq<char>>(true)
}

/// A hash under a salt tells PINs apart by their own hashes under it: a PIN passes exactly where
/// its hash is the same.
pub open spec fn tells_apart(hash: Seq<char>, salt: Seq<char>) -> bool {
    forall|q: Seq<u8>| #[trigger]
        hash_check(hash, q) == Ok::<bool, Seq<char>>(
            hashed(q, salt) == Ok::<Seq<char>, Seq<char>>(hash),
        )
}

/// `SaltString::generate` of password-hash with the system's random numbers: a fresh salt, as
/// text. Nothing is claimed of which.
#[verifier::external_body]
fn fresh_salt() -> (r: String) {
    SaltString::generate(&mut OsRng).as_str().to_owned()
}

/// `Argon2::hash_password` with the default parameters, as text: its result depends on the PIN
/// and the salt alone, and has no white space at either end. `Argon2::verify_password` hashes
/// what it is given with the salt and the parameters in the text and compares, so the PIN
/// passes, and another exactly where its hash is the same. That no other PIN has the same hash
/// is not stated.
#[verifier::external_body]
fn hash_pin(pin: &[u8], salt: &str) -> (r: Result<String, String>)
    ensures
        match r {
            Ok(h) => {
                &&& hashed(pin@, salt@) == Ok::<Seq<char>, Seq<char>>(h@)
                &&& is_hash_of(h@, pin@)
                &&& tells_apart(h@, salt@)
            },
            Err(e) => hashed(pin@, salt@) == Err::<Seq<char>, Seq<char>>(e@),
        },
{
    let salt = SaltString::from_b64(salt).map_err(|e| e.to_string())?;
    let hash = Argon2::default().hash_password(pin, &salt).map_err(|e| e.to_string())?;
    Ok(hash.to_string())
}

/// `Argon2::verify_password` on a hash read by `PasswordHash::new`: whether it is the PIN's
/// depends on the two alone, and so does what is wrong with the text.
#[verifier::external_body]
fn check_hash(text: &str, pin: &[u8]) -> (r: Result<bool, String>)
    ensures
        match r {
            Ok(b) => hash_check(text@, pin@) == Ok::<bool, Seq<char>>(b),
            Err(e) => hash_check(text@, pin@) == Err::<bool, Seq<char>>(e@),
        },
{
    let hash = PasswordHash::new(text).map_err(|e| e.to_string())?;
    Ok(Argon2::default().verify_password(pin, &hash).is_ok())
}

/// `Zeroize::zeroize` of zeroize on a vector of bytes: nothing is left in it. That the memory
/// is wiped too is not stated.
#[verifier::external_body]
pub(crate) fn wipe(bytes: &mut Vec<u8>)
    ensures
        final(bytes)@ == Seq::<u8>::empty(),
{
    bytes.zeroize()
}

/// std's clock at some moment.
#[verifier::external_type_specification]
#[verifier::external_body]
pub struct ExInstant(Instant);

/// `Instant::now` of std. Nothing is claimed of which moment it is.
#[verifier::external_body]
fn moment() -> (r: Instant) {
    Instant::now()
}

/// `Instant::elapsed` of std, in nanoseconds: no more than a `Duration` holds.
#[verifier::external_body]
fn elapsed(since: &Instant) -> (r: u128)
    ensures
        r <= MAX_TIME,
{
    since.elapsed().as_nanos()
}

/// A file of the state directory. `T` is text.
#[derive(Debug)]
pub enum File<T> {
    Missing,
    /// It is there and cannot be read.
    Unreadable(T),
    Text(T),
}

impl View for File<String> {
    type V = File<Seq<char>>;

    open spec fn view(&self) -> File<Seq<char>> {
        match *self {
            File::Missing => File::Missing,
            File::Unreadable(e) => File::Unreadable(e@),
            File::Text(s) => File::Text(s@),
        }
    }
}

/// On-disk PIN verifier and failure count, as they were last read. `T` is text.
#[derive(Debug)]
pub struct Store<T> {
    pub pin: File<T>,
    pub failures: File<T>,
}

impl View for Store<String> {
    type V = Store<Seq<char>>;

    open spec fn view(&self) -> Store<Seq<char>> {
        Store { pin: self.pin@, failures: self.failures@ }
    }
}

impl Store<Seq<char>> {
    /// A PIN is enrolled.
    pub open spec fn enrolled(self) -> bool {
        !(self.pin is Missing)
    }

    /// Whether the PIN is the enrolled one, or why that cannot be said.
    pub open spec fn checked(self, pin: Seq<u8>) -> Result<bool, Seq<char>> {
        match self.pin {
            File::Missing => Err("no PIN enrolled"@),
            File::Unreadable(e) => Err(e),
            File::Text(s) => match hash_check(trimmed(s), pin) {
                Ok(b) => Ok(b),
                Err(e) => Err("bad PIN file: "@ + e),
            },
        }
    }

    /// The failures counted; none where the count cannot be read.
    pub open spec fn counted(self) -> nat {
        match self.failures {
            File::Text(s) => match unsigned(trimmed(s), u32::MAX as nat) {
                Some(n) => n,
                None => 0,
            },
            _ => 0,
        }
    }
}

/// What is done to the state directory, in order. `T` is text.
#[derive(Debug)]
pub enum Step<T> {
    /// The directory is made, with all above it.
    MakeDir,
    /// The directory's mode.
    Mode { mode: u32 },
    /// A file is opened to be written afresh, with this mode if it is new.
    Create { name: T, mode: u32 },
    Data { data: T },
    Sync,
    Rename { from: T, to: T },
}

impl View for Step<String> {
    type V = Step<Seq<char>>;

    open spec fn view(&self) -> Step<Seq<char>> {
        match *self {
            Step::MakeDir => Step::MakeDir,
            Step::Mode { mode } => Step::Mode { mode },
            Step::Create { name, mode } => Step::Create { name: name@, mode },
            Step::Data { data } => Step::Data { data: data@ },
            Step::Sync => Step::Sync,
            Step::Rename { from, to } => Step::Rename { from: from@, to: to@ },
        }
    }
}

/// How a file is replaced: beside it first, and synced, so that it is never half there; and
/// nobody else can read it.
pub open spec fn private_write(name: Seq<char>, data: Seq<char>) -> Seq<Step<Seq<char>>> {
    let tmp = "."@ + name + ".tmp"@;
    seq![
        Step::Create { name: tmp, mode: 0o600 },
        Step::Data { data },
        Step::Sync,
        Step::Rename { from: tmp, to: name },
    ]
}

/// How a PIN is enrolled by its hash.
pub open spec fn enrolment(hash: Seq<char>) -> Seq<Step<Seq<char>>> {
    seq![Step::<Seq<char>>::MakeDir, Step::Mode { mode: 0o700 }] + private_write("pin"@, hash)
        + private_write("failures"@, "0"@)
}

/// How a file is replaced.
pub fn write_private(name: &str, data: &str) -> (r: Vec<Step<String>>)
    ensures
        views(r@) == private_write(name@, data@),
{
    broadcast use group_views;

    let mut tmp = ".".to_owned();
    tmp.append(name);
    tmp.append(".tmp");
    let mut steps: Vec<Step<String>> = Vec::new();
    steps.push(Step::Create { name: tmp.clone(), mode: 0o600 });
    steps.push(Step::Data { data: data.to_owned() });
    steps.push(Step::Sync);
    steps.push(Step::Rename { from: tmp, to: name.to_owned() });
    assert(views(steps@) =~= private_write(name@, data@));
    steps
}

/// How a PIN is enrolled under a salt.
pub fn enrol(pin: &[u8], salt: &str) -> (r: Result<Vec<Step<String>>, String>)
    ensures
        match (hashed(pin@, salt@), r) {
            (Ok(h), Ok(steps)) => {
                &&& views(steps@) == enrolment(h)
                &&& is_hash_of(h, pin@)
                &&& tells_apart(h, salt@)
            },
            (Err(e), Err(f)) => f@ == "hashing the PIN: "@ + e,
            _ => false,
        },
{
    broadcast use group_views;

    match hash_pin(pin, salt) {
        Ok(hash) => {
            let mut steps: Vec<Step<String>> = Vec::new();
            steps.push(Step::MakeDir);
            steps.push(Step::Mode { mode: 0o700 });
            steps.append(&mut write_private("pin", hash.as_str()));
            steps.append(&mut write_private("failures", "0"));
            assert(views(steps@) =~= enrolment(hash@));
            Ok(steps)
        },
        Err(e) => {
            let mut reason = "hashing the PIN: ".to_owned();
            reason.append(e.as_str());
            Err(reason)
        },
    }
}

/// A PIN as it was typed, without the line's end; none where nothing is left.
pub open spec fn pin_of(line: Seq<u8>) -> Seq<u8>
    decreases line.len(),
{
    if line.len() > 0 && (line.last() == 10 || line.last() == 13) {
        pin_of(line.drop_last())
    } else {
        line
    }
}

/// A PIN as it was typed: without the line's end, and not empty.
pub fn read_pin(line: Vec<u8>) -> (r: Result<Vec<u8>, String>)
    ensures
        match r {
            Ok(pin) => pin@ == pin_of(line@) && pin@.len() > 0,
            Err(e) => pin_of(line@).len() == 0 && e@ == "empty PIN"@,
        },
{
    let mut pin = line;
    while pin.len() > 0 && (pin[pin.len() - 1] == 10 || pin[pin.len() - 1] == 13)
        invariant
            pin_of(pin@) == pin_of(line@),
        ensures
            pin@ == pin_of(line@),
        decreases pin@.len(),
    {
        let ghost before = pin@;
        let _ = pin.pop();
        assert(pin@ =~= before.drop_last());
    }
    if pin.len() == 0 {
        return Err("empty PIN".to_owned());
    }
    Ok(pin)
}

impl Store<String> {
    pub fn new(pin: File<String>, failures: File<String>) -> (r: Store<String>)
        ensures
            r == (Store { pin, failures }),
    {
        Store { pin, failures }
    }

    /// Enrols a PIN under a fresh salt: what is to be done for it.
    pub fn set_pin(pin: &[u8]) -> (r: Result<Vec<Step<String>>, String>)
        ensures
            exists|salt: Seq<char>|
                match (#[trigger] hashed(pin@, salt), r) {
                    (Ok(h), Ok(steps)) => {
                        &&& views(steps@) == enrolment(h)
                        &&& is_hash_of(h, pin@)
                        &&& tells_apart(h, salt)
                    },
                    (Err(e), Err(f)) => f@ == "hashing the PIN: "@ + e,
                    _ => false,
                },
    {
        let salt = fresh_salt();
        let r = enrol(pin, salt.as_str());
        assert(hashed(pin@, salt@) == hashed(pin@, salt@));
        r
    }

    /// Whether a PIN is enrolled.
    pub fn has_pin(&self) -> (r: bool)
        ensures
            r == self@.enrolled(),
    {
        match self.pin {
            File::Missing => false,
            _ => true,
        }
    }

    /// Whether the PIN is the enrolled one.
    pub fn check(&self, pin: &[u8]) -> (r: Result<bool, String>)
        ensures
            match r {
                Ok(b) => self@.checked(pin@) == Ok::<bool, Seq<char>>(b),
                Err(e) => self@.checked(pin@) == Err::<bool, Seq<char>>(e@),
            },
    {
        match &self.pin {
            File::Missing => Err("no PIN enrolled".to_owned()),
            File::Unreadable(e) => Err(e.clone()),
            File::Text(s) => {
                let text = trim(&chars_of(s.as_str()));
                assert(text@.subrange(0, text@.len() as int) =~= text@);
                match check_hash(string_of(&text, 0, text.len()).as_str(), pin) {
                    Ok(b) => Ok(b),
                    Err(e) => {
                        let mut reason = "bad PIN file: ".to_owned();
                        reason.append(e.as_str());
                        Err(reason)
                    },
                }
            },
        }
    }

    /// The failures counted.
    pub fn failures(&self) -> (r: u32)
        ensures
            r == self@.counted(),
    {
        match &self.failures {
            File::Text(s) => match read_unsigned(&trim(&chars_of(s.as_str())), u32::MAX as u64) {
                Some(n) => n as u32,
                None => 0,
            },
            _ => 0,
        }
    }
}

#[derive(Debug, Clone, Copy, PartialEq, Eq, Structural)]
pub enum Outcome {
    Granted,
    /// In nanoseconds.
    Denied { retry_after: u128 },
}

/// Twice as long with each step.
pub open spec fn doubled(n: nat) -> nat
    decreases n,
{
    if n == 0 {
        1
    } else {
        2 * doubled((n - 1) as nat)
    }
}

/// The delay after so many failures, in nanoseconds: none for the first few, then half a minute,
/// twice that each time, and never over an hour.
pub open spec fn delay(failures: nat) -> nat {
    if failures <= FREE_ATTEMPTS {
        0
    } else {
        let d = BASE_DELAY * doubled((failures - FREE_ATTEMPTS - 1) as nat);
        if d < MAX_DELAY {
            d as nat
        } else {
            MAX_DELAY as nat
        }
    }
}

proof fn lemma_doubled_grows(a: nat, b: nat)
    requires
        a <= b,
    ensures
        1 <= doubled(a) <= doubled(b),
    decreases b,
{
    if b > 0 {
        if a < b {
            lemma_doubled_grows(a, (b - 1) as nat);
        } else {
            lemma_doubled_grows((a - 1) as nat, (b - 1) as nat);
        }
    }
}

/// The delay after so many failures, in nanoseconds.
pub fn delay_for(failures: u32) -> (r: u128)
    ensures
        r == delay(failures as nat),
{
    if failures <= FREE_ATTEMPTS {
        return 0;
    }
    let over = failures - FREE_ATTEMPTS - 1;
    let steps = if over < 8 {
        over
    } else {
        8
    };
    let mut factor: u128 = 1;
    let mut i: u32 = 0;
    while i < steps
        invariant
            i <= steps <= 8,
            factor == doubled(i as nat),
            factor <= 256,
            i == 0 ==> factor == 1,
            i == 1 ==> factor == 2,
            i == 2 ==> factor == 4,
            i == 3 ==> factor == 8,
            i == 4 ==> factor == 16,
            i == 5 ==> factor == 32,
            i == 6 ==> factor == 64,
            i == 7 ==> factor == 128,
            i == 8 ==> factor == 256,
        decreases steps - i,
    {
        factor = factor * 2;
        i = i + 1;
    }
    proof {
        lemma_doubled_grows(8, over as nat + 8);
        if over >= 8 {
            lemma_doubled_grows(8, over as nat);
        }
    }
    let d = BASE_DELAY * factor;
    if d < MAX_DELAY {
        d
    } else {
        MAX_DELAY
    }
}

/// A delay never shrinks with more failures, never exceeds the longest, and is none for the
/// free attempts alone.
pub proof fn delays_grow(a: nat, b: nat)
    requires
        a <= b,
    ensures
        delay(a) <= delay(b) <= MAX_DELAY,
        delay(a) == 0 <==> a <= FREE_ATTEMPTS,
{
    if a > FREE_ATTEMPTS {
        let x = (a - FREE_ATTEMPTS - 1) as nat;
        let y = (b - FREE_ATTEMPTS - 1) as nat;
        lemma_doubled_grows(x, y);
        assert(BASE_DELAY * doubled(x) <= BASE_DELAY * doubled(y)) by (nonlinear_arith)
            requires
                doubled(x) <= doubled(y),
        ;
        assert(BASE_DELAY * doubled(x) >= BASE_DELAY) by (nonlinear_arith)
            requires
                doubled(x) >= 1,
        ;
    }
}

/// Verification with an escalating delay after wrong PINs. The failure count survives restarts;
/// the delay itself restarts from the count.
#[derive(Debug)]
pub struct Auth {
    pub store: Store<String>,
    failures: u32,
    retry_at: Option<u128>,
    clock: Instant,
}

/// The same by value; times are since the daemon started, in nanoseconds.
pub struct AuthView {
    pub store: Store<Seq<char>>,
    pub failures: nat,
    pub retry_at: Option<nat>,
}

impl View for Auth {
    type V = AuthView;

    closed spec fn view(&self) -> AuthView {
        AuthView {
            store: self.store@,
            failures: self.failures as nat,
            retry_at: match self.retry_at {
                Some(at) => Some(at as nat),
                None => None,
            },
        }
    }
}

/// When the next attempt counts, after so many failures.
pub open spec fn retry(now: nat, failures: nat) -> Option<nat> {
    if delay(failures) == 0 {
        None
    } else {
        Some(now + delay(failures))
    }
}

/// What a PIN comes to before its count is written.
#[derive(Debug)]
pub enum Tried<T> {
    /// It is too early: the PIN was not looked at.
    Held { retry_after: u128 },
    Failed(T),
    /// The PIN is right, and the count is to be written.
    Right,
    /// The PIN is wrong, and the count is to be written.
    Wrong,
}

impl View for Tried<String> {
    type V = Tried<Seq<char>>;

    open spec fn view(&self) -> Tried<Seq<char>> {
        match *self {
            Tried::Held { retry_after } => Tried::Held { retry_after },
            Tried::Failed(e) => Tried::Failed(e@),
            Tried::Right => Tried::Right,
            Tried::Wrong => Tried::Wrong,
        }
    }
}

impl AuthView {
    /// It is too early for another attempt.
    pub open spec fn held(self, now: nat) -> bool {
        self.retry_at is Some && now < self.retry_at->0
    }

    /// One failure more.
    pub open spec fn one_more(self) -> nat {
        if self.failures < u32::MAX {
            self.failures + 1
        } else {
            self.failures
        }
    }

    /// What a PIN comes to before its count is written, and the state then.
    pub open spec fn tried(self, pin: Seq<u8>, now: nat) -> (AuthView, Tried<Seq<char>>) {
        if self.held(now) {
            (self, Tried::Held { retry_after: (self.retry_at->0 - now) as u128 })
        } else if !self.store.enrolled() {
            (self, Tried::Failed("no PIN enrolled"@))
        } else {
            match self.store.checked(pin) {
                Err(e) => (self, Tried::Failed(e)),
                Ok(true) => (AuthView { failures: 0, retry_at: None, ..self }, Tried::Right),
                Ok(false) => (AuthView { failures: self.one_more(), ..self }, Tried::Wrong),
            }
        }
    }

    /// The count on disk is this state's.
    pub open spec fn saved(self) -> AuthView {
        AuthView {
            store: Store { failures: File::Text(decimal(self.failures)), ..self.store },
            ..self
        }
    }

    /// What an attempt comes to once its count was written, or could not be.
    pub open spec fn settled(self, right: bool, now: nat, written: Result<(), Seq<char>>) -> (
        AuthView,
        Result<Outcome, Seq<char>>,
    ) {
        match written {
            Err(e) => (self, Err(e)),
            Ok(()) => if right {
                (self.saved(), Ok(Outcome::Granted))
            } else {
                (
                    AuthView { retry_at: retry(now, self.failures), ..self.saved() },
                    Ok(Outcome::Denied { retry_after: delay(self.failures) as u128 }),
                )
            },
        }
    }

    /// What an attempt comes to.
    pub open spec fn verified(self, pin: Seq<u8>, now: nat, written: Result<(), Seq<char>>) -> (
        AuthView,
        Result<Outcome, Seq<char>>,
    ) {
        let (after, tried) = self.tried(pin, now);
        match tried {
            Tried::Held { retry_after } => (after, Ok(Outcome::Denied { retry_after })),
            Tried::Failed(e) => (after, Err(e)),
            Tried::Right => after.settled(true, now, written),
            Tried::Wrong => after.settled(false, now, written),
        }
    }
}

impl Auth {
    /// Starts from what the store counted; the delay restarts now.
    pub fn new(store: Store<String>) -> (r: Auth)
        ensures
            r@.store == store@,
            r@.failures == store@.counted(),
            exists|now: nat| r@.retry_at == #[trigger] retry(now, store@.counted()),
    {
        let clock = moment();
        let now = elapsed(&clock);
        let r = Auth::new_at(store, clock, now);
        assert(r@.retry_at == retry(now as nat, store@.counted()));
        r
    }

    /// Starts from what the store counted; the delay restarts at `now` by the clock.
    fn new_at(store: Store<String>, clock: Instant, now: u128) -> (r: Auth)
        requires
            now <= MAX_TIME,
        ensures
            r@ == (AuthView {
                store: store@,
                failures: store@.counted(),
                retry_at: retry(now as nat, store@.counted()),
            }),
    {
        let failures = store.failures();
        let delay = delay_for(failures);
        proof {
            delays_grow(failures as nat, failures as nat);
        }
        let retry_at = if delay == 0 {
            None
        } else {
            Some(now + delay)
        };
        Auth { store, failures, retry_at, clock }
    }

    /// Verifies a PIN now. `written` is how writing the count goes, if it comes to that.
    pub fn verify(&mut self, pin: &[u8], written: Result<(), String>) -> (r: Result<Outcome, String>)
        ensures
            exists|now: nat|
                (final(self)@, why(r)) == #[trigger] old(self)@.verified(pin@, now, why(written)),
    {
        let now = self.now();
        self.verify_at(pin, now, written)
    }

    /// The time by the clock.
    pub fn now(&self) -> (r: u128)
        ensures
            r <= MAX_TIME,
    {
        elapsed(&self.clock)
    }

    /// Verifies a PIN at a time. `written` is how writing the count goes, if it comes to that.
    pub fn verify_at(&mut self, pin: &[u8], now: u128, written: Result<(), String>) -> (r: Result<Outcome, String>)
        requires
            now <= MAX_TIME,
        ensures
            (final(self)@, why(r)) == old(self)@.verified(pin@, now as nat, why(written)),
    {
        match self.try_pin(pin, now) {
            Tried::Held { retry_after } => Ok(Outcome::Denied { retry_after }),
            Tried::Failed(e) => Err(e),
            Tried::Right => self.settle(true, now, written),
            Tried::Wrong => self.settle(false, now, written),
        }
    }

    /// What a PIN comes to before its count is written.
    pub fn try_pin(&mut self, pin: &[u8], now: u128) -> (r: Tried<String>)
        ensures
            (final(self)@, r@) == old(self)@.tried(pin@, now as nat),
    {
        if let Some(at) = self.retry_at {
            if now < at {
                return Tried::Held { retry_after: at - now };
            }
        }
        if !self.store.has_pin() {
            return Tried::Failed("no PIN enrolled".to_owned());
        }
        match self.store.check(pin) {
            Err(e) => Tried::Failed(e),
            Ok(true) => {
                self.failures = 0;
                self.retry_at = None;
                Tried::Right
            },
            Ok(false) => {
                self.failures = if self.failures < u32::MAX {
                    self.failures + 1
                } else {
                    self.failures
                };
                Tried::Wrong
            },
        }
    }

    /// How the count is written.
    pub fn count_steps(&self) -> (r: Vec<Step<String>>)
        ensures
            views(r@) == private_write("failures"@, decimal(self@.failures)),
    {
        write_private("failures", number(self.failures as u64).as_str())
    }

    /// What an attempt comes to once its count was written, or could not be.
    pub fn settle(&mut self, right: bool, now: u128, written: Result<(), String>) -> (r: Result<Outcome, String>)
        requires
            now <= MAX_TIME,
        ensures
            (final(self)@, why(r)) == old(self)@.settled(right, now as nat, why(written)),
    {
        match written {
            Err(e) => Err(e),
            Ok(()) => {
                self.store.failures = File::Text(number(self.failures as u64));
                if right {
                    return Ok(Outcome::Granted);
                }
                let delay = delay_for(self.failures);
                proof {
                    delays_grow(self.failures as nat, self.failures as nat);
                }
                self.retry_at = if delay == 0 {
                    None
                } else {
                    Some(now + delay)
                };
                Ok(Outcome::Denied { retry_after: delay })
            },
        }
    }
}

/// How telling the compositor went.
#[derive(Debug, Clone, Copy, PartialEq, Eq, Structural)]
pub enum Told {
    Sent,
    /// The connection is lost with it.
    Lost,
    /// It was not connected.
    Absent,
}

/// What the lock screen hears of an attempt; `told` is how telling the compositor of a right
/// PIN went.
pub open spec fn reply_of(outcome: Result<Outcome, Seq<char>>, told: Told) -> Response<Seq<char>> {
    match outcome {
        Ok(Outcome::Granted) => if told == Told::Sent {
            Response::Granted
        } else {
            Response::Error("compositor not connected"@)
        },
        Ok(Outcome::Denied { retry_after }) => Response::Denied {
            retry_after_ms: (retry_after / 1_000_000) as u64,
        },
        Err(e) => Response::Error(e),
    }
}

/// What the lock screen hears of an attempt.
#[verifier::truncate]
pub fn reply(outcome: Result<Outcome, String>, told: Told) -> (r: Response<String>)
    ensures
        r@ == reply_of(why(outcome), told),
{
    match outcome {
        Ok(Outcome::Granted) => if told == Told::Sent {
            Response::Granted
        } else {
            Response::Error("compositor not connected".to_owned())
        },
        Ok(Outcome::Denied { retry_after }) => Response::Denied {
            retry_after_ms: (retry_after / 1_000_000) as u64,
        },
        Err(e) => Response::Error(e),
    }
}

/// The unlock for so many seconds of inactivity.
pub open spec fn unlock_for(idle_timeout: u64) -> Event {
    Event::Unlock { idle_timeout_ms: (idle_timeout as u128 * 1000) as u64 }
}

/// The unlock for so many seconds of inactivity.
#[verifier::truncate]
pub fn unlock(idle_timeout: u64) -> (r: Event)
    ensures
        r == unlock_for(idle_timeout),
{
    Event::Unlock { idle_timeout_ms: (idle_timeout as u128 * 1000) as u64 }
}

/// What comes in from the lock screen.
#[derive(Debug)]
pub enum Heard {
    Request(Request),
    /// It hung up.
    Closed,
    /// Something else came, or the last reply could not be sent.
    Broken(String),
}

/// What is done with it.
#[derive(Debug)]
pub enum Next {
    /// The PIN is verified, the outcome answered, and the next request is read.
    Verify { secret: Vec<u8> },
    /// Serving ends.
    End(Result<(), String>),
}

/// What is done with what comes in from the lock screen.
pub fn serve_verifier(heard: Heard) -> (r: Next)
    ensures
        r == match heard {
            Heard::Request(Request::Verify { secret }) => Next::Verify { secret },
            Heard::Closed => Next::End(Ok(())),
            Heard::Broken(e) => Next::End(Err(e)),
        },
{
    match heard {
        Heard::Request(Request::Verify { secret }) => Next::Verify { secret },
        Heard::Closed => Next::End(Ok(())),
        Heard::Broken(e) => Next::End(Err(e)),
    }
}

/// The compositor is told of this outcome.
pub open spec fn is_told(connected: bool, outcome: Result<Outcome, Seq<char>>) -> bool {
    connected && outcome == Ok::<Outcome, Seq<char>>(Outcome::Granted)
}

/// How telling the compositor of an outcome went; `sent` is whether the unlock could be sent,
/// where it was to be.
pub open spec fn told_of(connected: bool, outcome: Result<Outcome, Seq<char>>, sent: bool) -> Told {
    if !is_told(connected, outcome) {
        Told::Absent
    } else if sent {
        Told::Sent
    } else {
        Told::Lost
    }
}

/// The line to the compositor, which is lost for good once an unlock cannot be sent.
#[derive(Debug)]
pub struct Compositor {
    pub connected: bool,
}

impl Compositor {
    /// Whether the compositor is sent an unlock for this outcome.
    pub fn unlocks(&self, outcome: &Result<Outcome, String>) -> (r: bool)
        ensures
            r == is_told(self.connected, why(*outcome)),
    {
        match outcome {
            Ok(Outcome::Granted) => self.connected,
            _ => false,
        }
    }

    /// What the lock screen hears of an outcome; `sent` is whether the unlock could be sent,
    /// where it was to be.
    pub fn answer(&mut self, outcome: Result<Outcome, String>, sent: bool) -> (r: Response<String>)
        ensures
            r@ == reply_of(why(outcome), told_of(old(self).connected, why(outcome), sent)),
            final(self).connected == (old(self).connected && told_of(
                old(self).connected,
                why(outcome),
                sent,
            ) != Told::Lost),
    {
        let told = if !self.unlocks(&outcome) {
            Told::Absent
        } else if sent {
            Told::Sent
        } else {
            self.connected = false;
            Told::Lost
        };
        reply(outcome, told)
    }
}

/// One request on the lock screen's connection: the PIN, when it came, whether the count could
/// be written, and whether an unlock could be sent.
pub struct Attempt {
    pub pin: Seq<u8>,
    pub now: nat,
    pub written: Result<(), Seq<char>>,
    pub sent: bool,
}

/// The service: what is known of the PIN, the line to the compositor, the unlocks that were sent
/// and the replies, in order.
pub struct Service {
    pub auth: AuthView,
    pub connected: bool,
    pub unlocks: Seq<Event>,
    pub replies: Seq<Response<Seq<char>>>,
}

impl Service {
    pub open spec fn fresh(auth: AuthView) -> Service {
        Service { auth, connected: true, unlocks: Seq::empty(), replies: Seq::empty() }
    }

    /// What the PIN of a request comes to.
    pub open spec fn outcome(self, a: Attempt) -> Result<Outcome, Seq<char>> {
        self.auth.verified(a.pin, a.now, a.written).1
    }

    /// How telling the compositor of a request went.
    pub open spec fn told(self, a: Attempt) -> Told {
        told_of(self.connected, self.outcome(a), a.sent)
    }

    /// After one more request.
    pub open spec fn served(self, a: Attempt, idle_timeout: u64) -> Service {
        Service {
            auth: self.auth.verified(a.pin, a.now, a.written).0,
            connected: self.connected && self.told(a) != Told::Lost,
            unlocks: if self.told(a) == Told::Sent {
                self.unlocks.push(unlock_for(idle_timeout))
            } else {
                self.unlocks
            },
            replies: self.replies.push(reply_of(self.outcome(a), self.told(a))),
        }
    }

    /// After the first `n` requests.
    pub open spec fn run(self, attempts: Seq<Attempt>, idle_timeout: u64, n: int) -> Service
        decreases n,
    {
        if n <= 0 {
            self
        } else {
            self.run(attempts, idle_timeout, n - 1).served(attempts[n - 1], idle_timeout)
        }
    }
}

/// How many of the replies grant.
pub open spec fn grants(replies: Seq<Response<Seq<char>>>) -> nat
    decreases replies.len(),
{
    if replies.len() == 0 {
        0
    } else if replies.last() is Granted {
        grants(replies.drop_last()) + 1
    } else {
        grants(replies.drop_last())
    }
}

proof fn lemma_run(auth: AuthView, attempts: Seq<Attempt>, idle_timeout: u64, n: int)
    requires
        0 <= n <= attempts.len(),
    ensures
        ({
            let s = Service::fresh(auth).run(attempts, idle_timeout, n);
            &&& s.replies.len() == n
            &&& s.unlocks.len() == grants(s.replies)
            &&& forall|k: int|
                0 <= k < s.unlocks.len() ==> #[trigger] s.unlocks[k] == unlock_for(idle_timeout)
        }),
    decreases n,
{
    if n > 0 {
        lemma_run(auth, attempts, idle_timeout, n - 1);
        let before = Service::fresh(auth).run(attempts, idle_timeout, n - 1);
        let s = Service::fresh(auth).run(attempts, idle_timeout, n);
        assert(s.replies.drop_last() =~= before.replies);
    }
}

proof fn lemma_replies_stay(auth: AuthView, attempts: Seq<Attempt>, idle_timeout: u64, i: int, n: int)
    requires
        0 <= i < n <= attempts.len(),
    ensures
        Service::fresh(auth).run(attempts, idle_timeout, n).replies.len() == n,
        Service::fresh(auth).run(attempts, idle_timeout, n).replies[i] == Service::fresh(auth).run(
            attempts,
            idle_timeout,
            i + 1,
        ).replies[i],
    decreases n,
{
    lemma_run(auth, attempts, idle_timeout, n);
    lemma_run(auth, attempts, idle_timeout, n - 1);
    if i + 1 < n {
        lemma_replies_stay(auth, attempts, idle_timeout, i, n - 1);
    }
}

/// Each request of the lock screen gets one reply, in order. It grants exactly where the PIN was
/// granted and the unlock was sent for it; one that denies carries the time that is left, and
/// nothing was sent for it; every other is an error. As many unlocks were sent as replies grant,
/// each for the same time of inactivity.
pub proof fn grants_and_unlocks_go_together(
    auth: AuthView,
    attempts: Seq<Attempt>,
    idle_timeout: u64,
    i: int,
)
    requires
        0 <= i < attempts.len(),
    ensures
        ({
            let all = Service::fresh(auth).run(attempts, idle_timeout, attempts.len() as int);
            let before = Service::fresh(auth).run(attempts, idle_timeout, i);
            let after = Service::fresh(auth).run(attempts, idle_timeout, i + 1);
            let outcome = before.outcome(attempts[i]);
            &&& all.replies.len() == attempts.len()
            &&& all.replies[i] is Granted <==> outcome == Ok::<Outcome, Seq<char>>(Outcome::Granted)
                && after.unlocks == before.unlocks.push(unlock_for(idle_timeout))
            &&& outcome matches Ok(Outcome::Denied { retry_after }) ==> all.replies[i] == (
            Response::<Seq<char>>::Denied { retry_after_ms: (retry_after / 1_000_000) as u64 })
            &&& !(all.replies[i] is Granted) ==> after.unlocks == before.unlocks
            &&& outcome is Err ==> all.replies[i] == Response::Error(outcome->Err_0)
            &&& all.unlocks.len() == grants(all.replies)
            &&& forall|k: int|
                0 <= k < all.unlocks.len() ==> #[trigger] all.unlocks[k] == unlock_for(idle_timeout)
        }),
{
    let n = attempts.len() as int;
    lemma_run(auth, attempts, idle_timeout, n);
    lemma_run(auth, attempts, idle_timeout, i);
    lemma_replies_stay(auth, attempts, idle_timeout, i, n);
    let before = Service::fresh(auth).run(attempts, idle_timeout, i);
    assert(before.unlocks != before.unlocks.push(unlock_for(idle_timeout))) by {
        assert(before.unlocks.push(unlock_for(idle_timeout)).len() == before.unlocks.len() + 1);
    }
}

/// The files of the state directory, and the one that is being written.
pub struct Files {
    pub texts: Map<Seq<char>, Seq<char>>,
    pub open: Seq<char>,
}

impl Files {
    /// After one step that went well.
    pub open spec fn stepped(self, step: Step<Seq<char>>) -> Files {
        match step {
            Step::Create { name, .. } => Files {
                texts: self.texts.insert(name, Seq::empty()),
                open: name,
            },
            Step::Data { data } => Files {
                texts: self.texts.insert(self.open, self.texts[self.open] + data),
                ..self
            },
            Step::Rename { from, to } => Files {
                texts: self.texts.remove(from).insert(to, self.texts[from]),
                ..self
            },
            _ => self,
        }
    }

    /// After all the steps.
    pub open spec fn after(self, steps: Seq<Step<Seq<char>>>) -> Files
        decreases steps.len(),
    {
        if steps.len() == 0 {
            self
        } else {
            self.after(steps.drop_last()).stepped(steps.last())
        }
    }

    /// A file, as it is read.
    pub open spec fn read(self, name: Seq<char>) -> File<Seq<char>> {
        if self.texts.contains_key(name) {
            File::Text(self.texts[name])
        } else {
            File::Missing
        }
    }

    /// The store, as it is read.
    pub open spec fn store(self) -> Store<Seq<char>> {
        Store { pin: self.read("pin"@), failures: self.read("failures"@) }
    }
}

proof fn lemma_after_concat(f: Files, a: Seq<Step<Seq<char>>>, b: Seq<Step<Seq<char>>>)
    ensures
        f.after(a + b) == f.after(a).after(b),
    decreases b.len(),
{
    if b.len() == 0 {
        assert(a + b =~= a);
    } else {
        assert((a + b).drop_last() =~= a + b.drop_last());
        assert((a + b).last() == b.last());
        lemma_after_concat(f, a, b.drop_last());
    }
}

proof fn lemma_private_write(f: Files, name: Seq<char>, data: Seq<char>, other: Seq<char>)
    requires
        other.len() > 0,
        other[0] != '.',
    ensures
        f.after(private_write(name, data)).read(name) == File::Text(data),
        other != name ==> f.after(private_write(name, data)).read(other) == f.read(other),
{
    reveal_strlit(".");
    let tmp = "."@ + name + ".tmp"@;
    assert(tmp[0] == '.');
    let steps = private_write(name, data);
    let none = Seq::<Step<Seq<char>>>::empty();
    let one = steps.drop_last().drop_last().drop_last();
    reveal_with_fuel(Files::after, 5);
    assert(one.drop_last() =~= none);
    assert(one.last() == (Step::<Seq<char>>::Create { name: tmp, mode: 0o600 }));
    assert(steps.drop_last().drop_last().last() == (Step::<Seq<char>>::Data { data }));
    assert(steps.drop_last().last() == Step::<Seq<char>>::Sync);
    assert(steps.last() == (Step::<Seq<char>>::Rename { from: tmp, to: name }));
    assert(f.after(none) == f);
    let a = f.stepped(Step::Create { name: tmp, mode: 0o600 });
    let b = a.stepped(Step::Data { data });
    assert(b.texts[tmp] =~= data);
    assert(f.after(steps) == b.stepped(Step::Rename { from: tmp, to: name }));
}

/// Once a PIN is set, by its hash under a salt, one is enrolled, no failure is counted whatever
/// was before, and the PIN is the right one; another is right exactly where its hash under the
/// salt is the same.
pub proof fn the_pin_that_is_set_is_the_pin(
    files: Files,
    pin: Seq<u8>,
    salt: Seq<char>,
    hash: Seq<char>,
    other: Seq<u8>,
)
    requires
        hashed(pin, salt) == Ok::<Seq<char>, Seq<char>>(hash),
        is_hash_of(hash, pin),
        tells_apart(hash, salt),
    ensures
        ({
            let store = files.after(enrolment(hash)).store();
            &&& store.enrolled()
            &&& store.counted() == 0
            &&& store.checked(pin) == Ok::<bool, Seq<char>>(true)
            &&& store.checked(other) == Ok::<bool, Seq<char>>(
                hashed(other, salt) == hashed(pin, salt),
            )
        }),
{
    reveal_strlit("pin");
    reveal_strlit("failures");
    reveal_strlit("0");
    let first = seq![Step::<Seq<char>>::MakeDir, Step::Mode { mode: 0o700 }];
    let a = private_write("pin"@, hash);
    let b = private_write("failures"@, "0"@);
    lemma_after_concat(files, first + a, b);
    lemma_after_concat(files, first, a);
    lemma_private_write(files.after(first), "pin"@, hash, "failures"@);
    lemma_private_write(files.after(first + a), "failures"@, "0"@, "pin"@);
    lemma_trimmed_same(hash);
    lemma_trimmed_same("0"@);
    decimal_reads_back(0, u32::MAX as nat);
    assert("0"@ =~= decimal(0));
}

proof fn lemma_trimmed_same(s: Seq<char>)
    requires
        s.len() > 0,
        !is_space(s[0]),
        !is_space(s.last()),
    ensures
        trimmed(s) == s,
{
}

/// The PIN that was enrolled is the right one, whenever an attempt counts and the count can be
/// written.
pub proof fn the_enrolled_pin_is_granted(auth: AuthView, pin: Seq<u8>, hash: Seq<char>, now: nat)
    requires
        auth.store.pin == File::Text(hash),
        is_hash_of(hash, pin),
        !auth.held(now),
    ensures
        auth.verified(pin, now, Ok(())).1 == Ok::<Outcome, Seq<char>>(Outcome::Granted),
        auth.verified(pin, now, Ok(())).0.failures == 0,
        auth.verified(pin, now, Ok(())).0.retry_at is None,
{
    lemma_trimmed_same(hash);
}

/// While it is too early the PIN is not looked at: whatever it is the answer is the same, and
/// nothing changes.
pub proof fn while_held_no_pin_counts(
    auth: AuthView,
    pin: Seq<u8>,
    other: Seq<u8>,
    now: nat,
    written: Result<(), Seq<char>>,
)
    requires
        auth.held(now),
    ensures
        auth.verified(pin, now, written) == auth.verified(other, now, written),
        auth.verified(pin, now, written).0 == auth,
        auth.verified(pin, now, written).1 is Ok,
        auth.verified(pin, now, written).1->Ok_0 is Denied,
{
}

/// The count survives: after every attempt that was counted, what is on disk says what is known
/// here, and a restart starts from it.
pub proof fn the_count_survives(auth: AuthView, pin: Seq<u8>, now: nat)
    requires
        !auth.held(now),
        auth.store.checked(pin) is Ok,
        auth.failures <= u32::MAX,
    ensures
        auth.verified(pin, now, Ok(())).0.store.counted() == auth.verified(
            pin,
            now,
            Ok(()),
        ).0.failures,
        auth.verified(pin, now, Ok(())).0.store.pin == auth.store.pin,
{
    let after = auth.verified(pin, now, Ok(())).0;
    decimal_reads_back(after.failures, u32::MAX as nat);
    crate::text::lemma_decimal_digits(after.failures);
    let s = decimal(after.failures);
    lemma_trimmed_same(s);
}

/// A wrong PIN past the free attempts holds every attempt off until its delay is over.
pub proof fn a_wrong_pin_costs_its_delay(auth: AuthView, pin: Seq<u8>, now: nat, later: nat)
    requires
        !auth.held(now),
        auth.store.checked(pin) == Ok::<bool, Seq<char>>(false),
        auth.failures >= FREE_ATTEMPTS,
        auth.failures < u32::MAX,
    ensures
        auth.verified(pin, now, Ok(())).0.held(later) == (later < now + delay(auth.failures + 1)),
{
    delays_grow(auth.failures + 1, auth.failures + 1);
}

} // verus!
