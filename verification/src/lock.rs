//! The lock screen's PIN line: what the keys do, what is sent, and what is said.
use vstd::prelude::*;
use vstd::string::*;
use vstd::utf8::encode_utf8;

use crate::auth::{wipe, Response};
use crate::chooser::Press;
use crate::text::{chars_of, control, decimal, is_control, number, quote, quoted};

verus! {

/// How long a PIN can be, in bytes.
pub const MAX_PIN: usize = 32;

/// How many seconds a right PIN waits for the compositor.
pub const MAX_TICKS: u32 = 10;

/// The PIN typed so far, and what is said under it.
#[derive(Debug)]
pub struct Lock {
    pin: Vec<u8>,
    message: String,
    /// Waiting for the compositor after a right PIN.
    granted: bool,
    ticks: u32,
}

/// The same by value.
pub struct LockView {
    pub pin: Seq<u8>,
    pub message: Seq<char>,
    pub granted: bool,
    pub ticks: nat,
}

impl View for Lock {
    type V = LockView;

    closed spec fn view(&self) -> LockView {
        LockView {
            pin: self.pin@,
            message: self.message@,
            granted: self.granted,
            ticks: self.ticks as nat,
        }
    }
}

impl LockView {
    /// Nothing typed, nothing said.
    pub open spec fn fresh() -> LockView {
        LockView { pin: Seq::empty(), message: Seq::empty(), granted: false, ticks: 0 }
    }

    /// The PIN is not too long, and the wait not either.
    pub open spec fn wf(self) -> bool {
        self.pin.len() <= MAX_PIN && self.ticks <= MAX_TICKS
    }

    /// What is typed can be added.
    pub open spec fn takes(self, s: Seq<char>) -> bool {
        (forall|i: int| 0 <= i < s.len() ==> !is_control(#[trigger] s[i])) && self.pin.len()
            + encode_utf8(s).len() <= MAX_PIN
    }

    /// The state after a key, but for Enter; and whether it is shown anew.
    pub open spec fn pressed(self, press: Press<Seq<char>>) -> (LockView, bool) {
        if self.granted {
            (self, false)
        } else {
            match press {
                Press::Enter => (self, false),
                Press::BackSpace => (
                    LockView {
                        pin: if self.pin.len() > 0 {
                            self.pin.drop_last()
                        } else {
                            self.pin
                        },
                        ..self
                    },
                    true,
                ),
                Press::Escape => (
                    LockView { pin: Seq::empty(), message: Seq::empty(), ..self },
                    true,
                ),
                Press::Typed(s) => if self.takes(s) {
                    (
                        LockView {
                            pin: self.pin + encode_utf8(s),
                            message: Seq::empty(),
                            ..self
                        },
                        true,
                    )
                } else {
                    (self, false)
                },
                _ => (self, false),
            }
        }
    }

    /// The state once the PIN was sent and answered.
    pub open spec fn answered(self, resp: Response<Seq<char>>) -> LockView {
        match resp {
            Response::Granted => LockView { granted: true, message: Seq::empty(), ..self },
            Response::Denied { retry_after_ms } => LockView {
                message: if retry_after_ms == 0 {
                    "Wrong PIN"@
                } else {
                    "Wrong PIN, try again in "@ + decimal(
                        ((retry_after_ms + 999) / 1000) as nat,
                    ) + " s"@
                },
                ..self
            },
            Response::Error(e) => LockView {
                message: "Auth failed: Error("@ + quoted(e) + ")"@,
                ..self
            },
        }
    }

    /// The state a second later, and whether it is shown anew.
    pub open spec fn ticked(self) -> (LockView, bool) {
        if !self.granted {
            (self, false)
        } else if self.ticks < MAX_TICKS {
            (LockView { ticks: self.ticks + 1, ..self }, false)
        } else {
            (
                LockView {
                    granted: false,
                    ticks: 0,
                    message: "Unlock did not go through, try again"@,
                    ..self
                },
                true,
            )
        }
    }

    /// What stands on the line: a dot for each byte typed.
    pub open spec fn line(self) -> Seq<char> {
        if self.granted {
            "Unlocking\u{2026}"@
        } else if self.pin.len() == 0 {
            "Enter PIN"@
        } else {
            dots(self.pin.len())
        }
    }
}

/// So many dots.
pub open spec fn dots(n: nat) -> Seq<char> {
    Seq::new(n, |i: int| '\u{25cf}')
}

/// So many dots.
pub fn dotted(n: usize) -> (r: String)
    ensures
        r@ == dots(n as nat),
{
    let mut r = String::new();
    let mut i: usize = 0;
    while i < n
        invariant
            i <= n,
            r@ == dots(i as nat),
        decreases n - i,
    {
        r.push('\u{25cf}');
        assert(dots((i + 1) as nat) =~= dots(i as nat).push('\u{25cf}'));
        i = i + 1;
    }
    r
}

impl Lock {
    pub fn new() -> (r: Lock)
        ensures
            r@ == LockView::fresh(),
    {
        Lock { pin: Vec::new(), message: String::new(), granted: false, ticks: 0 }
    }

    /// What stands on the line.
    pub fn prompt(&self) -> (r: String)
        ensures
            r@ == self@.line(),
    {
        if self.granted {
            "Unlocking\u{2026}".to_owned()
        } else if self.pin.len() == 0 {
            "Enter PIN".to_owned()
        } else {
            dotted(self.pin.len())
        }
    }

    /// What is said under the line.
    pub fn message(&self) -> (r: &str)
        ensures
            r@ == self@.message,
    {
        self.message.as_str()
    }

    /// What a key does, but for Enter; whether it is shown anew.
    pub fn press(&mut self, press: &Press<String>) -> (r: bool)
        requires
            old(self)@.wf(),
        ensures
            (final(self)@, r) == old(self)@.pressed(press@),
            final(self)@.wf(),
    {
        if self.granted {
            return false;
        }
        match press {
            Press::BackSpace => {
                let ghost before = self.pin@;
                let _ = self.pin.pop();
                assert(self.pin@ =~= if before.len() > 0 {
                    before.drop_last()
                } else {
                    before
                });
                true
            },
            Press::Escape => {
                wipe(&mut self.pin);
                self.message = String::new();
                true
            },
            Press::Typed(s) => {
                let bytes = s.as_str().as_bytes();
                if !printable(s.as_str()) || bytes.len() > MAX_PIN - self.pin.len() {
                    return false;
                }
                self.pin.extend_from_slice(bytes);
                assert(self.pin@ =~= old(self).pin@ + encode_utf8(s@));
                self.message = String::new();
                true
            },
            _ => false,
        }
    }

    /// Takes the PIN to be sent, where there is one and none is being waited on. It is forgotten
    /// here.
    pub fn submit(&mut self) -> (r: Option<Vec<u8>>)
        requires
            old(self)@.wf(),
        ensures
            match r {
                Some(pin) => {
                    &&& !old(self)@.granted && old(self)@.pin.len() > 0
                    &&& pin@ == old(self)@.pin
                    &&& final(self)@ == (LockView { pin: Seq::empty(), ..old(self)@ })
                },
                None => {
                    &&& old(self)@.granted || old(self)@.pin.len() == 0
                    &&& final(self)@ == old(self)@
                },
            },
            final(self)@.wf(),
    {
        if self.granted || self.pin.len() == 0 {
            return None;
        }
        let mut pin: Vec<u8> = Vec::new();
        pin.extend_from_slice(self.pin.as_slice());
        assert(pin@ =~= self.pin@);
        wipe(&mut self.pin);
        Some(pin)
    }

    /// The PIN was answered.
    pub fn answered(&mut self, resp: Response<String>)
        requires
            old(self)@.wf(),
        ensures
            final(self)@ == old(self)@.answered(resp@),
            final(self)@.wf(),
    {
        match resp {
            Response::Granted => {
                self.granted = true;
                self.message = String::new();
            },
            Response::Denied { retry_after_ms } => {
                if retry_after_ms == 0 {
                    self.message = "Wrong PIN".to_owned();
                } else {
                    let secs = (retry_after_ms - 1) / 1000 + 1;
                    let mut message = "Wrong PIN, try again in ".to_owned();
                    message.append(number(secs).as_str());
                    message.append(" s");
                    self.message = message;
                }
            },
            Response::Error(e) => {
                let mut message = "Auth failed: Error(".to_owned();
                message.append(quote(e.as_str()).as_str());
                message.append(")");
                self.message = message;
            },
        }
    }

    /// A second went by; whether it is shown anew. A grant the compositor never finished is
    /// taken back.
    pub fn tick(&mut self) -> (r: bool)
        requires
            old(self)@.wf(),
        ensures
            (final(self)@, r) == old(self)@.ticked(),
            final(self)@.wf(),
    {
        if !self.granted {
            return false;
        }
        if self.ticks < MAX_TICKS {
            self.ticks = self.ticks + 1;
            return false;
        }
        self.granted = false;
        self.ticks = 0;
        self.message = "Unlock did not go through, try again".to_owned();
        true
    }

    /// The compositor unlocked, or refused: all is forgotten.
    pub fn finished(&mut self)
        ensures
            final(self)@ == LockView::fresh(),
            final(self)@.wf(),
    {
        wipe(&mut self.pin);
        self.message = String::new();
        self.granted = false;
        self.ticks = 0;
    }
}

/// Whether a text has no control character.
pub fn printable(s: &str) -> (r: bool)
    ensures
        r == (forall|i: int| 0 <= i < s@.len() ==> !is_control(#[trigger] s@[i])),
{
    let chars = chars_of(s);
    let mut i: usize = 0;
    while i < chars.len()
        invariant
            i <= chars@.len(),
            chars@ == s@,
            forall|j: int| 0 <= j < i ==> !is_control(#[trigger] s@[j]),
        decreases chars@.len() - i,
    {
        if control(chars[i]) {
            assert(is_control(s@[i as int]));
            return false;
        }
        i = i + 1;
    }
    true
}

/// The line shows how long the PIN is, and nothing of what it is.
pub proof fn the_line_hides_the_pin(a: LockView, b: LockView)
    requires
        a.pin.len() == b.pin.len(),
        a.granted == b.granted,
    ensures
        a.line() == b.line(),
{
}

/// A right PIN that the compositor does not follow up takes no key for eleven seconds, and
/// then the PIN is asked for again.
pub proof fn a_grant_is_taken_back(lock: LockView, press: Press<Seq<char>>)
    requires
        lock.granted,
    ensures
        lock.pressed(press) == (lock, false),
        lock.ticks < MAX_TICKS ==> lock.ticked().0.granted && lock.ticked().0.ticks == lock.ticks
            + 1,
        lock.ticks >= MAX_TICKS ==> !lock.ticked().0.granted && lock.ticked().0.ticks == 0,
{
}

} // verus!
