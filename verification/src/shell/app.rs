//! The shell as a whole: which surface a key goes to, and what locking and unlocking do to all
//! of them.
use vstd::prelude::*;

use super::menu::{Menu, MenuView};
use super::notes::{self, Cards};
use super::prompts::{self, Front};
use crate::lock::{Lock, LockView};
use crate::views::views;

verus! {

/// Where a surface is among ours.
#[derive(Debug, Clone, Copy, PartialEq, Eq, Structural)]
pub enum Place {
    Lock,
    Dialog,
    Menu,
    Nowhere,
}

/// Where a key goes: to the lock screen, the dialog or the menu, whichever has the keyboard.
pub fn place(lock: bool, dialog: bool, menu: bool) -> (r: Place)
    ensures
        r == if lock {
            Place::Lock
        } else if dialog {
            Place::Dialog
        } else if menu {
            Place::Menu
        } else {
            Place::Nowhere
        },
{
    if lock {
        Place::Lock
    } else if dialog {
        Place::Dialog
    } else if menu {
        Place::Menu
    } else {
        Place::Nowhere
    }
}

/// The size a surface gets: zero is ours to fill in.
pub fn sized(width: u32, height: u32, our_width: u32, our_height: u32) -> (r: (u32, u32))
    ensures
        r.0 == (if width == 0 {
            our_width
        } else {
            width
        }),
        r.1 == (if height == 0 {
            our_height
        } else {
            height
        }),
{
    let w = if width == 0 {
        our_width
    } else {
        width
    };
    let h = if height == 0 {
        our_height
    } else {
        height
    };
    (w, h)
}

/// The lock surfaces, one to an output: locked as far as we know while there is one.
#[derive(Debug)]
pub struct Screens {
    /// We hold the session lock.
    pub held: bool,
    pub surfaces: Vec<u64>,
}

impl Screens {
    /// None yet.
    pub fn new() -> (r: Screens)
        ensures
            !r.held,
            r.surfaces@ == Seq::<u64>::empty(),
    {
        Screens { held: false, surfaces: Vec::new() }
    }

    /// Whether the session is locked as far as we know.
    pub fn locked(&self) -> (r: bool)
        ensures
            r == (self.surfaces@.len() > 0),
    {
        self.surfaces.len() > 0
    }

    /// Whether an output gets a lock surface: if we hold the lock and it has none.
    pub fn cover(&mut self, output: u64) -> (r: bool)
        ensures
            r == (old(self).held && !old(self).surfaces@.contains(output)),
            final(self).held == old(self).held,
            final(self).surfaces@ == if r {
                old(self).surfaces@.push(output)
            } else {
                old(self).surfaces@
            },
    {
        if !self.held {
            return false;
        }
        let mut i: usize = 0;
        while i < self.surfaces.len()
            invariant
                i <= self.surfaces@.len(),
                *self == *old(self),
                forall|j: int| 0 <= j < i ==> self.surfaces@[j] != output,
            decreases self.surfaces@.len() - i,
        {
            if self.surfaces[i] == output {
                return false;
            }
            i = i + 1;
        }
        self.surfaces.push(output);
        true
    }

    /// An output came: it gets a lock surface only while the session is locked.
    pub fn new_output(&mut self, output: u64) -> (r: bool)
        ensures
            r == (old(self).surfaces@.len() > 0 && old(self).held
                && !old(self).surfaces@.contains(output)),
            final(self).held == old(self).held,
            final(self).surfaces@ == if r {
                old(self).surfaces@.push(output)
            } else {
                old(self).surfaces@
            },
    {
        if self.locked() {
            self.cover(output)
        } else {
            false
        }
    }

    /// An output went, and its surface with it.
    pub fn output_gone(&mut self, output: u64)
        ensures
            final(self).held == old(self).held,
            final(self).surfaces@ == crate::views::kept(
                old(self).surfaces@,
                |o: u64| o != output,
            ),
    {
        let ghost keep = |o: u64| o != output;
        let mut left: Vec<u64> = Vec::new();
        let mut i: usize = 0;
        assert(self.surfaces@.take(0) =~= Seq::empty());
        while i < self.surfaces.len()
            invariant
                i <= self.surfaces@.len(),
                keep == (|o: u64| o != output),
                left@ == crate::views::kept(self.surfaces@.take(i as int), keep),
            decreases self.surfaces@.len() - i,
        {
            proof {
                crate::views::lemma_kept_step(self.surfaces@, keep, i as int);
            }
            if self.surfaces[i] != output {
                left.push(self.surfaces[i]);
            }
            i = i + 1;
        }
        assert(self.surfaces@.take(i as int) =~= self.surfaces@);
        self.surfaces = left;
    }
}

/// The outputs that get a lock surface, of these in turn: each that has none, if the lock is
/// held.
pub open spec fn covered(held: bool, surfaces: Seq<u64>, outputs: Seq<u64>) -> Seq<u64>
    decreases outputs.len(),
{
    if outputs.len() == 0 {
        Seq::empty()
    } else {
        let before = covered(held, surfaces, outputs.drop_last());
        let output = outputs.last();
        if held && !(surfaces + before).contains(output) {
            before.push(output)
        } else {
            before
        }
    }
}

/// The shell's parts.
#[derive(Debug)]
pub struct Shell {
    pub screens: Screens,
    pub lock: Lock,
    pub menu: Menu<String, Vec<String>>,
    pub prompts: Front,
    pub notes: Cards,
}

impl Shell {
    /// The prompts know whether anything covers the screens.
    pub open spec fn wf(&self) -> bool {
        self.prompts@.locked == (self.screens.surfaces@.len() > 0)
    }

    /// Nothing up.
    pub fn new() -> (r: Shell)
        ensures
            r.wf(),
            !r.screens.held && r.screens.surfaces@.len() == 0,
            r.lock@ == LockView::fresh(),
            r.menu@ == (Menu { up: false, ..MenuView::fresh(Seq::empty()) }),
            r.prompts@.queue.len() == 0 && r.prompts@.dialog is None && !r.prompts@.locked,
            r.notes@.conns.len() == 0 && r.notes@.list.len() == 0 && r.notes@.next_id == 1
                && !r.notes@.up,
    {
        Shell {
            screens: Screens::new(),
            lock: Lock::new(),
            menu: Menu::new(),
            prompts: Front::new(),
            notes: Cards::new(),
        }
    }

    /// Whether a poke brings the menu up: if it is not up, and nothing is locked.
    pub fn wants_menu(&self) -> (r: bool)
        ensures
            r == (!self.menu@.up && self.screens.surfaces@.len() == 0),
    {
        !self.menu.up && !self.screens.locked()
    }

    /// Locked, with these outputs: they are covered, and nothing else of ours stays up. The
    /// dialog goes back to the front of the queue; the notes stay listed and come back with
    /// the unlock. The outputs to cover come first.
    pub fn locked(&mut self, outputs: &Vec<u64>) -> (r: (
        Vec<u64>,
        Vec<prompts::Act<String>>,
        Vec<notes::Act>,
    ))
        ensures
            final(self).wf(),
            r.0@ == covered(old(self).screens.held, old(self).screens.surfaces@, outputs@),
            final(self).screens.held == old(self).screens.held,
            final(self).screens.surfaces@ == old(self).screens.surfaces@ + r.0@,
            prompts::turn(final(self).prompts, r.1) == prompts::Turn::start(
                old(self).prompts@,
            ).lock(final(self).screens.surfaces@.len() > 0),
            notes::turn(final(self).notes, r.2) == notes::Turn::start(
                old(self).notes@,
            ).take_down(),
            final(self).menu@ == (Menu { up: false, ..old(self).menu@ }),
            final(self).lock == old(self).lock,
    {
        let mut cover: Vec<u64> = Vec::new();
        let ghost held = self.screens.held;
        let ghost surfaces = self.screens.surfaces@;
        let mut i: usize = 0;
        assert(outputs@.take(0) =~= Seq::empty());
        assert(surfaces + cover@ =~= surfaces);
        while i < outputs.len()
            invariant
                i <= outputs@.len(),
                cover@ == covered(held, surfaces, outputs@.take(i as int)),
                self.screens.held == held,
                self.screens.surfaces@ == surfaces + cover@,
                self.lock == old(self).lock,
                self.menu == old(self).menu,
                self.prompts == old(self).prompts,
                self.notes == old(self).notes,
            decreases outputs@.len() - i,
        {
            assert(outputs@.take(i + 1).drop_last() =~= outputs@.take(i as int));
            let ghost before = cover@;
            if self.screens.cover(outputs[i]) {
                cover.push(outputs[i]);
                assert(surfaces + cover@ =~= (surfaces + before).push(outputs@[i as int]));
            }
            i = i + 1;
        }
        assert(outputs@.take(i as int) =~= outputs@);
        let mut hidden: Vec<notes::Act> = Vec::new();
        let acts = self.prompts.lock(self.screens.locked());
        self.menu.up = false;
        self.notes.take_down(&mut hidden);
        (cover, acts, hidden)
    }

    /// An output came: whether it gets a lock surface, which it does only while the session is
    /// locked.
    pub fn new_output(&mut self, output: u64) -> (r: bool)
        requires
            old(self).wf(),
        ensures
            final(self).wf(),
            r == (old(self).screens.surfaces@.len() > 0 && old(self).screens.held
                && !old(self).screens.surfaces@.contains(output)),
            final(self).screens.held == old(self).screens.held,
            final(self).screens.surfaces@ == if r {
                old(self).screens.surfaces@.push(output)
            } else {
                old(self).screens.surfaces@
            },
            final(self).prompts == old(self).prompts,
            final(self).lock == old(self).lock,
            final(self).menu == old(self).menu,
            final(self).notes == old(self).notes,
    {
        self.screens.new_output(output)
    }

    /// An output went, and its surface with it.
    pub fn output_gone(&mut self, output: u64)
        ensures
            final(self).wf(),
            final(self).screens.held == old(self).screens.held,
            final(self).screens.surfaces@ == crate::views::kept(
                old(self).screens.surfaces@,
                |o: u64| o != output,
            ),
            final(self).prompts@ == (prompts::Prompts {
                locked: final(self).screens.surfaces@.len() > 0,
                ..old(self).prompts@
            }),
            final(self).lock == old(self).lock,
            final(self).menu == old(self).menu,
            final(self).notes == old(self).notes,
    {
        self.screens.output_gone(output);
        self.prompts.locked = self.screens.locked();
    }

    /// Unlocked, or refused: the lock is let go, the PIN forgotten, and what waited comes up.
    pub fn finished(&mut self) -> (r: (Vec<prompts::Act<String>>, Vec<notes::Act>))
        ensures
            final(self).wf(),
            prompts::turn(final(self).prompts, r.0) == prompts::Turn::start(
                old(self).prompts@,
            ).unlock(),
            notes::turn(final(self).notes, r.1) == notes::Turn::start(old(self).notes@).show(
                false,
            ),
            final(self).lock@ == LockView::fresh(),
            !final(self).screens.held,
            final(self).screens.surfaces@.len() == 0,
            final(self).menu == old(self).menu,
    {
        let mut shown: Vec<notes::Act> = Vec::new();
        self.screens = Screens::new();
        self.lock.finished();
        let acts = self.prompts.unlock();
        self.notes.show(false, &mut shown);
        (acts, shown)
    }
}

/// A lock that is held gets a surface on every output, each once, and on no output that has
/// one; a lock that is not held gets none.
pub proof fn every_output_is_covered(held: bool, surfaces: Seq<u64>, outputs: Seq<u64>, o: u64)
    ensures
        covered(held, surfaces, outputs).contains(o) <==> held && outputs.contains(o)
            && !surfaces.contains(o),
        covered(held, surfaces, outputs).no_duplicates(),
    decreases outputs.len(),
{
    if outputs.len() > 0 {
        let front = outputs.drop_last();
        let last = outputs.last();
        every_output_is_covered(held, surfaces, front, o);
        every_output_is_covered(held, surfaces, front, last);
        let before = covered(held, surfaces, front);
        assert(outputs =~= front.push(last));
        vstd::seq_lib::lemma_seq_contains_after_push(front, last, o);
        vstd::seq_lib::lemma_seq_contains_after_push(before, last, o);
        let all = surfaces + before;
        assert(all.contains(last) <==> surfaces.contains(last) || before.contains(last)) by {
            if all.contains(last) {
                let k = choose|k: int| 0 <= k < all.len() && all[k] == last;
                if k < surfaces.len() {
                    assert(surfaces[k] == last);
                } else {
                    assert(before[k - surfaces.len()] == last);
                }
            }
            if surfaces.contains(last) {
                let k = choose|k: int| 0 <= k < surfaces.len() && surfaces[k] == last;
                assert(all[k] == last);
            }
            if before.contains(last) {
                let k = choose|k: int| 0 <= k < before.len() && before[k] == last;
                assert(all[surfaces.len() + k] == last);
            }
        }
    } else {
        assert(!outputs.contains(o));
    }
}

} // verus!
