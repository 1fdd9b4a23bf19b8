//! Credentials between fork and exec: what is locked, what is dropped, and in which order one
//! becomes another user.
use vstd::prelude::*;

use crate::views::views;

verus! {

/// The last capability the kernel has.
pub const LAST_CAP: u32 = 40;

/// A bit and its lock, which is the next bit.
pub open spec fn locked(bit: int) -> int {
    bit + bit * 2
}

pub const NOROOT: u32 = 1;

pub const NO_SETUID_FIXUP: u32 = 4;

pub const KEEP_CAPS_LOCKED: u32 = 32;

pub const NO_CAP_AMBIENT_RAISE: u32 = 64;

pub const EXEC_RESTRICT_FILE: u32 = 256;

pub const EXEC_DENY_INTERACTIVE: u32 = 1024;

/// No root, no setuid fixups, no ambient raise, each locked.
pub open spec fn base_bits() -> int {
    locked(NOROOT as int) + locked(NO_SETUID_FIXUP as int) + KEEP_CAPS_LOCKED + locked(
        NO_CAP_AMBIENT_RAISE as int,
    )
}

/// Exec restricted to files, not scripts, locked.
pub open spec fn exec_bits() -> int {
    locked(EXEC_RESTRICT_FILE as int) + locked(EXEC_DENY_INTERACTIVE as int)
}

/// The securebits that are tried in turn: with the exec bits, and without them where the
/// kernel does not know them.
pub fn lock_securebits() -> (r: Vec<u32>)
    ensures
        r@.len() == 2,
        r@[0] == base_bits() + exec_bits(),
        r@[1] == base_bits(),
{
    let base: u32 = NOROOT * 3 + NO_SETUID_FIXUP * 3 + KEEP_CAPS_LOCKED + NO_CAP_AMBIENT_RAISE * 3;
    let exec: u32 = EXEC_RESTRICT_FILE * 3 + EXEC_DENY_INTERACTIVE * 3;
    vec![base + exec, base]
}

/// `cap` is in a set of capabilities.
pub open spec fn in_set(set: u64, cap: u32) -> bool {
    (set >> cap) & 1 == 1
}

fn holds(set: u64, cap: u32) -> (r: bool)
    requires
        cap <= LAST_CAP,
    ensures
        r == in_set(set, cap),
{
    (set >> cap) & 1 == 1
}

/// One act on the process's own credentials. `L` is a list of groups.
#[derive(Debug)]
pub enum Cred<L> {
    DropBounding(u32),
    KeepCaps(bool),
    SetGroups(L),
    SetGid(u32),
    SetUid(u32),
    /// The real and effective UIDs must be these now.
    CheckUid(u32),
    ClearAmbient,
    /// The permitted, effective and inheritable sets.
    SetCaps(u64),
    RaiseAmbient(u32),
}

pub type CredView = Cred<Seq<u32>>;

impl View for Cred<Vec<u32>> {
    type V = CredView;

    open spec fn view(&self) -> CredView {
        match *self {
            Cred::DropBounding(cap) => Cred::DropBounding(cap),
            Cred::KeepCaps(on) => Cred::KeepCaps(on),
            Cred::SetGroups(list) => Cred::SetGroups(list@),
            Cred::SetGid(gid) => Cred::SetGid(gid),
            Cred::SetUid(uid) => Cred::SetUid(uid),
            Cred::CheckUid(uid) => Cred::CheckUid(uid),
            Cred::ClearAmbient => Cred::ClearAmbient,
            Cred::SetCaps(set) => Cred::SetCaps(set),
            Cred::RaiseAmbient(cap) => Cred::RaiseAmbient(cap),
        }
    }
}

/// The capabilities below `n` that leave the bounding set: those in it that are not kept.
pub open spec fn dropped(keep: u64, bounding: u64, n: int) -> Seq<CredView>
    decreases n,
{
    if n <= 0 {
        Seq::empty()
    } else {
        let before = dropped(keep, bounding, n - 1);
        if !in_set(keep, (n - 1) as u32) && in_set(bounding, (n - 1) as u32) {
            before.push(Cred::DropBounding((n - 1) as u32))
        } else {
            before
        }
    }
}

/// The capabilities below `n` that are raised in the ambient set: those that are kept.
pub open spec fn raised(keep: u64, n: int) -> Seq<CredView>
    decreases n,
{
    if n <= 0 {
        Seq::empty()
    } else {
        let before = raised(keep, n - 1);
        if in_set(keep, (n - 1) as u32) {
            before.push(Cred::RaiseAmbient((n - 1) as u32))
        } else {
            before
        }
    }
}

/// Becoming `uid` and `gid` with exactly `groups` and exactly `caps`.
pub open spec fn switch_acts(uid: u32, gid: u32, groups: Seq<u32>, caps: u64, bounding: u64) -> Seq<
    CredView,
> {
    let kept = |on: bool|
        if caps != 0 {
            seq![CredView::KeepCaps(on)]
        } else {
            Seq::empty()
        };
    dropped(caps, bounding, LAST_CAP + 1) + kept(true) + seq![
        CredView::SetGroups(groups),
        CredView::SetGid(gid),
        CredView::SetUid(uid),
        CredView::CheckUid(uid),
        CredView::ClearAmbient,
        CredView::SetCaps(caps),
    ] + raised(caps, LAST_CAP + 1) + kept(false)
}

/// Nothing exec'd from here on can gain a capability but those of `keep`: what is dropped of
/// the `bounding` set.
pub fn empty_bounding_set(keep: u64, bounding: u64) -> (r: Vec<Cred<Vec<u32>>>)
    ensures
        views(r@) == dropped(keep, bounding, LAST_CAP + 1),
{
    broadcast use crate::views::group_views;

    let mut acts: Vec<Cred<Vec<u32>>> = Vec::new();
    let mut cap: u32 = 0;
    while cap <= LAST_CAP
        invariant
            cap <= LAST_CAP + 1,
            views(acts@) == dropped(keep, bounding, cap as int),
        decreases LAST_CAP + 1 - cap,
    {
        if !holds(keep, cap) && holds(bounding, cap) {
            acts.push(Cred::DropBounding(cap));
        }
        cap = cap + 1;
    }
    acts
}

fn raise(acts: &mut Vec<Cred<Vec<u32>>>, keep: u64)
    ensures
        views(final(acts)@) == views(old(acts)@) + raised(keep, LAST_CAP + 1),
{
    broadcast use crate::views::group_views;

    let ghost start = views(acts@);
    let mut cap: u32 = 0;
    assert(start + raised(keep, 0) =~= start);
    while cap <= LAST_CAP
        invariant
            cap <= LAST_CAP + 1,
            views(acts@) == start + raised(keep, cap as int),
        decreases LAST_CAP + 1 - cap,
    {
        if holds(keep, cap) {
            let ghost before = raised(keep, cap as int);
            acts.push(Cred::RaiseAmbient(cap));
            proof {
                crate::views::lemma_add_push(start, before, CredView::RaiseAmbient(cap));
            }
        }
        cap = cap + 1;
    }
}

/// Become `uid` and `gid` with exactly `groups` and exactly `caps`: the bounding set first,
/// while it can be changed. `bounding` is what it holds now.
pub fn switch_to(uid: u32, gid: u32, groups: Vec<u32>, caps: u64, bounding: u64) -> (r: Vec<
    Cred<Vec<u32>>,
>)
    ensures
        views(r@) == switch_acts(uid, gid, groups@, caps, bounding),
{
    broadcast use crate::views::group_views;

    let mut acts = empty_bounding_set(caps, bounding);
    let ghost a = views(acts@);
    if caps != 0 {
        acts.push(Cred::KeepCaps(true));
    }
    let ghost kept = |on: bool|
        if caps != 0 {
            seq![CredView::KeepCaps(on)]
        } else {
            Seq::empty()
        };
    assert(views(acts@) =~= a + kept(true));
    let ghost b = views(acts@);
    let ghost list = groups@;
    acts.push(Cred::SetGroups(groups));
    acts.push(Cred::SetGid(gid));
    acts.push(Cred::SetUid(uid));
    acts.push(Cred::CheckUid(uid));
    acts.push(Cred::ClearAmbient);
    acts.push(Cred::SetCaps(caps));
    assert(views(acts@) =~= b + seq![
        CredView::SetGroups(list),
        CredView::SetGid(gid),
        CredView::SetUid(uid),
        CredView::CheckUid(uid),
        CredView::ClearAmbient,
        CredView::SetCaps(caps),
    ]);
    raise(&mut acts, caps);
    let ghost c = views(acts@);
    if caps != 0 {
        acts.push(Cred::KeepCaps(false));
    }
    assert(views(acts@) =~= c + kept(false));
    acts
}

/// A set without some capabilities.
pub fn drop_capability(set: u64, gone: u64) -> (r: u64)
    ensures
        r == set & !gone,
        r & gone == 0,
{
    assert((set & !gone) & gone == 0) by (bit_vector);
    set & !gone
}

/// A process's effective, permitted and inheritable capabilities.
#[derive(Clone, Copy, Debug, PartialEq, Eq, Structural)]
pub struct CapSets {
    pub effective: u64,
    pub permitted: u64,
    pub inheritable: u64,
}

/// A capability gone for good: what leaves the bounding set first, and the sets then. Nothing
/// this process or anything it starts can have it again.
pub fn drop_for_good(cap: u32, sets: CapSets) -> (r: (Cred<Vec<u32>>, CapSets))
    requires
        cap <= LAST_CAP,
    ensures
        r.0@ == CredView::DropBounding(cap),
        r.1.effective == sets.effective & !(1u64 << cap),
        r.1.permitted == sets.permitted & !(1u64 << cap),
        r.1.inheritable == sets.inheritable & !(1u64 << cap),
{
    let gone = 1u64 << cap;
    (
        Cred::DropBounding(cap),
        CapSets {
            effective: drop_capability(sets.effective, gone),
            permitted: drop_capability(sets.permitted, gone),
            inheritable: drop_capability(sets.inheritable, gone),
        },
    )
}

proof fn lemma_dropped(keep: u64, bounding: u64, n: int, cap: u32)
    requires
        0 <= cap < n <= LAST_CAP + 1,
    ensures
        dropped(keep, bounding, n).contains(CredView::DropBounding(cap)) <==> (!in_set(keep, cap)
            && in_set(bounding, cap)),
        forall|i: int|
            0 <= i < dropped(keep, bounding, n).len() ==> #[trigger] dropped(
                keep,
                bounding,
                n,
            )[i] is DropBounding,
    decreases n,
{
    let all = dropped(keep, bounding, n);
    let before = dropped(keep, bounding, n - 1);
    lemma_dropped_below(keep, bounding, n - 1);
    if n - 1 == cap {
        if !in_set(keep, cap) && in_set(bounding, cap) {
            assert(all[all.len() - 1] == CredView::DropBounding(cap));
        } else if all.contains(CredView::DropBounding(cap)) {
            let i = choose|i: int| 0 <= i < all.len() && all[i] == CredView::DropBounding(cap);
            assert(before[i] == CredView::DropBounding(cap));
        }
    } else {
        lemma_dropped(keep, bounding, n - 1, cap);
        let last = CredView::DropBounding((n - 1) as u32);
        if !in_set(keep, (n - 1) as u32) && in_set(bounding, (n - 1) as u32) {
            vstd::seq_lib::lemma_seq_contains_after_push(before, last, CredView::DropBounding(cap));
        }
    }
}

proof fn lemma_dropped_below(keep: u64, bounding: u64, n: int)
    requires
        n <= LAST_CAP + 1,
    ensures
        forall|i: int|
            0 <= i < dropped(keep, bounding, n).len() ==> (#[trigger] dropped(
                keep,
                bounding,
                n,
            )[i] matches Cred::DropBounding(c) && c < n),
    decreases n,
{
    if n > 0 {
        lemma_dropped_below(keep, bounding, n - 1);
    }
}

/// Every capability that is not kept leaves the bounding set, and no other does: nothing that
/// is exec'd from here on can have more than what is kept.
pub proof fn only_what_is_kept_is_left(keep: u64, bounding: u64, cap: u32)
    requires
        cap <= LAST_CAP,
    ensures
        dropped(keep, bounding, LAST_CAP + 1).contains(CredView::DropBounding(cap)) <==> (!in_set(
            keep,
            cap,
        ) && in_set(bounding, cap)),
{
    lemma_dropped(keep, bounding, LAST_CAP + 1, cap);
}

/// An app keeps no capability: with none to keep, none is raised and all of the bounding set
/// goes.
pub proof fn an_app_keeps_nothing(bounding: u64, cap: u32)
    requires
        cap <= LAST_CAP,
    ensures
        !in_set(0, cap),
        raised(0, LAST_CAP + 1).len() == 0,
{
    assert((0u64 >> cap) & 1 == 0) by (bit_vector);
    lemma_none_raised(LAST_CAP + 1);
}

proof fn lemma_none_raised(n: int)
    requires
        n <= LAST_CAP + 1,
    ensures
        raised(0, n).len() == 0,
    decreases n,
{
    if n > 0 {
        lemma_none_raised(n - 1);
        let cap = (n - 1) as u32;
        assert((0u64 >> cap) & 1 == 0) by (bit_vector);
    }
}

/// The secure bits: no root, no fixups, no ambient raise, each with its lock, and the keeping of
/// capabilities locked off; and the two on executing with theirs.
pub proof fn the_secure_bits()
    ensures
        base_bits() == 0x1 + 0x2 + 0x4 + 0x8 + 0x20 + 0x40 + 0x80,
        exec_bits() == 0x100 + 0x200 + 0x400 + 0x800,
        forall|bit: int| #[trigger] locked(bit) == bit + 2 * bit,
{
}

/// A capability is in a set where its bit is set.
pub proof fn a_capability_is_a_bit(set: u64, cap: u32)
    requires
        cap <= 40,
    ensures
        in_set(set, cap) <==> set & (1u64 << cap) != 0,
{
    assert(((set >> cap) & 1 == 1) == (set & (1u64 << cap) != 0)) by (bit_vector)
        requires
            cap <= 40,
    ;
}

proof fn lemma_raised(keep: u64, n: int, cap: u32)
    requires
        n <= LAST_CAP + 1,
    ensures
        raised(keep, n).contains(CredView::RaiseAmbient(cap)) <==> cap < n && in_set(keep, cap),
        forall|i: int|
            0 <= i < raised(keep, n).len() ==> #[trigger] raised(keep, n)[i] is RaiseAmbient,
    decreases n,
{
    if n > 0 {
        lemma_raised(keep, n - 1, cap);
        let before = raised(keep, n - 1);
        let last = CredView::RaiseAmbient((n - 1) as u32);
        vstd::seq_lib::lemma_seq_contains_after_push(before, last, CredView::RaiseAmbient(cap));
    }
}

/// Every capability that is kept is raised in the ambient set, and no other.
pub proof fn what_is_kept_is_raised(keep: u64, cap: u32)
    ensures
        raised(keep, 41).contains(CredView::RaiseAmbient(cap)) <==> cap <= 40 && in_set(keep, cap),
{
    lemma_raised(keep, 41, cap);
}

/// Becoming another user: first the bounding set goes, then the groups, the group and the user
/// are taken in this order and checked, and only then are the capabilities set to those that
/// are kept; with none to keep nothing keeps them across the change.
pub proof fn users_change_in_order(uid: u32, gid: u32, groups: Seq<u32>, caps: u64, bounding: u64)
    ensures
        ({
            let acts = switch_acts(uid, gid, groups, caps, bounding);
            let n = dropped(caps, bounding, 41).len() as int;
            let k: int = if caps != 0 { 1 } else { 0 };
            &&& acts.len() == n + k + 6 + raised(caps, 41).len() + k
            &&& forall|i: int| 0 <= i < n ==> #[trigger] acts[i] is DropBounding
            &&& caps != 0 ==> acts[n] == CredView::KeepCaps(true)
            &&& acts[n + k] == CredView::SetGroups(groups)
            &&& acts[n + k + 1] == CredView::SetGid(gid)
            &&& acts[n + k + 2] == CredView::SetUid(uid)
            &&& acts[n + k + 3] == CredView::CheckUid(uid)
            &&& acts[n + k + 4] == CredView::ClearAmbient
            &&& acts[n + k + 5] == CredView::SetCaps(caps)
            &&& caps != 0 ==> acts.last() == CredView::KeepCaps(false)
        }),
{
    lemma_dropped_below(caps, bounding, 41);
    let d = dropped(caps, bounding, 41);
    let acts = switch_acts(uid, gid, groups, caps, bounding);
    assert forall|i: int| 0 <= i < d.len() implies #[trigger] acts[i] is DropBounding by {
        assert(acts[i] == d[i]);
    }
}

} // verus!
