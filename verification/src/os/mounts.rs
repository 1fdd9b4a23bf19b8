//! Mount flags, and what `mount_setattr` is asked for.
use vstd::prelude::*;

verus! {

/// The four flags a mount is given exactly.
#[derive(Clone, Copy, Debug, PartialEq, Eq, Structural)]
pub struct Attrs {
    pub rdonly: bool,
    pub nosuid: bool,
    pub nodev: bool,
    pub noexec: bool,
}

pub const MOUNT_ATTR_RDONLY: u64 = 1;

pub const MOUNT_ATTR_NOSUID: u64 = 2;

pub const MOUNT_ATTR_NODEV: u64 = 4;

pub const MOUNT_ATTR_NOEXEC: u64 = 8;

pub const MOUNT_ATTR_IDMAP: u64 = 0x10_0000;

pub const MS_PRIVATE: u64 = 0x4_0000;

pub const AT_EMPTY_PATH: u32 = 0x1000;

pub const AT_RECURSIVE: u32 = 0x8000;

/// Read-only, no set-id programs, no device nodes.
pub open spec fn spec_ro() -> Attrs {
    Attrs { rdonly: true, nosuid: true, nodev: true, noexec: false }
}

/// As `ro`, and nothing runs from it.
pub open spec fn spec_ro_noexec() -> Attrs {
    Attrs { rdonly: true, nosuid: true, nodev: true, noexec: true }
}

/// Writable, and nothing runs from it.
pub open spec fn spec_rw_noexec() -> Attrs {
    Attrs { rdonly: false, nosuid: true, nodev: true, noexec: true }
}

/// Read-only with device nodes in it.
pub open spec fn spec_dev_view() -> Attrs {
    Attrs { rdonly: true, nosuid: true, nodev: false, noexec: true }
}

/// Writable with device nodes in it.
pub open spec fn spec_dev_fs() -> Attrs {
    Attrs { rdonly: false, nosuid: true, nodev: false, noexec: true }
}

#[verifier::when_used_as_spec(spec_ro)]
pub fn ro() -> (r: Attrs)
    ensures
        r == spec_ro(),
{
    Attrs { rdonly: true, nosuid: true, nodev: true, noexec: false }
}

#[verifier::when_used_as_spec(spec_ro_noexec)]
pub fn ro_noexec() -> (r: Attrs)
    ensures
        r == spec_ro_noexec(),
{
    Attrs { rdonly: true, nosuid: true, nodev: true, noexec: true }
}

#[verifier::when_used_as_spec(spec_rw_noexec)]
pub fn rw_noexec() -> (r: Attrs)
    ensures
        r == spec_rw_noexec(),
{
    Attrs { rdonly: false, nosuid: true, nodev: true, noexec: true }
}

#[verifier::when_used_as_spec(spec_dev_view)]
pub fn dev_view() -> (r: Attrs)
    ensures
        r == spec_dev_view(),
{
    Attrs { rdonly: true, nosuid: true, nodev: false, noexec: true }
}

#[verifier::when_used_as_spec(spec_dev_fs)]
pub fn dev_fs() -> (r: Attrs)
    ensures
        r == spec_dev_fs(),
{
    Attrs { rdonly: false, nosuid: true, nodev: false, noexec: true }
}

/// No set-id programs, no device nodes; programs may run.
pub open spec fn spec_rw() -> Attrs {
    Attrs { rdonly: false, nosuid: true, nodev: true, noexec: false }
}

#[verifier::when_used_as_spec(spec_rw)]
pub fn rw() -> (r: Attrs)
    ensures
        r == spec_rw(),
{
    Attrs { rdonly: false, nosuid: true, nodev: true, noexec: false }
}

/// What the kernel is handed: `struct mount_attr` and the flags of the call.
#[derive(Clone, Copy, Debug, PartialEq, Eq, Structural)]
pub struct MountAttr {
    pub attr_set: u64,
    pub attr_clr: u64,
    pub propagation: u64,
    pub userns_fd: u64,
    pub flags: u32,
}

/// A flag's bit where it is asked for.
pub open spec fn bit(on: bool, flag: u64) -> int {
    if on {
        flag as int
    } else {
        0
    }
}

impl Attrs {
    /// The flags as the kernel's bits.
    pub open spec fn spec_bits(self) -> int {
        bit(self.rdonly, MOUNT_ATTR_RDONLY) + bit(self.nosuid, MOUNT_ATTR_NOSUID) + bit(
            self.nodev,
            MOUNT_ATTR_NODEV,
        ) + bit(self.noexec, MOUNT_ATTR_NOEXEC)
    }

    /// The flags that are not asked for.
    pub open spec fn spec_others(self) -> Attrs {
        Attrs {
            rdonly: !self.rdonly,
            nosuid: !self.nosuid,
            nodev: !self.nodev,
            noexec: !self.noexec,
        }
    }

    /// The flags as the kernel's bits.
    pub fn bits(self) -> (r: u64)
        ensures
            r == self.spec_bits(),
            r <= 15,
    {
        let a: u64 = if self.rdonly { MOUNT_ATTR_RDONLY } else { 0 };
        let b: u64 = if self.nosuid { MOUNT_ATTR_NOSUID } else { 0 };
        let c: u64 = if self.nodev { MOUNT_ATTR_NODEV } else { 0 };
        let d: u64 = if self.noexec { MOUNT_ATTR_NOEXEC } else { 0 };
        a + b + c + d
    }

    /// The flags that are not asked for.
    pub fn others(self) -> (r: Attrs)
        ensures
            r == self.spec_others(),
    {
        Attrs {
            rdonly: !self.rdonly,
            nosuid: !self.nosuid,
            nodev: !self.nodev,
            noexec: !self.noexec,
        }
    }
}

/// Exactly `attrs` of the four flags, and private propagation, on a mount (and beneath): the
/// flags that are not asked for are cleared.
pub fn set_attrs(attrs: Attrs, recursive: bool) -> (r: MountAttr)
    ensures
        r.attr_set == attrs.spec_bits(),
        r.attr_clr == attrs.spec_others().spec_bits(),
        r.propagation == MS_PRIVATE,
        r.userns_fd == 0,
        r.flags == if recursive {
            AT_EMPTY_PATH + AT_RECURSIVE
        } else {
            AT_EMPTY_PATH as int
        },
{
    let flags: u32 = if recursive { AT_EMPTY_PATH + AT_RECURSIVE } else { AT_EMPTY_PATH };
    MountAttr {
        attr_set: attrs.bits(),
        attr_clr: attrs.others().bits(),
        propagation: MS_PRIVATE,
        userns_fd: 0,
        flags,
    }
}

/// Exactly `attrs` of the four flags on a mount (and beneath), its propagation as it was: what
/// an app's root is built of.
pub fn set_flags(attrs: Attrs, recursive: bool) -> (r: MountAttr)
    ensures
        r.attr_set == attrs.spec_bits(),
        r.attr_clr == attrs.spec_others().spec_bits(),
        r.propagation == 0,
        r.userns_fd == 0,
        r.flags == if recursive {
            AT_EMPTY_PATH + AT_RECURSIVE
        } else {
            AT_EMPTY_PATH as int
        },
{
    let mut attr = set_attrs(attrs, recursive);
    attr.propagation = 0;
    attr
}

/// A detached mount shown through a user namespace's mapping.
pub fn set_idmap(userns_fd: u32) -> (r: MountAttr)
    ensures
        r == (MountAttr {
            attr_set: MOUNT_ATTR_IDMAP,
            attr_clr: 0,
            propagation: 0,
            userns_fd: userns_fd as u64,
            flags: AT_EMPTY_PATH,
        }),
{
    MountAttr {
        attr_set: MOUNT_ATTR_IDMAP,
        attr_clr: 0,
        propagation: 0,
        userns_fd: userns_fd as u64,
        flags: AT_EMPTY_PATH,
    }
}

/// Every one of the four flags is either set or cleared, and none is both: a clone keeps
/// nothing of its source's flags.
pub proof fn each_flag_is_set_or_cleared(attrs: Attrs)
    ensures
        attrs.spec_bits() + attrs.spec_others().spec_bits() == 15,
        attrs.spec_others().spec_others() == attrs,
{
}

/// What the sets of flags are: only `ro` and `rw` let programs run, only the two for devices
/// let device nodes work, `rw`, `rw_noexec` and `dev_fs` let be written, and none lets a set-id
/// bit count.
pub proof fn what_the_flags_are()
    ensures
        ro() == (Attrs { rdonly: true, nosuid: true, nodev: true, noexec: false }),
        ro_noexec() == (Attrs { rdonly: true, nosuid: true, nodev: true, noexec: true }),
        rw() == (Attrs { rdonly: false, nosuid: true, nodev: true, noexec: false }),
        rw_noexec() == (Attrs { rdonly: false, nosuid: true, nodev: true, noexec: true }),
        dev_view() == (Attrs { rdonly: true, nosuid: true, nodev: false, noexec: true }),
        dev_fs() == (Attrs { rdonly: false, nosuid: true, nodev: false, noexec: true }),
{
}

/// The kernel's bit of each flag: 1 for read-only, 2 for no set-id bits, 4 for no device nodes,
/// 8 for no programs; and the others are those that are not asked for.
pub proof fn each_flag_has_its_bit(attrs: Attrs, bits: u64)
    requires
        bits == attrs.spec_bits(),
    ensures
        attrs.rdonly <==> bits & 1 != 0,
        attrs.nosuid <==> bits & 2 != 0,
        attrs.nodev <==> bits & 4 != 0,
        attrs.noexec <==> bits & 8 != 0,
        bits <= 15,
        attrs.spec_others() == (Attrs {
            rdonly: !attrs.rdonly,
            nosuid: !attrs.nosuid,
            nodev: !attrs.nodev,
            noexec: !attrs.noexec,
        }),
{
    let a: u64 = if attrs.rdonly { 1 } else { 0 };
    let b: u64 = if attrs.nosuid { 2 } else { 0 };
    let c: u64 = if attrs.nodev { 4 } else { 0 };
    let d: u64 = if attrs.noexec { 8 } else { 0 };
    assert(bits == a + b + c + d);
    assert((bits & 1 != 0) == (a == 1) && (bits & 2 != 0) == (b == 2) && (bits & 4 != 0) == (c == 4)
        && (bits & 8 != 0) == (d == 8)) by (bit_vector)
        requires
            bits == a + b + c + d,
            a == 0 || a == 1,
            b == 0 || b == 2,
            c == 0 || c == 4,
            d == 0 || d == 8,
    ;
}

} // verus!
