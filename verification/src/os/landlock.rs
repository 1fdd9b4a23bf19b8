//! Landlock: rules are paths with access bits; a rule on a directory covers everything beneath
//! it. Nothing here is permissive: a kernel without Landlock is an error.
use vstd::prelude::*;
use vstd::string::*;

verus! {

pub const EXECUTE: u64 = 0x1;

pub const WRITE_FILE: u64 = 0x2;

pub const READ_FILE: u64 = 0x4;

pub const READ_DIR: u64 = 0x8;

pub const REMOVE_DIR: u64 = 0x10;

pub const REMOVE_FILE: u64 = 0x20;

pub const MAKE_CHAR: u64 = 0x40;

pub const MAKE_DIR: u64 = 0x80;

pub const MAKE_REG: u64 = 0x100;

pub const MAKE_SOCK: u64 = 0x200;

pub const MAKE_FIFO: u64 = 0x400;

pub const MAKE_BLOCK: u64 = 0x800;

pub const MAKE_SYM: u64 = 0x1000;

pub const REFER: u64 = 0x2000;

pub const TRUNCATE: u64 = 0x4000;

pub const IOCTL_DEV: u64 = 0x8000;

/// Everything the first version of Landlock knows.
pub const FIRST: u64 = 0x1fff;

/// Read only: files, listings.
pub const READ: u64 = 0xc;

/// What a file (not a directory) can be given.
pub const FILE_BITS: u64 = 0xc007;

/// Abstract sockets and signals stay in the domain.
pub const SCOPED: u64 = 0x3;

/// What the kernel is asked to handle.
#[derive(Clone, Copy, Debug, PartialEq, Eq, Structural)]
pub struct RulesetAttr {
    pub handled_access_fs: u64,
    pub handled_access_net: u64,
    pub scoped: u64,
}

/// A bit from the version on that knows it.
pub open spec fn since(abi: i64, version: int, bit: u64) -> int {
    if abi >= version {
        bit as int
    } else {
        0
    }
}

/// Every filesystem access a version knows.
pub open spec fn handled_by(abi: i64) -> int {
    FIRST + since(abi, 2, REFER) + since(abi, 3, TRUNCATE) + since(abi, 5, IOCTL_DEV)
}

/// A ruleset: anything not allowed by a rule is denied.
#[derive(Clone, Copy, Debug, PartialEq, Eq, Structural)]
pub struct Ruleset {
    /// Every filesystem access the kernel knows.
    pub handled: u64,
}

/// What the kernel is asked for, and how long it expects the question to be.
#[derive(Clone, Copy, Debug, PartialEq, Eq, Structural)]
pub struct Creation {
    pub ruleset: Ruleset,
    pub attr: RulesetAttr,
    pub size: usize,
}

/// What was found at a rule's path.
#[derive(Clone, Copy, Debug, PartialEq, Eq, Structural)]
pub enum Found {
    Dir,
    File,
    Missing,
}

/// What becomes of a rule.
#[derive(Clone, Copy, Debug, PartialEq, Eq, Structural)]
pub enum Rule {
    /// The path is not there: no hole.
    Skip,
    /// Nothing of it applies.
    Nothing,
    Add(u64),
}

impl Ruleset {
    /// A ruleset handling every filesystem access this kernel has, with abstract sockets and
    /// signals scoped to the domain where the kernel can. `abi` is what the kernel says its
    /// version is.
    pub fn new(abi: i64) -> (r: Result<Creation, String>)
        ensures
            match r {
                Ok(c) => {
                    &&& abi >= 0
                    &&& c.ruleset.handled == handled_by(abi)
                    &&& c.attr == (RulesetAttr {
                        handled_access_fs: c.ruleset.handled,
                        handled_access_net: 0,
                        scoped: if abi >= 6 {
                            SCOPED
                        } else {
                            0
                        },
                    })
                    &&& c.size == if abi >= 6 {
                        24
                    } else if abi >= 4 {
                        16
                    } else {
                        8int
                    }
                },
                Err(e) => abi < 0 && e@ == "no Landlock in this kernel"@,
            },
    {
        if abi < 0 {
            return Err("no Landlock in this kernel".to_owned());
        }
        let mut handled: u64 = FIRST;
        if abi >= 2 {
            handled = handled + REFER;
        }
        if abi >= 3 {
            handled = handled + TRUNCATE;
        }
        if abi >= 5 {
            handled = handled + IOCTL_DEV;
        }
        let attr = RulesetAttr {
            handled_access_fs: handled,
            handled_access_net: 0,
            scoped: if abi >= 6 { SCOPED } else { 0 },
        };
        let size: usize = if abi >= 6 {
            24
        } else if abi >= 4 {
            16
        } else {
            8
        };
        Ok(Creation { ruleset: Ruleset { handled }, attr, size })
    }

    /// Everything the kernel handles: read, write, create, remove, rename.
    pub fn all(&self) -> (r: u64)
        ensures
            r == self.handled,
    {
        self.handled
    }

    /// The access that a rule gives.
    pub open spec fn given(&self, access: u64, dir: bool) -> u64 {
        if dir {
            access & self.handled
        } else {
            access & self.handled & FILE_BITS
        }
    }

    /// `access` at a path and beneath. A file gets only what a file can have. A path that is
    /// not there is skipped.
    pub fn allow(&self, access: u64, found: Found) -> (r: Rule)
        ensures
            r == match found {
                Found::Missing => Rule::Skip,
                Found::Dir => if self.given(access, true) == 0 {
                    Rule::Nothing
                } else {
                    Rule::Add(self.given(access, true))
                },
                Found::File => if self.given(access, false) == 0 {
                    Rule::Nothing
                } else {
                    Rule::Add(self.given(access, false))
                },
            },
    {
        let allowed: u64 = match found {
            Found::Missing => return Rule::Skip,
            Found::Dir => access & self.handled,
            Found::File => access & self.handled & FILE_BITS,
        };
        if allowed == 0 {
            Rule::Nothing
        } else {
            Rule::Add(allowed)
        }
    }
}

/// A rule never gives more than was asked for, than the kernel handles, or, on a file, than a
/// file can have.
pub proof fn rules_give_no_more(ruleset: Ruleset, access: u64, dir: bool)
    ensures
        ruleset.given(access, dir) & !access == 0,
        ruleset.given(access, dir) & !ruleset.handled == 0,
        !dir ==> ruleset.given(access, dir) & !FILE_BITS == 0,
{
    let h = ruleset.handled;
    assert((access & h) & !access == 0) by (bit_vector);
    assert((access & h) & !h == 0) by (bit_vector);
    assert((access & h & FILE_BITS) & !access == 0) by (bit_vector);
    assert((access & h & FILE_BITS) & !h == 0) by (bit_vector);
    assert((access & h & FILE_BITS) & !FILE_BITS == 0) by (bit_vector);
}

/// A later version of Landlock handles at least what an earlier one does.
pub proof fn later_versions_handle_more(a: i64, b: i64)
    requires
        0 <= a <= b,
    ensures
        handled_by(a) <= handled_by(b),
{
}

/// What each version of Landlock handles: moving and linking from the second on, cutting files
/// from the third, device ioctls from the fifth.
pub proof fn what_each_version_handles(abi: i64)
    requires
        abi >= 0,
    ensures
        abi < 2 ==> handled_by(abi) == 0x1fff,
        abi == 2 ==> handled_by(abi) == 0x3fff,
        3 <= abi < 5 ==> handled_by(abi) == 0x7fff,
        abi >= 5 ==> handled_by(abi) == 0xffff,
{
}

/// A rule gives on a directory all that was asked for and is handled, and on a file what of that
/// a file can have: running, writing, reading, cutting and ioctls.
pub proof fn rules_give_what_was_asked(ruleset: Ruleset, access: u64, bit: u64)
    ensures
        ruleset.given(access, true) & bit == (access & bit) & (ruleset.handled & bit),
        ruleset.given(access, false) & bit == (access & bit) & (ruleset.handled & bit) & 0xc007,
{
    let h = ruleset.handled;
    assert((access & h) & bit == (access & bit) & (h & bit)) by (bit_vector);
    assert((access & h & 0xc007u64) & bit == (access & bit) & (h & bit) & 0xc007u64)
        by (bit_vector);
}

} // verus!
