//! The patch flag: a bitmask that tells the runtime which aspects of a node
//! can change between renders. The numbers are fixed: runtimes and golden
//! files depend on them.

use vstd::prelude::*;

verus! {

pub const TEXT: u32 = 1;

pub const CLASS: u32 = 2;

pub const STYLE: u32 = 4;

pub const PROPS: u32 = 8;

/// The properties have keys that are known only at run time: the whole
/// property object is diffed, and the finer property bits mean nothing.
pub const FULL_PROPS: u32 = 16;

pub const HYDRATE_EVENTS: u32 = 32;

pub const STABLE_FRAGMENT: u32 = 64;

pub const KEYED_FRAGMENT: u32 = 128;

pub const UNKEYED_FRAGMENT: u32 = 256;

pub const NEED_PATCH: u32 = 512;

pub const DYNAMIC_SLOTS: u32 = 1024;

pub const DEV_ROOT_FRAGMENT: u32 = 2048;

pub const HOISTED: u32 = 4096;

pub const BAIL: u32 = 8192;

#[derive(Clone, Copy, Debug, PartialEq, Eq, Structural)]
pub struct PatchFlag {
    pub bits: u32,
}

/// `mask` where `on` holds, and no bit otherwise.
pub open spec fn bit_if(on: bool, mask: u32) -> u32 {
    if on {
        mask
    } else {
        0
    }
}

impl PatchFlag {
    /// Whether every bit of `mask` is set.
    pub open spec fn has(self, mask: u32) -> bool {
        self.bits & mask == mask
    }

    /// The flag with no bit set.
    pub fn empty() -> (f: PatchFlag)
        ensures
            f.bits == 0,
    {
        PatchFlag { bits: 0 }
    }

    /// Whether every bit of `mask` is set.
    pub fn contains(&self, mask: u32) -> (b: bool)
        ensures
            b == self.has(mask),
    {
        self.bits & mask == mask
    }

    /// Whether the full-properties bit is set. Readers test this first.
    pub fn is_bailout(&self) -> (b: bool)
        ensures
            b == self.has(FULL_PROPS),
    {
        self.contains(FULL_PROPS)
    }
}

/// Each name of the table is a single bit, and no two names share one.
pub proof fn lemma_bits_are_distinct()
    ensures
        TEXT == 1u32 << 0,
        CLASS == 1u32 << 1,
        STYLE == 1u32 << 2,
        PROPS == 1u32 << 3,
        FULL_PROPS == 1u32 << 4,
        HYDRATE_EVENTS == 1u32 << 5,
        STABLE_FRAGMENT == 1u32 << 6,
        KEYED_FRAGMENT == 1u32 << 7,
        UNKEYED_FRAGMENT == 1u32 << 8,
        NEED_PATCH == 1u32 << 9,
        DYNAMIC_SLOTS == 1u32 << 10,
        DEV_ROOT_FRAGMENT == 1u32 << 11,
        HOISTED == 1u32 << 12,
        BAIL == 1u32 << 13,
{
    assert(1u32 == 1u32 << 0 && 2u32 == 1u32 << 1 && 4u32 == 1u32 << 2 && 8u32 == 1u32 << 3 && 16u32 == 1u32
        << 4 && 32u32 == 1u32 << 5 && 64u32 == 1u32 << 6 && 128u32 == 1u32 << 7 && 256u32 == 1u32 << 8
        && 512u32 == 1u32 << 9 && 1024u32 == 1u32 << 10 && 2048u32 == 1u32 << 11 && 4096u32 == 1u32 << 12
        && 8192u32 == 1u32 << 13) by (bit_vector);
}

} // verus!
