//! Page-table entries: a frame's start address and a set of flag bits.

use vstd::prelude::*;
use crate::frame::{Frame, MAX_FRAME_COUNT};

verus! {

pub const PRESENT: u64 = 0x1;
pub const WRITABLE: u64 = 0x2;
pub const USER_ACCESSIBLE: u64 = 0x4;
pub const WRITE_THROUGH: u64 = 0x8;
pub const NO_CACHE: u64 = 0x10;
pub const ACCESSED: u64 = 0x20;
pub const DIRTY: u64 = 0x40;
pub const HUGE_PAGE: u64 = 0x80;
pub const GLOBAL: u64 = 0x100;
pub const NO_EXECUTE: u64 = 0x8000_0000_0000_0000;

/// Every bit that names a flag.
pub const FLAG_MASK: u64 = 0x8000_0000_0000_01ff;

/// The bits of an entry that hold the frame's start address.
pub const ADDRESS_MASK: u64 = 0x000f_ffff_ffff_f000;

/// The entry's present bit is set.
pub open spec fn raw_present(raw: u64) -> bool {
    raw & 0x1 != 0
}

/// The entry's huge-page bit is set.
pub open spec fn raw_huge(raw: u64) -> bool {
    raw & 0x80 != 0
}

/// The entry leads to a next-level table: present and not a huge page.
pub open spec fn raw_descends(raw: u64) -> bool {
    raw_present(raw) && !raw_huge(raw)
}

/// The number of the frame the entry points to.
pub open spec fn raw_frame(raw: u64) -> u64 {
    (raw & 0x000f_ffff_ffff_f000) >> 12
}

/// The raw value `set` writes for a frame number and flag bits.
pub open spec fn raw_of(number: u64, bits: u64) -> u64 {
    (number << 12) | (bits & 0x8000_0000_0000_01ff)
}

pub proof fn lemma_raw_of(number: u64, bits: u64)
    requires
        number < 0x100_0000_0000,
    ensures
        raw_frame(raw_of(number, bits)) == number,
        raw_present(raw_of(number, bits)) == (bits & 0x1 != 0),
        raw_huge(raw_of(number, bits)) == (bits & 0x80 != 0),
        bits & 0x1 != 0 ==> raw_of(number, bits) != 0,
{
    assert(((((number << 12) | (bits & 0x8000_0000_0000_01ff)) & 0x000f_ffff_ffff_f000) >> 12)
        == number) by (bit_vector)
        requires
            number < 0x100_0000_0000,
    ;
    assert((((number << 12) | (bits & 0x8000_0000_0000_01ff)) & 0x1 != 0) == (bits & 0x1 != 0))
        by (bit_vector);
    assert((((number << 12) | (bits & 0x8000_0000_0000_01ff)) & 0x80 != 0) == (bits & 0x80 != 0))
        by (bit_vector);
    assert(bits & 0x1 != 0 ==> ((number << 12) | (bits & 0x8000_0000_0000_01ff)) != 0)
        by (bit_vector);
}

/// A set of entry flags.
#[derive(Debug, Clone, Copy, PartialEq, Eq, Structural)]
pub struct EntryFlags {
    pub bits: u64,
}

impl EntryFlags {
    /// No flag set.
    pub fn empty() -> (r: EntryFlags)
        ensures
            r.bits == 0,
    {
        EntryFlags { bits: 0 }
    }

    /// The flags among `bits`; other bits are dropped.
    pub fn from_bits_truncate(bits: u64) -> (r: EntryFlags)
        ensures
            r.bits == bits & FLAG_MASK,
    {
        EntryFlags { bits: bits & FLAG_MASK }
    }

    /// Every flag of `other` is set in `self`.
    pub fn contains(&self, other: EntryFlags) -> (r: bool)
        ensures
            r == (self.bits & other.bits == other.bits),
    {
        self.bits & other.bits == other.bits
    }

    /// The flags set in either.
    pub fn union(&self, other: EntryFlags) -> (r: EntryFlags)
        ensures
            r.bits == self.bits | other.bits,
    {
        EntryFlags { bits: self.bits | other.bits }
    }
}

/// One slot of a page table.
#[derive(Debug, Clone, Copy, PartialEq, Eq, Structural)]
pub struct Entry {
    pub raw: u64,
}

impl Entry {
    /// The slot holds nothing at all.
    pub fn is_unused(&self) -> (r: bool)
        ensures
            r == (self.raw == 0),
    {
        self.raw == 0
    }

    pub fn set_unused(&mut self)
        ensures
            final(self).raw == 0,
    {
        self.raw = 0;
    }

    pub fn flags(&self) -> (r: EntryFlags)
        ensures
            r.bits == self.raw & FLAG_MASK,
    {
        EntryFlags::from_bits_truncate(self.raw)
    }

    /// The frame the entry points to, if it is present.
    pub fn pointed_frame(&self) -> (r: Option<Frame>)
        ensures
            raw_present(self.raw) ==> r == Some(Frame { number: raw_frame(self.raw) }),
            !raw_present(self.raw) ==> r is None,
            r matches Some(f) ==> f.number < MAX_FRAME_COUNT,
    {
        if self.raw & PRESENT != 0 {
            let raw = self.raw;
            let number = (raw & ADDRESS_MASK) >> 12;
            assert(((raw & 0x000f_ffff_ffff_f000) >> 12) < 0x100_0000_0000) by (bit_vector);
            Some(Frame { number })
        } else {
            None
        }
    }

    /// Points the entry at `frame` with `flags`.
    pub fn set(&mut self, frame: Frame, flags: EntryFlags)
        requires
            frame.number < MAX_FRAME_COUNT,
        ensures
            final(self).raw == raw_of(frame.number, flags.bits),
            raw_frame(final(self).raw) == frame.number,
            raw_present(final(self).raw) == (flags.bits & PRESENT != 0),
            raw_huge(final(self).raw) == (flags.bits & HUGE_PAGE != 0),
            flags.bits & PRESENT != 0 ==> final(self).raw != 0,
    {
        proof {
            lemma_raw_of(frame.number, flags.bits);
        }
        self.raw = (frame.number << 12) | (flags.bits & FLAG_MASK);
    }
}

} // verus!
