//! Page-table entry layout and segment numbering.
//!
//! Walking and installing page tables touches raw memory and control
//! registers and lives with the boot code; the bit layout of the entries
//! themselves is fixed and proved here.

use vstd::prelude::*;
use crate::addr::PhysAddr;

verus! {

/// Entry bit: the mapping is present.
pub const PRESENT: usize = 1;

/// Entry bit: the mapping is writable.
pub const WRITABLE: usize = 1 << 1;

/// Entry bit: user code may use the mapping.
pub const USER: usize = 1 << 2;

/// A page-directory entry.
#[derive(Clone, Copy, PartialEq, Eq, Structural, Debug)]
pub struct PageDirEntry(pub usize);

/// A page-table entry.
#[derive(Clone, Copy, PartialEq, Eq, Structural, Debug)]
pub struct PageTableEntry(pub usize);

impl PageDirEntry {
    /// Build an entry pointing at `addr` with the given permission bits.
    pub fn new_entry(addr: PhysAddr, flags: usize) -> (r: PageDirEntry)
        ensures
            r.0 == (addr.0 | flags),
    {
        PageDirEntry(addr.0 | flags)
    }

    /// The physical address the entry points at: everything above the
    /// twelve flag bits.
    pub fn address(&self) -> (r: PhysAddr)
        ensures
            r.0 == self.0 & !0xFFF,
    {
        PhysAddr(self.0 & !0xFFF)
    }

    /// Whether the given flag bits are all set.
    pub fn contains(&self, flags: usize) -> (r: bool)
        ensures
            r == (self.0 & flags == flags),
    {
        self.0 & flags == flags
    }
}

impl PageTableEntry {
    /// Build an entry pointing at `addr` with the given permission bits.
    pub fn new_entry(addr: PhysAddr, flags: usize) -> (r: PageTableEntry)
        ensures
            r.0 == (addr.0 | flags),
    {
        PageTableEntry(addr.0 | flags)
    }

    /// The physical address the entry points at.
    pub fn address(&self) -> (r: PhysAddr)
        ensures
            r.0 == self.0 & !0xFFF,
    {
        PhysAddr(self.0 & !0xFFF)
    }

    /// Whether the given flag bits are all set.
    pub fn contains(&self, flags: usize) -> (r: bool)
        ensures
            r == (self.0 & flags == flags),
    {
        self.0 & flags == flags
    }
}

/// Global descriptor table slots.
#[derive(Clone, Copy, PartialEq, Eq, Structural, Debug)]
pub enum Segment {
    Null,
    KCode,
    KData,
    UCode,
    UData,
    TSS,
}

/// The descriptor-table index of each segment.
pub open spec fn spec_segment_index(s: Segment) -> usize {
    match s {
        Segment::Null => 0,
        Segment::KCode => 1,
        Segment::KData => 2,
        Segment::UCode => 3,
        Segment::UData => 4,
        Segment::TSS => 5,
    }
}

impl Segment {
    /// The descriptor-table index of this segment.
    pub fn index(&self) -> (r: usize)
        ensures
            r == spec_segment_index(*self),
    {
        match self {
            Segment::Null => 0,
            Segment::KCode => 1,
            Segment::KData => 2,
            Segment::UCode => 3,
            Segment::UData => 4,
            Segment::TSS => 5,
        }
    }
}

} // verus!
