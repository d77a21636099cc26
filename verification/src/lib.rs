//! Core data structures and algorithms of a small teaching kernel: the
//! physical page allocators, address arithmetic, the on-disk filesystem,
//! and the register-level bookkeeping of its drivers.

pub mod addr;
pub mod allocator;
pub mod buffercache;
pub mod console;
pub mod elf;
pub mod file;
pub mod fs;
pub mod ide;
pub mod kmem;
pub mod pci;
pub mod pcie;
pub mod picirq;
pub mod portio;
pub mod process;
pub mod rtl8139;
pub mod traps;
pub mod uart;
pub mod vm;

use vstd::prelude::*;

verus! {

/// Page-directory entry bit: present.
pub const PTE_P: u32 = 0x001;

/// Page-directory entry bit: writable.
pub const PTE_W: u32 = 0x002;

/// Page-directory entry bit: 4-megabyte page.
pub const PTE_PS: u32 = 0x080;

/// A dummy type whose only purpose is page alignment of whatever embeds
/// a (zero-length) array of it.
pub struct PageAligner4K(pub [u64; 512]);

/// The page directory the boot code starts under: two 4-megabyte
/// mappings of the first physical megabytes, one at address zero and one
/// at the kernel base.
pub struct EntryPgDir {
    pub align: [PageAligner4K; 0],
    pub array: Vec<u32>,
}

impl EntryPgDir {
    /// Build the boot page directory: entry 0 and the entry covering
    /// `KERNBASE` map the first 4 megabytes as present, writable, large
    /// pages; every other entry stays empty. The kernel-base entry sits
    /// at `KERNBASE >> PDXSHIFT`.
    pub fn new() -> (r: EntryPgDir)
        ensures
            r.array@.len() == 1024,
            r.array@[0] == (PTE_P | PTE_W | PTE_PS),
            r.array@[512] == (PTE_P | PTE_W | PTE_PS),
            forall|i: int|
                0 <= i < 1024 && i != 0 && i != 512 ==> (#[trigger] r.array@[i]) == 0,
    {
        let mut array: Vec<u32> = Vec::new();
        let mut i: usize = 0;
        while i < 1024
            invariant
                i <= 1024,
                array@.len() == i,
                forall|j: int| 0 <= j < i ==> (#[trigger] array@[j]) == 0,
            decreases 1024 - i,
        {
            array.push(0);
            i = i + 1;
        }
        array.set(0, PTE_P | PTE_W | PTE_PS);
        array.set(512, PTE_P | PTE_W | PTE_PS);
        EntryPgDir { align: [], array }
    }
}

} // verus!
