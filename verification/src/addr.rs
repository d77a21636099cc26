//! Physical and virtual address arithmetic.
//!
//! Addresses are wrapped in `PhysAddr` / `VirtAddr` so that the two spaces
//! cannot be confused, and all page-granular arithmetic (alignment, rounding,
//! page-table indexing) is proved exact here once and for all.

use vstd::prelude::*;

verus! {

/// Size of one page of physical memory, in bytes.
pub const PGSIZE: usize = 4096;

/// Virtual address at which the kernel address space begins.
pub const KERNBASE: usize = 0x8000_0000;

/// Physical address where extended memory starts.
pub const EXTMEM: usize = 0x10_0000;

/// Virtual address where the kernel image is linked.
pub const KERNLINK: usize = KERNBASE + EXTMEM;

/// Top of usable physical memory.
pub const PHYSTOP: usize = 0xE00_0000;

/// Memory-mapped devices live at and above this virtual address.
pub const DEVSPACE: usize = 0xFE00_0000;

/// Shift of the page-directory index within a virtual address.
pub const PDXSHIFT: usize = 22;

/// Shift of the page-table index within a virtual address.
pub const PTXSHIFT: usize = 12;

/// Largest multiple of `PGSIZE` that is at most `a`.
pub open spec fn spec_page_rounddown(a: int) -> int {
    (a / (PGSIZE as int)) * (PGSIZE as int)
}

/// Smallest multiple of `PGSIZE` that is at least `a`.
pub open spec fn spec_page_roundup(a: int) -> int {
    spec_page_rounddown(a + (PGSIZE as int) - 1)
}

/// Basic facts about rounding an address down to a page boundary.
pub proof fn lemma_page_rounddown(a: int)
    requires
        0 <= a,
    ensures
        spec_page_rounddown(a) % (PGSIZE as int) == 0,
        spec_page_rounddown(a) <= a < spec_page_rounddown(a) + (PGSIZE as int),
{
    let p = PGSIZE as int;
    assert((a / p) * p % p == 0) by (nonlinear_arith)
        requires p == 4096;
    assert((a / p) * p <= a < (a / p) * p + p) by (nonlinear_arith)
        requires p == 4096 && 0 <= a;
}

/// Basic facts about rounding an address up to a page boundary.
pub proof fn lemma_page_roundup(a: int)
    requires
        0 <= a,
    ensures
        spec_page_roundup(a) % (PGSIZE as int) == 0,
        a <= spec_page_roundup(a) < a + (PGSIZE as int),
{
    lemma_page_rounddown(a + (PGSIZE as int) - 1);
}

/// Common operations of `PhysAddr` and `VirtAddr`.
pub trait Address: Sized {
    /// The raw numeric value of the address.
    spec fn value(&self) -> usize;

    fn new(addr: usize) -> (r: Self)
        ensures
            r.value() == addr;

    fn addr(&self) -> (r: usize)
        ensures
            r == self.value();

    fn is_page_aligned(&self) -> (r: bool)
        ensures
            r == (self.value() % PGSIZE == 0),
    {
        self.addr() % PGSIZE == 0
    }

    fn page_roundup(&self) -> (r: Self)
        requires
            self.value() + PGSIZE - 1 <= usize::MAX,
        ensures
            r.value() == spec_page_roundup(self.value() as int),
    {
        let a = self.addr();
        let rounded = ((a + (PGSIZE - 1)) / PGSIZE) * PGSIZE;
        proof {
            lemma_page_rounddown(a + (PGSIZE as int) - 1);
        }
        Self::new(rounded)
    }

    fn page_rounddown(&self) -> (r: Self)
        ensures
            r.value() == spec_page_rounddown(self.value() as int),
    {
        let a = self.addr();
        let rounded = (a / PGSIZE) * PGSIZE;
        proof {
            lemma_page_rounddown(a as int);
        }
        Self::new(rounded)
    }

    /// The index of the page holding this address.
    fn pageno(&self) -> (r: usize)
        ensures
            r == self.value() / PGSIZE,
    {
        self.addr() / PGSIZE
    }

    /// Pointer-style arithmetic: advance by `off` elements of type `T`.
    fn offset<T>(&self, off: usize) -> (r: Self)
        requires
            self.value() + vstd::layout::size_of::<T>() * off <= usize::MAX,
        ensures
            r.value() == self.value() + vstd::layout::size_of::<T>() * off,
    {
        let size = core::mem::size_of::<T>();
        proof {
            assert(size * off == vstd::layout::size_of::<T>() * off) by (nonlinear_arith)
                requires size == vstd::layout::size_of::<T>();
        }
        Self::new(self.addr() + size * off)
    }
}

/// A physical memory address.
#[derive(Clone, Copy, PartialEq, Eq, Structural, Debug)]
pub struct PhysAddr(pub usize);

/// A virtual (paged) memory address.
#[derive(Clone, Copy, PartialEq, Eq, Structural, Debug)]
pub struct VirtAddr(pub usize);

impl Address for PhysAddr {
    open spec fn value(&self) -> usize {
        self.0
    }

    fn new(addr: usize) -> (r: Self) {
        PhysAddr(addr)
    }

    fn addr(&self) -> (r: usize) {
        self.0
    }
}

impl Address for VirtAddr {
    open spec fn value(&self) -> usize {
        self.0
    }

    fn new(addr: usize) -> (r: Self) {
        VirtAddr(addr)
    }

    fn addr(&self) -> (r: usize) {
        self.0
    }
}

impl PhysAddr {
    pub fn new(addr: usize) -> (r: PhysAddr)
        ensures
            r.0 == addr,
    {
        PhysAddr(addr)
    }

    /// The virtual address this physical address is mapped at, through the
    /// fixed kernel offset.
    pub fn to_virt(&self) -> (r: VirtAddr)
        requires
            self.0 + KERNBASE <= usize::MAX,
        ensures
            r.0 == self.0 + KERNBASE,
    {
        VirtAddr(self.0 + KERNBASE)
    }
}

impl VirtAddr {
    pub fn new(addr: usize) -> (r: VirtAddr)
        ensures
            r.0 == addr,
    {
        VirtAddr(addr)
    }

    /// The physical address behind this kernel virtual address.
    pub fn to_phys(&self) -> (r: PhysAddr)
        requires
            KERNBASE <= self.0,
        ensures
            r.0 == self.0 - KERNBASE,
    {
        PhysAddr(self.0 - KERNBASE)
    }

    /// Index of this address's entry in the page directory.
    pub fn page_dir_index(&self) -> (r: usize)
        ensures
            r == (self.0 >> PDXSHIFT) & 0x3FF,
            r < 1024,
    {
        let a = self.0;
        let r = (a >> PDXSHIFT) & 0x3FF;
        proof {
            assert((a >> 22) & 0x3FF < 1024) by (bit_vector);
        }
        r
    }

    /// Index of this address's entry within a page table.
    pub fn page_table_index(&self) -> (r: usize)
        ensures
            r == (self.0 >> PTXSHIFT) & 0x3FF,
            r < 1024,
    {
        let a = self.0;
        let r = (a >> PTXSHIFT) & 0x3FF;
        proof {
            assert((a >> 12) & 0x3FF < 1024) by (bit_vector);
        }
        r
    }
}

} // verus!
