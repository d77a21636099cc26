//! The page-at-a-time free list.
//!
//! An earlier, simpler design than the range allocator: every free page is
//! its own node, the list is kept sorted by address, and an allocation of
//! several pages scans for a run of address-consecutive nodes. In the
//! running kernel each node lives in the page it describes; here the list
//! is an explicit vector of page records, which models the intrusive list
//! without raw pointers.

use vstd::prelude::*;
use crate::addr::{Address, VirtAddr, PGSIZE};
use crate::allocator::AllocError;

verus! {

/// One free page, identified by its page-aligned start address.
#[derive(Clone, Copy, PartialEq, Eq, Structural, Debug)]
pub struct Run {
    pub addr: usize,
}

/// Whether the free list holds the page starting at `a`.
pub open spec fn kmem_has(v: Seq<Run>, a: int) -> bool {
    exists|i: int| 0 <= i < v.len() && (#[trigger] v[i].addr) == a
}

/// Sorted, aligned, in-bounds free pages.
pub open spec fn wf_runs(v: Seq<Run>, kernel_end: int, mem_top: int) -> bool {
    &&& forall|i: int|
        0 <= i < v.len() ==> {
            &&& (#[trigger] v[i].addr) as int % (PGSIZE as int) == 0
            &&& kernel_end <= v[i].addr
            &&& v[i].addr + PGSIZE <= mem_top
        }
    &&& forall|i: int| 0 <= i < v.len() - 1 ==> (#[trigger] v[i].addr) < v[i + 1].addr
}

/// Whether a run of pages may begin at index `i`: the node before it, if
/// any, is not address-adjacent.
pub open spec fn run_start(v: Seq<Run>, i: int) -> bool {
    i == 0 || v[i - 1].addr + PGSIZE != v[i].addr
}

/// Whether the `n` nodes from index `i` on are address-consecutive pages.
pub open spec fn consecutive(v: Seq<Run>, i: int, n: int) -> bool {
    &&& i + n <= v.len()
    &&& forall|k: int| i <= k < i + n - 1 ==> v[k + 1].addr == (#[trigger] v[k].addr) + PGSIZE
}

/// Whether an allocation of `n` pages can be served starting at index
/// `i`: a run begins there and covers `n` consecutive pages.
pub open spec fn run_window(v: Seq<Run>, n: int, i: int) -> bool {
    0 <= i && run_start(v, i) && consecutive(v, i, n)
}

/// The first index where an `n`-page run begins, scanning from `i`.
pub open spec fn find_run_from(v: Seq<Run>, n: int, i: int) -> Option<int>
    decreases v.len() - i when 0 <= i <= v.len()
{
    if i < 0 || i >= v.len() {
        None
    } else if run_window(v, n, i) {
        Some(i)
    } else {
        find_run_from(v, n, i + 1)
    }
}

/// First-fit search for an `n`-page run.
pub open spec fn find_run(v: Seq<Run>, n: int) -> Option<int> {
    find_run_from(v, n, 0)
}

/// When no window lies in `[i, len)`, the scan from `i` finds nothing.
proof fn lemma_run_skip(v: Seq<Run>, n: int, lo: int, hi: int)
    requires
        0 <= lo <= hi <= v.len(),
        forall|j: int| lo <= j < hi ==> !(#[trigger] run_window(v, n, j)),
    ensures
        find_run_from(v, n, lo) == find_run_from(v, n, hi),
    decreases hi - lo,
{
    if lo < hi {
        lemma_run_skip(v, n, lo + 1, hi);
    }
}

/// Sortedness extends from consecutive nodes to every pair.
pub proof fn lemma_runs_sorted_all(v: Seq<Run>, kernel_end: int, mem_top: int, i: int, j: int)
    requires
        wf_runs(v, kernel_end, mem_top),
        0 <= i < j < v.len(),
    ensures
        v[i].addr < v[j].addr,
    decreases j - i,
{
    if j > i + 1 {
        lemma_runs_sorted_all(v, kernel_end, mem_top, i, j - 1);
    }
}

/// The page-at-a-time allocator: the sorted free list, its node count,
/// and the two boundary addresses it respects.
pub struct Kmem {
    /// Free pages, strictly ordered by address.
    pub freelist: Vec<Run>,
    /// Number of free pages: always the number of nodes.
    pub len: usize,
    /// Addresses below this value are never handed out.
    pub kernel_end: usize,
    /// Addresses at or above this value are never handed out.
    pub mem_top: usize,
}

impl Kmem {
    /// The structural invariants: sorted distinct aligned pages in
    /// bounds, with `len` counting them.
    pub open spec fn wf(&self) -> bool {
        &&& wf_runs(self.freelist@, self.kernel_end as int, self.mem_top as int)
        &&& self.len == self.freelist@.len()
        &&& self.kernel_end <= self.mem_top
    }

    /// The boundary fields, unchanged by every operation.
    pub open spec fn same_bounds(&self, other: &Kmem) -> bool {
        self.kernel_end == other.kernel_end && self.mem_top == other.mem_top
    }

    /// An empty free list between the two boundary addresses.
    pub fn new(kernel_end: usize, mem_top: usize) -> (r: Kmem)
        requires
            kernel_end <= mem_top,
        ensures
            r.wf(),
            r.freelist@.len() == 0,
            r.len == 0,
            r.kernel_end == kernel_end,
            r.mem_top == mem_top,
    {
        Kmem { freelist: Vec::new(), len: 0, kernel_end, mem_top }
    }

    /// Return one page to the free list, keeping it sorted. The address
    /// must be page-aligned, inside the window, and not already free.
    pub fn kfree(&mut self, addr: VirtAddr)
        requires
            old(self).wf(),
            addr.0 as int % (PGSIZE as int) == 0,
            old(self).kernel_end <= addr.0,
            addr.0 + PGSIZE <= old(self).mem_top,
            !kmem_has(old(self).freelist@, addr.0 as int),
        ensures
            final(self).wf(),
            final(self).same_bounds(old(self)),
            final(self).len == old(self).len + 1,
            forall|a: int|
                #[trigger] kmem_has(final(self).freelist@, a) <==> (kmem_has(
                    old(self).freelist@,
                    a,
                ) || a == addr.0),
    {
        let ghost v = self.freelist@;
        let node = Run { addr: addr.0 };

        // Fast paths first: an empty list, appending past the tail, or
        // prepending before the head.
        let n = self.freelist.len();
        let at_end = n == 0 || self.freelist[n - 1].addr < addr.0;
        let mut idx: usize = n;
        if !at_end {
            idx = 0;
            #[verifier::loop_isolation(false)]
            while idx < self.freelist.len() && self.freelist[idx].addr < addr.0
                invariant
                    idx <= v.len(),
                    forall|j: int| 0 <= j < idx ==> (#[trigger] v[j].addr) < addr.0,
                decreases self.freelist.len() - idx,
            {
                idx = idx + 1;
            }
        }
        let ghost w = v.insert(idx as int, node);
        proof {
            v.insert_ensures(idx as int, node);
            if idx < v.len() {
                // Distinctness: the node at the insertion point is larger.
                assert(v[idx as int].addr != addr.0);
            }
            assert forall|i: int| 0 <= i < w.len() - 1 implies (#[trigger] w[i].addr) < w[i
                + 1].addr by {
                if i < idx as int - 1 {
                    assert(w[i] == v[i] && w[i + 1] == v[i + 1]);
                } else if i == idx as int - 1 {
                    assert(w[i] == v[i] && w[i + 1] == node);
                } else if i == idx as int {
                    assert(w[i] == node && w[i + 1] == v[i]);
                } else {
                    assert(w[i] == v[i - 1] && w[i + 1] == v[i]);
                }
            }
            assert forall|i: int| 0 <= i < w.len() implies {
                &&& (#[trigger] w[i].addr) as int % (PGSIZE as int) == 0
                &&& self.kernel_end <= w[i].addr
                &&& w[i].addr + PGSIZE <= self.mem_top
            } by {
                if i < idx as int {
                    assert(w[i] == v[i]);
                } else if i > idx as int {
                    assert(w[i] == v[i - 1]);
                }
            }
            assert forall|a: int| #[trigger] kmem_has(w, a) implies (kmem_has(v, a) || a
                == addr.0) by {
                let i = choose|i: int| 0 <= i < w.len() && (#[trigger] w[i].addr) == a;
                if i < idx as int {
                    assert(v[i].addr == a);
                } else if i > idx as int {
                    assert(v[i - 1].addr == a);
                }
            }
            assert forall|a: int| (kmem_has(v, a) || a == addr.0) implies #[trigger] kmem_has(
                w,
                a,
            ) by {
                if kmem_has(v, a) {
                    let i = choose|i: int| 0 <= i < v.len() && (#[trigger] v[i].addr) == a;
                    if i < idx as int {
                        assert(w[i].addr == a);
                    } else {
                        assert(w[i + 1].addr == a);
                    }
                } else {
                    assert(w[idx as int].addr == a);
                }
            }
        }
        self.freelist.insert(idx, node);
        assert(self.freelist@ =~= w);
        self.len = self.freelist.len();
    }

    /// First-fit allocation of `size` bytes as whole pages: scan the
    /// sorted list for the first run of address-consecutive free pages
    /// long enough, unlink that run, and hand back its start address.
    /// Scan the sorted list for the first run of `num_pages`
    /// address-consecutive free pages, as the first-fit search does:
    /// counting within each maximal run from its start.
    fn find_first_run(&self, num_pages: usize) -> (r: Option<usize>)
        requires
            self.wf(),
            1 <= num_pages,
        ensures
            match r {
                Option::None => find_run(self.freelist@, num_pages as int) == None::<int>,
                Option::Some(i) => {
                    &&& find_run(self.freelist@, num_pages as int) == Some(i as int)
                    &&& i + num_pages <= self.freelist@.len()
                },
            },
    {
        let ghost v = self.freelist@;
        let ghost n = num_pages as int;
        if self.freelist.len() == 0 {
            return None;
        }
        let mut start: usize = 0;
        let mut scan: usize = 0;
        let mut count: usize = 1;
        #[verifier::loop_isolation(false)]
        while scan + 1 < self.freelist.len() && count < num_pages
            invariant
                start <= scan < v.len(),
                count == scan - start + 1,
                count <= num_pages,
                forall|k: int|
                    start <= k < scan ==> v[k + 1].addr == (#[trigger] v[k].addr) + PGSIZE,
                run_start(v, start as int),
                find_run(v, n) == find_run_from(v, n, start as int),
            decreases v.len() - scan,
        {
            if self.freelist[scan].addr + PGSIZE == self.freelist[scan + 1].addr {
                count = count + 1;
                scan = scan + 1;
            } else {
                proof {
                    let s = start as int;
                    assert forall|j: int| s <= j < scan + 1 implies !(#[trigger] run_window(
                        v,
                        n,
                        j,
                    )) by {
                        if j == s {
                            // The run from `start` stops at `scan`, short
                            // of `n` pages.
                            if consecutive(v, s, n) {
                                assert(v[scan as int + 1].addr == v[scan as int].addr + PGSIZE);
                            }
                        } else {
                            // Inside a run: not a run start.
                            assert(v[j - 1].addr + PGSIZE == v[j].addr);
                        }
                    }
                    lemma_run_skip(v, n, s, scan + 1);
                }
                scan = scan + 1;
                start = scan;
                count = 1;
            }
        }
        if count == num_pages {
            proof {
                assert(consecutive(v, start as int, n));
                assert(run_window(v, n, start as int));
                assert(find_run_from(v, n, start as int) == Some(start as int));
            }
            Some(start)
        } else {
            proof {
                let s = start as int;
                assert(scan + 1 == v.len());
                assert forall|j: int| s <= j < v.len() implies !(#[trigger] run_window(
                    v,
                    n,
                    j,
                )) by {
                    if j == s {
                        assert(s + n > v.len());
                    } else {
                        assert(v[j - 1].addr + PGSIZE == v[j].addr);
                    }
                }
                lemma_run_skip(v, n, s, v.len() as int);
            }
            None
        }
    }

    /// Unlink the `num_pages` nodes starting at index `start`. The list
    /// stays sorted and in bounds; the caller settles the page count.
    fn remove_run(&mut self, start: usize, num_pages: usize)
        requires
            old(self).wf(),
            start + num_pages <= old(self).freelist@.len(),
        ensures
            final(self).freelist@ == old(self).freelist@.take(start as int) + old(
                self,
            ).freelist@.skip(start as int + num_pages as int),
            final(self).len == old(self).len,
            final(self).same_bounds(old(self)),
            wf_runs(
                final(self).freelist@,
                final(self).kernel_end as int,
                final(self).mem_top as int,
            ),
    {
        let ghost v = self.freelist@;
        let ghost n = num_pages as int;
        let ghost w = v.take(start as int) + v.skip(start as int + n);
        let mut k: usize = 0;
        #[verifier::loop_isolation(false)]
        while k < num_pages
            invariant
                k <= num_pages,
                self.freelist@ =~= v.take(start as int) + v.skip(start as int + k),
                self.len == old(self).len,
                self.kernel_end == old(self).kernel_end,
                self.mem_top == old(self).mem_top,
            decreases num_pages - k,
        {
            let ghost cur = self.freelist@;
            self.freelist.remove(start);
            proof {
                cur.remove_ensures(start as int);
                assert(self.freelist@ =~= v.take(start as int) + v.skip(start as int + k + 1));
            }
            k = k + 1;
        }
        proof {
            let s = start as int;
            assert forall|i: int| 0 <= i < w.len() implies {
                &&& (#[trigger] w[i].addr) as int % (PGSIZE as int) == 0
                &&& self.kernel_end <= w[i].addr
                &&& w[i].addr + PGSIZE <= self.mem_top
            } by {
                if i < s {
                    assert(w[i] == v[i]);
                } else {
                    assert(w[i] == v[i + n]);
                }
            }
            assert forall|i: int| 0 <= i < w.len() - 1 implies (#[trigger] w[i].addr) < w[i
                + 1].addr by {
                if i < s - 1 {
                    assert(w[i] == v[i] && w[i + 1] == v[i + 1]);
                } else if i == s - 1 {
                    assert(w[i] == v[i] && w[i + 1] == v[i + n + 1]);
                    lemma_runs_sorted_all(
                        v,
                        self.kernel_end as int,
                        self.mem_top as int,
                        i,
                        i + n + 1,
                    );
                } else {
                    assert(w[i] == v[i + n] && w[i + 1] == v[i + n + 1]);
                }
            }
            assert(self.freelist@ =~= w);
        }
    }

    /// First-fit allocation of `size` bytes as whole pages: scan the
    /// sorted list for the first run of address-consecutive free pages
    /// long enough, unlink that run, and hand back its start address.
    pub fn kalloc(&mut self, size: usize) -> (r: Result<VirtAddr, AllocError>)
        requires
            old(self).wf(),
            0 < size,
        ensures
            final(self).wf(),
            final(self).same_bounds(old(self)),
            ({
                let n = crate::allocator::spec_size_to_pages(size as int);
                match find_run(old(self).freelist@, n) {
                    Option::None => {
                        &&& r == Err::<VirtAddr, AllocError>(AllocError::NoSpace)
                        &&& final(self).freelist@ == old(self).freelist@
                        &&& final(self).len == old(self).len
                    },
                    Option::Some(i) => {
                        &&& r == Ok::<VirtAddr, AllocError>(
                            VirtAddr(old(self).freelist@[i].addr),
                        )
                        &&& final(self).freelist@ == old(self).freelist@.take(i) + old(
                            self,
                        ).freelist@.skip(i + n)
                        &&& final(self).len == old(self).len - n
                    },
                }
            }),
    {
        let num_pages = crate::allocator::Allocator::size_to_pages(size);
        proof {
            crate::allocator::lemma_size_to_pages(size as int);
        }
        match self.find_first_run(num_pages) {
            None => Err(AllocError::NoSpace),
            Some(start) => {
                let base = self.freelist[start].addr;
                self.remove_run(start, num_pages);
                self.len = self.len - num_pages;
                Ok(VirtAddr(base))
            },
        }
    }

    /// Free every whole page inside `[vstart, vend)`: the pages from
    /// `vstart` rounded up through the last page boundary at or below
    /// `vend`, released from the high end down as the boot code does.
    pub fn free_range(&mut self, vstart: VirtAddr, vend: VirtAddr)
        requires
            old(self).wf(),
            vstart.0 < vend.0,
            vend.0 + PGSIZE - 1 <= usize::MAX,
            old(self).kernel_end <= crate::addr::spec_page_roundup(vstart.0 as int),
            crate::addr::spec_page_roundup(vend.0 as int) <= old(self).mem_top,
            forall|a: int|
                crate::addr::spec_page_roundup(vstart.0 as int) <= a < crate::addr::spec_page_roundup(
                    vend.0 as int,
                ) ==> !(#[trigger] kmem_has(old(self).freelist@, a)),
        ensures
            final(self).wf(),
            final(self).same_bounds(old(self)),
            forall|a: int|
                #[trigger] kmem_has(final(self).freelist@, a) <==> (kmem_has(
                    old(self).freelist@,
                    a,
                ) || (crate::addr::spec_page_roundup(vstart.0 as int) <= a
                    < crate::addr::spec_page_roundup(vend.0 as int) && a % (PGSIZE as int) == 0)),
    {
        let lo = vstart.page_roundup();
        let hi = vend.page_roundup();
        proof {
            crate::addr::lemma_page_roundup(vstart.0 as int);
            crate::addr::lemma_page_roundup(vend.0 as int);
        }
        let mut p = hi.0;
        #[verifier::loop_isolation(false)]
        while p > lo.0
            invariant
                lo.0 <= p <= hi.0,
                p as int % (PGSIZE as int) == 0,
                self.wf(),
                self.same_bounds(old(self)),
                forall|a: int|
                    #[trigger] kmem_has(self.freelist@, a) <==> (kmem_has(old(self).freelist@, a)
                        || (p <= a < hi.0 && a % (PGSIZE as int) == 0)),
            decreases p,
        {
            let page = p - PGSIZE;
            proof {
                let q = PGSIZE as int;
                assert((p as int - q) % q == 0 && lo.0 as int <= p - q) by (nonlinear_arith)
                    requires
                        q == 4096,
                        p as int % q == 0,
                        lo.0 as int % q == 0,
                        lo.0 < p,
                ;
            }
            self.kfree(VirtAddr(page));
            p = page;
        }
    }

    /// Boot-time seeding of the low memory window.
    pub fn kinit1(&mut self, vstart: VirtAddr, vend: VirtAddr)
        requires
            old(self).wf(),
            vstart.0 < vend.0,
            vend.0 + PGSIZE - 1 <= usize::MAX,
            old(self).kernel_end <= crate::addr::spec_page_roundup(vstart.0 as int),
            crate::addr::spec_page_roundup(vend.0 as int) <= old(self).mem_top,
            forall|a: int|
                crate::addr::spec_page_roundup(vstart.0 as int) <= a < crate::addr::spec_page_roundup(
                    vend.0 as int,
                ) ==> !(#[trigger] kmem_has(old(self).freelist@, a)),
        ensures
            final(self).wf(),
            final(self).same_bounds(old(self)),
            forall|a: int|
                #[trigger] kmem_has(final(self).freelist@, a) <==> (kmem_has(
                    old(self).freelist@,
                    a,
                ) || (crate::addr::spec_page_roundup(vstart.0 as int) <= a
                    < crate::addr::spec_page_roundup(vend.0 as int) && a % (PGSIZE as int) == 0)),
    {
        self.free_range(vstart, vend);
    }

    /// Seeding of the remaining memory once paging is up.
    pub fn kinit2(&mut self, vstart: VirtAddr, vend: VirtAddr)
        requires
            old(self).wf(),
            vstart.0 < vend.0,
            vend.0 + PGSIZE - 1 <= usize::MAX,
            old(self).kernel_end <= crate::addr::spec_page_roundup(vstart.0 as int),
            crate::addr::spec_page_roundup(vend.0 as int) <= old(self).mem_top,
            forall|a: int|
                crate::addr::spec_page_roundup(vstart.0 as int) <= a < crate::addr::spec_page_roundup(
                    vend.0 as int,
                ) ==> !(#[trigger] kmem_has(old(self).freelist@, a)),
        ensures
            final(self).wf(),
            final(self).same_bounds(old(self)),
            forall|a: int|
                #[trigger] kmem_has(final(self).freelist@, a) <==> (kmem_has(
                    old(self).freelist@,
                    a,
                ) || (crate::addr::spec_page_roundup(vstart.0 as int) <= a
                    < crate::addr::spec_page_roundup(vend.0 as int) && a % (PGSIZE as int) == 0)),
    {
        self.free_range(vstart, vend);
    }

    /// Walk the free list and check that it is sorted, aligned, inside
    /// the window, and correctly counted. A well-formed list always
    /// answers `true`.
    pub fn validate(&self) -> (r: bool)
        ensures
            r == self.wf(),
    {
        if self.kernel_end > self.mem_top {
            return false;
        }
        let mut i: usize = 0;
        #[verifier::loop_isolation(false)]
        while i < self.freelist.len()
            invariant
                i <= self.freelist@.len(),
                forall|j: int|
                    0 <= j < i ==> {
                        &&& (#[trigger] self.freelist@[j].addr) as int % (PGSIZE as int) == 0
                        &&& self.kernel_end <= self.freelist@[j].addr
                        &&& self.freelist@[j].addr + PGSIZE <= self.mem_top
                    },
                forall|j: int|
                    0 <= j < i - 1 ==> (#[trigger] self.freelist@[j].addr) < self.freelist@[j
                        + 1].addr,
            decreases self.freelist.len() - i,
        {
            let a = self.freelist[i].addr;
            if a % PGSIZE != 0 || a < self.kernel_end || self.mem_top < PGSIZE || a > self.mem_top
                - PGSIZE {
                return false;
            }
            if i > 0 && self.freelist[i - 1].addr >= a {
                return false;
            }
            i = i + 1;
        }
        self.len == self.freelist.len()
    }
}

} // verus!
