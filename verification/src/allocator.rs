//! The physical page allocator.
//!
//! The allocator owns an address-ordered list of free ranges, each a whole
//! number of pages. In the running kernel every range's header lives in the
//! first page of the memory it describes; here the list is kept as an
//! explicit vector of nodes, ordered by start address, which models the
//! intrusive list without raw pointers. A node with `size == n` spans
//! `n + 1` pages: `size` counts the pages covered beyond the header's own
//! page, and every operation preserves that convention exactly.
//!
//! Invariants, maintained by every public operation:
//! 1. nodes are strictly ordered by start address;
//! 2. no two nodes overlap;
//! 3. coalescing is maximal: address-adjacent nodes never stay separate;
//! 4. `length` equals the sum of `size + 1` over all nodes;
//! 5. every tracked address lies strictly above `kernel_end` and below
//!    `mem_top`.

use vstd::prelude::*;
use crate::addr::{Address, VirtAddr, PGSIZE};

verus! {

/// One free span of pages. `base` is the page-aligned start address and
/// `size` the number of pages covered beyond the first one, so the span
/// holds `size + 1` pages in all.
#[derive(Clone, Copy, PartialEq, Eq, Structural, Debug)]
pub struct Range {
    pub base: usize,
    pub size: usize,
}

/// Allocation failure: no tracked range holds enough contiguous pages.
#[derive(Clone, Copy, PartialEq, Eq, Structural, Debug)]
pub enum AllocError {
    NoSpace,
}

impl Range {
    /// Number of pages the node spans, header page included.
    pub open spec fn pages(self) -> int {
        self.size as int + 1
    }

    /// One-past-the-end address of the span.
    pub open spec fn end_spec(self) -> int {
        self.base as int + self.pages() * (PGSIZE as int)
    }

    /// The start address of the span.
    pub fn base_addr(&self) -> (r: usize)
        ensures
            r == self.base,
    {
        self.base
    }

    /// One-past-the-end address of the span.
    pub fn end_addr(&self) -> (r: usize)
        requires
            self.end_spec() <= usize::MAX,
        ensures
            r == self.end_spec(),
    {
        self.base + (self.size + 1) * PGSIZE
    }

    /// Address `pages` pages past the start of the span.
    pub fn offset(&self, pages: usize) -> (r: usize)
        requires
            self.base + pages * (PGSIZE as int) <= usize::MAX,
        ensures
            r == self.base + pages * (PGSIZE as int),
    {
        self.base + pages * PGSIZE
    }

    /// Tail-split: hand out the last `num_pages` pages of this span and
    /// shrink it accordingly. The node's own start address never moves.
    pub fn allocate_from_range(&mut self, num_pages: usize) -> (r: usize)
        requires
            num_pages <= old(self).size,
            old(self).end_spec() <= usize::MAX,
        ensures
            final(self).base == old(self).base,
            final(self).size == old(self).size - num_pages,
            r == old(self).end_spec() - num_pages * (PGSIZE as int),
            r == final(self).end_spec(),
    {
        let s = self.size + 1;
        proof {
            assert((s - num_pages) * (PGSIZE as int) == s * (PGSIZE as int) - num_pages * (
            PGSIZE as int)) by (nonlinear_arith);
        }
        let allocation = self.base + (s - num_pages) * PGSIZE;
        self.size = self.size - num_pages;
        allocation
    }

    /// Consume the whole span; the returned address is the span itself,
    /// header page included.
    pub fn allocate_entire_range(range: Range) -> (r: usize)
        ensures
            r == range.base,
    {
        range.base
    }
}

/// True of addresses that start a page.
pub open spec fn is_page(a: int) -> bool {
    a % (PGSIZE as int) == 0
}

/// Whether node `r` tracks address `a`.
pub open spec fn node_covers(r: Range, a: int) -> bool {
    r.base <= a < r.end_spec()
}

/// Whether the free list `v` tracks the page starting at `a`.
pub open spec fn is_covered(v: Seq<Range>, a: int) -> bool {
    is_page(a) && exists|i: int| 0 <= i < v.len() && node_covers(#[trigger] v[i], a)
}

/// Sum of `size + 1` over all nodes: the number of pages tracked.
pub open spec fn total_pages(v: Seq<Range>) -> int
    decreases v.len(),
{
    if v.len() == 0 {
        0
    } else {
        total_pages(v.drop_last()) + v.last().pages()
    }
}

/// Well-formedness of a free list between the two boundary addresses:
/// aligned, in bounds, strictly ordered, non-overlapping, and with at
/// least one whole page of gap between consecutive nodes (maximal
/// coalescing).
pub open spec fn wf_ranges(v: Seq<Range>, kernel_end: int, mem_top: int) -> bool {
    &&& forall|i: int|
        0 <= i < v.len() ==> {
            &&& is_page(#[trigger] v[i].base as int)
            &&& kernel_end < v[i].base
            &&& v[i].end_spec() <= mem_top
        }
    &&& forall|i: int| 0 <= i < v.len() - 1 ==> (#[trigger] v[i].end_spec()) < v[i + 1].base
}

/// The first node, scanning from index `i`, that holds at least `req`
/// pages.
pub open spec fn find_fit_from(v: Seq<Range>, req: int, i: int) -> Option<int>
    decreases v.len() - i when 0 <= i <= v.len()
{
    if i < 0 || i >= v.len() {
        None
    } else if v[i].pages() >= req {
        Some(i)
    } else {
        find_fit_from(v, req, i + 1)
    }
}

/// First-fit search over the whole list.
pub open spec fn find_fit(v: Seq<Range>, req: int) -> Option<int> {
    find_fit_from(v, req, 0)
}

/// Number of pages needed to hold `size` bytes.
pub open spec fn spec_size_to_pages(size: int) -> int {
    ((PGSIZE as int) + size - 1) / (PGSIZE as int)
}

/// The page allocator: an address-ordered free list plus its running page
/// count and the two boundary addresses it must respect.
pub struct Allocator {
    /// Free ranges, strictly ordered by start address.
    pub ranges: Vec<Range>,
    /// Number of free pages currently tracked.
    pub length: usize,
    /// Addresses at or below this value are never handed out.
    pub kernel_end: usize,
    /// Addresses at or above this value are never handed out.
    pub mem_top: usize,
}

impl Allocator {
    /// All five structural invariants at once.
    pub open spec fn wf(&self) -> bool {
        &&& wf_ranges(self.ranges@, self.kernel_end as int, self.mem_top as int)
        &&& self.length as int == total_pages(self.ranges@)
        &&& self.kernel_end <= self.mem_top
    }

    /// The boundary fields, unchanged by every operation.
    pub open spec fn same_bounds(&self, other: &Allocator) -> bool {
        self.kernel_end == other.kernel_end && self.mem_top == other.mem_top
    }

    /// An empty allocator that will only ever track memory strictly above
    /// `kernel_end` and strictly below `mem_top`.
    pub fn new(kernel_end: usize, mem_top: usize) -> (r: Allocator)
        requires
            kernel_end <= mem_top,
        ensures
            r.wf(),
            r.ranges@.len() == 0,
            r.length == 0,
            r.kernel_end == kernel_end,
            r.mem_top == mem_top,
    {
        Allocator { ranges: Vec::new(), length: 0, kernel_end, mem_top }
    }

    /// Number of pages needed to hold `size` bytes.
    pub fn size_to_pages(size: usize) -> (r: usize)
        ensures
            r == spec_size_to_pages(size as int),
    {
        let q = size / PGSIZE;
        let rem = size % PGSIZE;
        proof {
            let p = PGSIZE as int;
            let s = size as int;
            assert((s / p) + (if s % p != 0 { 1int } else { 0int }) == (p + s - 1) / p)
                by (nonlinear_arith)
                requires p == 4096 && 0 <= s;
        }
        if rem != 0 {
            q + 1
        } else {
            q
        }
    }

    /// Hand the pages `[vstart, vend)` to the allocator: insert them as a
    /// new free range at their place in address order, merging with an
    /// adjacent successor and predecessor so that coalescing stays
    /// maximal. The span must be page-aligned, inside the allocator's
    /// window, and not currently tracked.
    pub fn free_range(&mut self, vstart: VirtAddr, vend: VirtAddr)
        requires
            old(self).wf(),
            is_page(vstart.0 as int),
            is_page(vend.0 as int),
            vstart.0 < vend.0,
            old(self).kernel_end < vstart.0,
            vend.0 <= old(self).mem_top,
            forall|i: int|
                0 <= i < old(self).ranges@.len() ==> ((#[trigger] old(
                    self,
                ).ranges@[i].end_spec()) <= vstart.0 || vend.0 <= old(self).ranges@[i].base),
        ensures
            final(self).wf(),
            final(self).same_bounds(old(self)),
            final(self).length == old(self).length + (vend.0 - vstart.0) / (PGSIZE as int),
            forall|a: int|
                #[trigger] is_covered(final(self).ranges@, a) <==> (is_covered(
                    old(self).ranges@,
                    a,
                ) || (vstart.0 <= a < vend.0 && is_page(a))),
    {
        proof {
            lemma_aligned_diff(vstart.0 as int, vend.0 as int);
        }
        let page_count = (vend.0 - vstart.0) / PGSIZE;
        let new_range = Range { base: vstart.0, size: page_count - 1 };
        let ghost v = self.ranges@;
        let ghost kend = self.kernel_end as int;
        let ghost top = self.mem_top as int;
        proof {
            assert(new_range.end_spec() == vend.0) by {
                assert((page_count as int) * (PGSIZE as int) == vend.0 - vstart.0);
            }
            lemma_total_bound(v, kend, top);
        }

        // Find the insertion point: the first node past the new range.
        let mut idx: usize = 0;
        #[verifier::loop_isolation(false)]
        while idx < self.ranges.len() && self.ranges[idx].base < vstart.0
            invariant
                idx <= self.ranges.len(),
                forall|j: int| 0 <= j < idx ==> (#[trigger] v[j].base) < vstart.0,
            decreases self.ranges.len() - idx,
        {
            idx = idx + 1;
        }

        let len = self.ranges.len();
        proof {
            if idx < v.len() {
                // The node at `idx` lies wholly past the new span.
                lemma_node_positive(v[idx as int]);
                assert(vend.0 <= v[idx as int].base);
            }
            if idx > 0 {
                // The node before `idx` ends at or before the new span.
                assert(v[idx - 1].end_spec() <= vstart.0);
            }
        }

        let merge_next = idx < len && self.ranges[idx].base == vend.0;
        let merge_prev = idx > 0 && {
            let prev = self.ranges[idx - 1];
            prev.base + (prev.size + 1) * PGSIZE == vstart.0
        };
        let ghost n = new_range;
        proof {
            lemma_total_fits(total_pages(v));
        }

        if merge_prev && merge_next {
            let prev = self.ranges[idx - 1];
            let next = self.ranges[idx];
            proof {
                let p = PGSIZE as int;
                assert(((prev.size as int + 1) + (page_count as int) + (next.size as int + 1)) * p
                    == next.end_spec() - prev.base) by (nonlinear_arith)
                    requires
                        prev.end_spec() == prev.base + (prev.size as int + 1) * p,
                        next.end_spec() == next.base + (next.size as int + 1) * p,
                        prev.end_spec() == vstart.0,
                        next.base == vend.0,
                        (page_count as int) * p == vend.0 - vstart.0,
                        p == 4096;
                lemma_total_fits(
                    (prev.size as int + 1) + (page_count as int) + (next.size as int + 1),
                );
            }
            let merged = Range { base: prev.base, size: prev.size + page_count + next.size + 1 };
            let ghost w = v.update(idx - 1, merged).remove(idx as int);
            proof {
                lemma_free_merge_both(v, n, idx as int, kend, top, merged);
                lemma_total_update(v, idx - 1, merged);
                lemma_total_remove(v.update(idx - 1, merged), idx as int);
                lemma_total_bound(w, kend, top);
                lemma_total_fits(total_pages(w));
            }
            self.ranges.set(idx - 1, merged);
            self.ranges.remove(idx);
            assert(self.ranges@ =~= w);
            self.length = self.length + page_count;
        } else if merge_next {
            let next = self.ranges[idx];
            proof {
                let p = PGSIZE as int;
                assert(((page_count as int) + (next.size as int + 1)) * p == next.end_spec()
                    - vstart.0) by (nonlinear_arith)
                    requires
                        next.end_spec() == next.base + (next.size as int + 1) * p,
                        next.base == vend.0,
                        (page_count as int) * p == vend.0 - vstart.0,
                        p == 4096;
                lemma_total_fits((page_count as int) + (next.size as int + 1));
            }
            let merged = Range { base: vstart.0, size: page_count - 1 + next.size + 1 };
            let ghost w = v.update(idx as int, merged);
            proof {
                lemma_free_merge_next(v, n, idx as int, kend, top, merged);
                lemma_total_update(v, idx as int, merged);
                lemma_total_bound(w, kend, top);
                lemma_total_fits(total_pages(w));
            }
            self.ranges.set(idx, merged);
            assert(self.ranges@ =~= w);
            self.length = self.length + page_count;
        } else if merge_prev {
            let prev = self.ranges[idx - 1];
            proof {
                let p = PGSIZE as int;
                assert(((prev.size as int + 1) + (page_count as int)) * p == vend.0 - prev.base)
                    by (nonlinear_arith)
                    requires
                        prev.end_spec() == prev.base + (prev.size as int + 1) * p,
                        prev.end_spec() == vstart.0,
                        (page_count as int) * p == vend.0 - vstart.0,
                        p == 4096;
                lemma_total_fits((prev.size as int + 1) + (page_count as int));
            }
            let merged = Range { base: prev.base, size: prev.size + page_count };
            let ghost w = v.update(idx - 1, merged);
            proof {
                lemma_free_merge_prev(v, n, idx as int, kend, top, merged);
                lemma_total_update(v, idx - 1, merged);
                lemma_total_bound(w, kend, top);
                lemma_total_fits(total_pages(w));
            }
            self.ranges.set(idx - 1, merged);
            assert(self.ranges@ =~= w);
            self.length = self.length + page_count;
        } else {
            let ghost w = v.insert(idx as int, new_range);
            proof {
                lemma_free_no_merge(v, n, idx as int, kend, top);
                lemma_total_insert(v, idx as int, new_range);
                lemma_total_bound(w, kend, top);
                lemma_total_fits(total_pages(w));
            }
            self.ranges.insert(idx, new_range);
            assert(self.ranges@ =~= w);
            self.length = self.length + page_count;
        }
    }

    /// First-fit allocation of `size` bytes, rounded up to whole pages.
    /// Walks the list in address order; the first node large enough is
    /// either consumed whole (when it fits exactly) or tail-split, handing
    /// out its last pages so that the node's start address never moves.
    /// When no node is large enough the allocator is left untouched and
    /// `NoSpace` comes back.
    pub fn allocate(&mut self, size: usize) -> (r: Result<VirtAddr, AllocError>)
        requires
            old(self).wf(),
            0 < size,
        ensures
            final(self).wf(),
            final(self).same_bounds(old(self)),
            ({
                let req = spec_size_to_pages(size as int);
                match find_fit(old(self).ranges@, req) {
                    Option::None => {
                        &&& r == Err::<VirtAddr, AllocError>(AllocError::NoSpace)
                        &&& final(self).ranges@ == old(self).ranges@
                        &&& final(self).length == old(self).length
                    },
                    Option::Some(i) => {
                        let node = old(self).ranges@[i];
                        &&& final(self).length == old(self).length - req
                        &&& if node.pages() == req {
                            &&& r == Ok::<VirtAddr, AllocError>(VirtAddr(node.base))
                            &&& final(self).ranges@ == old(self).ranges@.remove(i)
                        } else {
                            &&& (r matches Ok(va) && va.0 == node.end_spec() - req * (
                            PGSIZE as int))
                            &&& final(self).ranges@ == old(self).ranges@.update(
                                i,
                                (Range { base: node.base, size: (node.size - req) as usize }),
                            )
                        }
                    },
                }
            }),
            (r is Err) <==> (forall|j: int|
                0 <= j < old(self).ranges@.len() ==> (#[trigger] old(self).ranges@[j].pages())
                    < spec_size_to_pages(size as int)),
            (r matches Ok(va) ==> {
                let req = spec_size_to_pages(size as int);
                &&& is_page(va.0 as int)
                &&& va.0 + req * (PGSIZE as int) <= old(self).mem_top
                &&& forall|a: int|
                    #[trigger] is_covered(final(self).ranges@, a) <==> (is_covered(
                        old(self).ranges@,
                        a,
                    ) && !(va.0 <= a < va.0 + req * (PGSIZE as int)))
                &&& forall|a: int|
                    is_page(a) && va.0 <= a < va.0 + req * (PGSIZE as int) ==> is_covered(
                        old(self).ranges@,
                        a,
                    )
            }),
    {
        let req = Self::size_to_pages(size);
        let ghost v = self.ranges@;
        let ghost kend = self.kernel_end as int;
        let ghost top = self.mem_top as int;
        proof {
            lemma_size_to_pages(size as int);
            lemma_total_bound(v, kend, top);
            lemma_total_fits(total_pages(v));
        }
        let mut idx: usize = 0;
        #[verifier::loop_isolation(false)]
        while idx < self.ranges.len()
            invariant
                idx <= self.ranges.len(),
                *self == *old(self),
                find_fit(v, req as int) == find_fit_from(v, req as int, idx as int),
                forall|j: int| 0 <= j < idx ==> (#[trigger] v[j].pages()) < req,
            decreases self.ranges.len() - idx,
        {
            let mut node = self.ranges[idx];
            proof {
                lemma_total_ge_node(v, idx as int);
            }
            if node.size >= req {
                // Tail-split: the node keeps its header and loses its last
                // `req` pages.
                let addr = node.allocate_from_range(req);
                let ghost w = v.update(idx as int, node);
                proof {
                    lemma_alloc_split(v, idx as int, kend, top, node, req as int);
                    lemma_total_update(v, idx as int, node);
                    assert(addr == node.end_spec());
                    assert(find_fit_from(v, req as int, idx as int) == Some(idx as int));
                }
                self.ranges.set(idx, node);
                self.length = self.length - req;
                return Ok(VirtAddr(addr));
            } else if node.size + 1 == req {
                // Exact fit: unlink the node; its whole span, header page
                // included, becomes the allocation.
                let base = Range::allocate_entire_range(node);
                let ghost w = v.remove(idx as int);
                proof {
                    lemma_alloc_exact(v, idx as int, kend, top);
                    lemma_total_remove(v, idx as int);
                    assert(find_fit_from(v, req as int, idx as int) == Some(idx as int));
                }
                self.ranges.remove(idx);
                self.length = self.length - req;
                return Ok(VirtAddr(base));
            }
            idx = idx + 1;
            proof {
                assert(find_fit_from(v, req as int, idx - 1) == find_fit_from(
                    v,
                    req as int,
                    idx as int,
                ));
            }
        }
        proof {
            assert(find_fit_from(v, req as int, idx as int) == None::<int>);
        }
        Err(AllocError::NoSpace)
    }

    /// Give back a span obtained from `allocate`: the counterpart of the
    /// `(address, size)` pair is recomputed with the same rounding as the
    /// allocation itself, and the whole span rejoins the free list.
    pub fn release(&mut self, addr: VirtAddr, size: usize)
        requires
            old(self).wf(),
            0 < size,
            is_page(addr.0 as int),
            old(self).kernel_end < addr.0,
            addr.0 + spec_size_to_pages(size as int) * (PGSIZE as int) <= old(self).mem_top,
            forall|i: int|
                0 <= i < old(self).ranges@.len() ==> ((#[trigger] old(
                    self,
                ).ranges@[i].end_spec()) <= addr.0 || addr.0 + spec_size_to_pages(size as int) * (
                PGSIZE as int) <= old(self).ranges@[i].base),
        ensures
            final(self).wf(),
            final(self).same_bounds(old(self)),
            final(self).length == old(self).length + spec_size_to_pages(size as int),
            forall|a: int|
                #[trigger] is_covered(final(self).ranges@, a) <==> (is_covered(
                    old(self).ranges@,
                    a,
                ) || (addr.0 <= a < addr.0 + spec_size_to_pages(size as int) * (PGSIZE as int)
                    && is_page(a))),
    {
        let pages = Self::size_to_pages(size);
        proof {
            lemma_size_to_pages(size as int);
            let p = PGSIZE as int;
            let k = pages as int;
            let a = addr.0 as int;
            assert((a + k * p) % p == 0 && a < a + k * p && (a + k * p - a) / p == k)
                by (nonlinear_arith)
                requires p == 4096 && a % p == 0 && 1 <= k;
        }
        let vend = VirtAddr(addr.0 + pages * PGSIZE);
        self.free_range(addr, vend);
    }

    /// Walk the whole list and check every invariant: alignment, the two
    /// boundary addresses, strict ordering with no overlap and no
    /// unmerged adjacency, and the page count. Returns whether all of
    /// them hold; a well-formed allocator always answers `true`.
    pub fn verify(&self) -> (r: bool)
        ensures
            r == self.wf(),
    {
        let ghost v = self.ranges@;
        let ghost kend_g = self.kernel_end as int;
        let ghost top_g = self.mem_top as int;
        if self.kernel_end > self.mem_top {
            return false;
        }
        let kend = self.kernel_end as u128;
        let top = self.mem_top as u128;
        let mut sum: u128 = 0;
        let mut prev_end: u128 = 0;
        let mut i: usize = 0;
        #[verifier::loop_isolation(false)]
        while i < self.ranges.len()
            invariant
                i <= v.len(),
                wf_ranges(v.take(i as int), kend_g, top_g),
                sum == total_pages(v.take(i as int)),
                i > 0 ==> prev_end == v[i - 1].end_spec(),
            decreases v.len() - i,
        {
            let r = self.ranges[i];
            let base = r.base as u128;
            let end = base + (r.size as u128 + 1) * 4096;
            proof {
                assert(end == r.end_spec());
            }
            if base % 4096 != 0 || kend >= base || end > top {
                return false;
            }
            if i > 0 && prev_end >= base {
                return false;
            }
            proof {
                assert(v.take(i + 1).drop_last() =~= v.take(i as int));
                assert forall|j: int| 0 <= j < i + 1 - 1 implies (#[trigger] v.take(
                    i + 1,
                )[j].end_spec()) < v.take(i + 1)[j + 1].base by {
                    if j < i - 1 {
                        assert(v.take(i as int)[j].end_spec() < v.take(i as int)[j + 1].base);
                    }
                }
            }
            proof {
                lemma_total_bound(v.take(i as int), kend_g, top_g);
                lemma_total_fits(total_pages(v.take(i as int)));
            }
            sum = sum + (r.size as u128 + 1);
            prev_end = end;
            i = i + 1;
        }
        proof {
            assert(v.take(v.len() as int) =~= v);
        }
        sum == self.length as u128
    }
}

/// Conservation: the tracked page count is always the sum of `size + 1`
/// over the free-list nodes; `allocate` lowers it by exactly the pages it
/// hands out and `free_range` raises it by exactly the pages it takes in,
/// so the count plus the pages currently allocated always equals the
/// pages ever seeded.
pub proof fn lemma_conservation(a: Allocator)
    requires
        a.wf(),
    ensures
        a.length as int == total_pages(a.ranges@),
{
}

/// Exact fit: a single free range of exactly `k` pages satisfies a
/// `k`-page request at its own start address, by the exact-consumption
/// rule of `allocate`.
pub proof fn lemma_exact_fit(r: Range, k: int)
    requires
        r.pages() == k,
    ensures
        find_fit(seq![r], k) == Some(0int),
        seq![r].remove(0).len() == 0,
{
    assert(seq![r][0] == r);
    assert(seq![r].remove(0).len() == 0);
}

/// Requests of exactly `k` pages' worth of bytes round to `k` pages.
pub proof fn lemma_pages_roundtrip(k: int)
    requires
        1 <= k,
    ensures
        spec_size_to_pages(k * (PGSIZE as int)) == k,
{
    let p = PGSIZE as int;
    assert((p + k * p - 1) / p == k) by (nonlinear_arith)
        requires p == 4096 && 1 <= k;
}

/// Tail split: a request of `m < k` pages against a single `k`-page range
/// is served from the high end, at `base + (k - m)` pages, and the range's
/// own start address stays where it was.
pub proof fn lemma_tail_split(r: Range, m: int)
    requires
        1 <= m < r.pages(),
    ensures
        find_fit(seq![r], m) == Some(0int),
        r.end_spec() - m * (PGSIZE as int) == r.base + (r.pages() - m) * (PGSIZE as int),
{
    assert(seq![r][0] == r);
    let p = PGSIZE as int;
    assert(r.base + r.pages() * p - m * p == r.base + (r.pages() - m) * p) by (nonlinear_arith);
}

/// Exhaustion: when no node holds enough pages the first-fit search comes
/// up empty, so `allocate` reports `NoSpace` and leaves the list alone.
pub proof fn lemma_exhaustion(v: Seq<Range>, req: int)
    requires
        forall|j: int| 0 <= j < v.len() ==> (#[trigger] v[j].pages()) < req,
    ensures
        find_fit(v, req) == None::<int>,
{
    lemma_exhaustion_from(v, req, 0);
}

proof fn lemma_exhaustion_from(v: Seq<Range>, req: int, i: int)
    requires
        0 <= i <= v.len(),
        forall|j: int| 0 <= j < v.len() ==> (#[trigger] v[j].pages()) < req,
    ensures
        find_fit_from(v, req, i) == None::<int>,
    decreases v.len() - i,
{
    if i < v.len() {
        lemma_exhaustion_from(v, req, i + 1);
    }
}

/// Round trip: allocating a span and releasing it right away restores the
/// free list, node for node. The three lists are the free list before the
/// allocation, after it, and after the release; the hypotheses are
/// exactly what `allocate` and `free_range` ensure about the span
/// `[lo, hi)`, and determinacy of coverage lifts the restored tracked
/// set back to the identical list.
pub proof fn lemma_round_trip(
    v1: Seq<Range>,
    v2: Seq<Range>,
    v3: Seq<Range>,
    lo: int,
    hi: int,
    kend: int,
    top: int,
)
    requires
        wf_ranges(v1, kend, top),
        wf_ranges(v3, kend, top),
        forall|a: int|
            #[trigger] is_covered(v2, a) <==> (is_covered(v1, a) && !(lo <= a < hi)),
        forall|a: int| is_page(a) && lo <= a < hi ==> is_covered(v1, a),
        forall|a: int|
            #[trigger] is_covered(v3, a) <==> (is_covered(v2, a) || (lo <= a < hi && is_page(a))),
    ensures
        forall|a: int| #[trigger] is_covered(v3, a) <==> is_covered(v1, a),
        v3 =~= v1,
{
    assert forall|a: int| #[trigger] is_covered(v3, a) <==> is_covered(v1, a) by {
        assert(is_covered(v2, a) <==> (is_covered(v1, a) && !(lo <= a < hi)));
        assert(is_covered(v3, a) <==> (is_covered(v2, a) || (lo <= a < hi && is_page(a))));
    }
    lemma_coverage_determines_list(v3, v1, kend, top);
}

/// A well-formed, maximally coalesced free list is determined by the
/// set of addresses it tracks: two such lists tracking the same
/// addresses are the same list, node for node. Releasing what an
/// allocation took therefore restores not only the tracked set but the
/// very node structure.
pub proof fn lemma_coverage_determines_list(v1: Seq<Range>, v2: Seq<Range>, kend: int, top: int)
    requires
        wf_ranges(v1, kend, top),
        wf_ranges(v2, kend, top),
        forall|a: int| is_covered(v1, a) <==> is_covered(v2, a),
    ensures
        v1 =~= v2,
    decreases v1.len(),
{
    let p = PGSIZE as int;
    if v1.len() == 0 {
        if v2.len() > 0 {
            lemma_node_positive(v2[0]);
            assert(node_covers(v2[0], v2[0].base as int));
            assert(is_covered(v2, v2[0].base as int));
            assert(is_covered(v1, v2[0].base as int));
            let i = choose|i: int| 0 <= i < v1.len() && node_covers(#[trigger] v1[i], v2[0].base as int);
            assert(false);
        }
    } else {
        // The other list cannot be empty: the first node's base is
        // tracked on both sides.
        lemma_node_positive(v1[0]);
        assert(node_covers(v1[0], v1[0].base as int));
        assert(is_covered(v1, v1[0].base as int));
        assert(is_covered(v2, v1[0].base as int));
        let w = choose|i: int| 0 <= i < v2.len() && node_covers(#[trigger] v2[i], v1[0].base as int);
        lemma_node_positive(v2[0]);

        // The two heads start at the same address: each head's base is
        // tracked, and only at or above the other head's base.
        if w > 0 {
            lemma_sorted_all(v2, kend, top, 0, w);
        }
        assert(v2[0].base <= v1[0].base);
        assert(node_covers(v2[0], v2[0].base as int));
        assert(is_covered(v2, v2[0].base as int));
        assert(is_covered(v1, v2[0].base as int));
        let u = choose|i: int| 0 <= i < v1.len() && node_covers(#[trigger] v1[i], v2[0].base as int);
        if u > 0 {
            lemma_sorted_all(v1, kend, top, 0, u);
        }
        assert(v1[0].base == v2[0].base);

        // The heads also end together: a head's end address is never
        // tracked (coalescing is maximal), so neither head may outlast
        // the other.
        let e1 = v1[0].end_spec();
        let e2 = v2[0].end_spec();
        assert(is_page(e1)) by (nonlinear_arith)
            requires
                e1 == v1[0].base + (v1[0].size as int + 1) * p,
                v1[0].base as int % p == 0,
                p == 4096;
        assert(is_page(e2)) by (nonlinear_arith)
            requires
                e2 == v2[0].base + (v2[0].size as int + 1) * p,
                v2[0].base as int % p == 0,
                p == 4096;
        assert(!is_covered(v1, e1)) by {
            if is_covered(v1, e1) {
                let i = choose|i: int| 0 <= i < v1.len() && node_covers(#[trigger] v1[i], e1);
                if i > 0 {
                    lemma_sorted_all(v1, kend, top, 0, i);
                }
                assert(false);
            }
        }
        assert(!is_covered(v2, e2)) by {
            if is_covered(v2, e2) {
                let i = choose|i: int| 0 <= i < v2.len() && node_covers(#[trigger] v2[i], e2);
                if i > 0 {
                    lemma_sorted_all(v2, kend, top, 0, i);
                }
                assert(false);
            }
        }
        if e1 < e2 {
            assert(node_covers(v2[0], e1));
            assert(is_covered(v2, e1));
            assert(false);
        }
        if e2 < e1 {
            assert(node_covers(v1[0], e2));
            assert(is_covered(v1, e2));
            assert(false);
        }
        assert(v1[0].size == v2[0].size) by (nonlinear_arith)
            requires
                v1[0].base + (v1[0].size as int + 1) * p == v2[0].base + (v2[0].size as int + 1)
                    * p,
                v1[0].base == v2[0].base,
                p == 4096;
        assert(v1[0] == v2[0]);

        // Equal heads leave equal remainders, tracked-set for
        // tracked-set; recurse on the tails.
        let t1 = v1.subrange(1, v1.len() as int);
        let t2 = v2.subrange(1, v2.len() as int);
        lemma_tail_coverage(v1, kend, top);
        lemma_tail_coverage(v2, kend, top);
        assert forall|a: int| is_covered(t1, a) <==> is_covered(t2, a) by {
            assert(is_covered(t1, a) <==> (is_covered(v1, a) && !node_covers(v1[0], a)));
            assert(is_covered(t2, a) <==> (is_covered(v2, a) && !node_covers(v2[0], a)));
        }
        assert(wf_ranges(t1, kend, top)) by {
            assert(forall|i: int| 0 <= i < t1.len() ==> #[trigger] t1[i] == v1[i + 1]);
        }
        assert(wf_ranges(t2, kend, top)) by {
            assert(forall|i: int| 0 <= i < t2.len() ==> #[trigger] t2[i] == v2[i + 1]);
        }
        lemma_coverage_determines_list(t1, t2, kend, top);
        assert forall|i: int| 0 <= i < v1.len() implies v1[i] == v2[i] by {
            if i > 0 {
                assert(t1[i - 1] == t2[i - 1]);
            }
        }
    }
}

/// Dropping the head node removes exactly the head's own addresses from
/// the tracked set.
proof fn lemma_tail_coverage(v: Seq<Range>, kend: int, top: int)
    requires
        wf_ranges(v, kend, top),
        v.len() >= 1,
    ensures
        forall|a: int|
            #[trigger] is_covered(v.subrange(1, v.len() as int), a) <==> (is_covered(v, a)
                && !node_covers(v[0], a)),
{
    let t = v.subrange(1, v.len() as int);
    assert forall|a: int| #[trigger] is_covered(t, a) implies (is_covered(v, a) && !node_covers(
        v[0],
        a,
    )) by {
        let i = choose|i: int| 0 <= i < t.len() && node_covers(#[trigger] t[i], a);
        assert(t[i] == v[i + 1]);
        assert(node_covers(v[i + 1], a));
        lemma_sorted_all(v, kend, top, 0, i + 1);
    }
    assert forall|a: int| (is_covered(v, a) && !node_covers(v[0], a)) implies #[trigger] is_covered(
        t,
        a,
    ) by {
        let i = choose|i: int| 0 <= i < v.len() && node_covers(#[trigger] v[i], a);
        assert(t[i - 1] == v[i]);
        assert(node_covers(t[i - 1], a));
    }
}

/// Maximal coalescing: a well-formed free list whose tracked addresses
/// form one contiguous `n`-page span is a single node spanning exactly
/// those pages — adjacent spans never survive as separate nodes.
pub proof fn lemma_maximal_coalescing(v: Seq<Range>, kend: int, top: int, s: int, n: int)
    requires
        wf_ranges(v, kend, top),
        v.len() >= 1,
        is_page(s),
        n >= 1,
        forall|a: int|
            #[trigger] is_covered(v, a) <==> (is_page(a) && s <= a < s + n * (PGSIZE as int)),
    ensures
        v.len() == 1,
        v[0].base == s,
        v[0].pages() == n,
{
    let p = PGSIZE as int;
    lemma_node_positive(v[0]);
    assert(n * p >= p) by (nonlinear_arith)
        requires n >= 1 && p == 4096;
    // The first node's base is covered, so it lies in the span.
    assert(node_covers(v[0], v[0].base as int));
    assert(is_covered(v, v[0].base as int));
    assert(s <= v[0].base);
    // The span's start is covered, and only the first node can cover it.
    assert(is_covered(v, s));
    let i = choose|i: int| 0 <= i < v.len() && node_covers(#[trigger] v[i], s);
    if i > 0 {
        lemma_sorted_all(v, kend, top, 0, i);
        assert(false);
    }
    assert(v[0].base == s);
    // With two nodes, the first node's end would be an uncovered page
    // inside the span.
    if v.len() >= 2 {
        let e = v[0].end_spec();
        assert(is_page(e)) by (nonlinear_arith)
            requires
                e == v[0].base + (v[0].size as int + 1) * p,
                v[0].base as int % p == 0,
                p == 4096;
        assert(node_covers(v[1], v[1].base as int));
        assert(is_covered(v, v[1].base as int));
        assert(e < v[1].base);
        assert(is_covered(v, e));
        let j = choose|j: int| 0 <= j < v.len() && node_covers(#[trigger] v[j], e);
        if j >= 2 {
            lemma_sorted_all(v, kend, top, 1, j);
        }
        assert(false);
    }
    // A single node covering exactly the span has exactly its pages.
    let k = v[0].pages();
    assert(is_page(s + (k - 1) * p) && s + (k - 1) * p < s + k * p && s <= s + (k - 1) * p)
        by (nonlinear_arith)
        requires s % p == 0 && k >= 1 && p == 4096;
    assert(node_covers(v[0], s + (k - 1) * p)) by (nonlinear_arith)
        requires
            v[0].base == s,
            v[0].end_spec() == s + k * p,
            s + (k - 1) * p < s + k * p,
            s <= s + (k - 1) * p;
    assert(is_covered(v, s + (k - 1) * p));
    assert(s + (k - 1) * p < s + n * p);
    assert(is_page(s + (n - 1) * p) && s <= s + (n - 1) * p < s + n * p) by (nonlinear_arith)
        requires s % p == 0 && n >= 1 && p == 4096;
    assert(is_covered(v, s + (n - 1) * p));
    assert(node_covers(v[0], s + (n - 1) * p));
    assert(s + (n - 1) * p < v[0].end_spec());
    assert(k == n) by (nonlinear_arith)
        requires
            s + (k - 1) * p < s + n * p,
            s + (n - 1) * p < s + k * p,
            p == 4096;
}

/// Splicing a fresh node into its place in address order, with no
/// neighbor adjacent to it, keeps the list well-formed and adds exactly
/// the node's own pages to the tracked set.
proof fn lemma_free_no_merge(v: Seq<Range>, n: Range, idx: int, kend: int, top: int)
    requires
        wf_ranges(v, kend, top),
        0 <= idx <= v.len(),
        is_page(n.base as int),
        kend < n.base,
        n.end_spec() <= top,
        idx > 0 ==> v[idx - 1].end_spec() <= n.base && v[idx - 1].end_spec() != n.base,
        idx < v.len() ==> n.end_spec() <= v[idx].base && n.end_spec() != v[idx].base,
    ensures
        wf_ranges(v.insert(idx, n), kend, top),
        forall|a: int|
            #[trigger] is_covered(v.insert(idx, n), a) <==> (is_covered(v, a) || (is_page(a)
                && n.base <= a < n.end_spec())),
{
    let w = v.insert(idx, n);
    v.insert_ensures(idx, n);
    lemma_node_positive(n);
    assert forall|i: int| 0 <= i < w.len() implies {
        &&& is_page(#[trigger] w[i].base as int)
        &&& kend < w[i].base
        &&& w[i].end_spec() <= top
    } by {
        if i < idx {
            assert(w[i] == v[i]);
        } else if i == idx {
        } else {
            assert(w[i] == v[i - 1]);
        }
    }
    assert forall|i: int| 0 <= i < w.len() - 1 implies (#[trigger] w[i].end_spec()) < w[i
        + 1].base by {
        if i < idx - 1 {
            assert(w[i] == v[i] && w[i + 1] == v[i + 1]);
        } else if i == idx - 1 {
            assert(w[i] == v[i] && w[i + 1] == n);
        } else if i == idx {
            assert(w[i] == n && w[i + 1] == v[i]);
        } else {
            assert(w[i] == v[i - 1] && w[i + 1] == v[i]);
        }
    }
    assert forall|a: int| #[trigger] is_covered(w, a) implies (is_covered(v, a) || (is_page(a)
        && n.base <= a < n.end_spec())) by {
        let i = choose|i: int| 0 <= i < w.len() && node_covers(#[trigger] w[i], a);
        if i < idx {
            assert(node_covers(v[i], a));
        } else if i > idx {
            assert(node_covers(v[i - 1], a));
        }
    }
    assert forall|a: int| (is_covered(v, a) || (is_page(a) && n.base <= a < n.end_spec()))
        implies #[trigger] is_covered(w, a) by {
        if is_covered(v, a) {
            let i = choose|i: int| 0 <= i < v.len() && node_covers(#[trigger] v[i], a);
            if i < idx {
                assert(node_covers(w[i], a));
            } else {
                assert(node_covers(w[i + 1], a));
            }
        } else {
            assert(node_covers(w[idx], a));
        }
    }
}

/// Absorbing an adjacent successor into the fresh node keeps the list
/// well-formed and adds exactly the fresh pages to the tracked set.
proof fn lemma_free_merge_next(
    v: Seq<Range>,
    n: Range,
    idx: int,
    kend: int,
    top: int,
    merged: Range,
)
    requires
        wf_ranges(v, kend, top),
        0 <= idx < v.len(),
        is_page(n.base as int),
        kend < n.base,
        n.end_spec() == v[idx].base,
        idx > 0 ==> v[idx - 1].end_spec() <= n.base && v[idx - 1].end_spec() != n.base,
        merged.base == n.base,
        merged.pages() == n.pages() + v[idx].pages(),
    ensures
        wf_ranges(v.update(idx, merged), kend, top),
        forall|a: int|
            #[trigger] is_covered(v.update(idx, merged), a) <==> (is_covered(v, a) || (is_page(a)
                && n.base <= a < n.end_spec())),
{
    let w = v.update(idx, merged);
    let p = PGSIZE as int;
    lemma_node_positive(n);
    lemma_node_positive(v[idx]);
    assert(merged.end_spec() == v[idx].end_spec()) by (nonlinear_arith)
        requires
            merged.end_spec() == merged.base + (merged.size as int + 1) * p,
            v[idx].end_spec() == v[idx].base + (v[idx].size as int + 1) * p,
            n.end_spec() == n.base + (n.size as int + 1) * p,
            merged.base == n.base,
            n.end_spec() == v[idx].base,
            merged.size as int + 1 == (n.size as int + 1) + (v[idx].size as int + 1);
    assert forall|i: int| 0 <= i < w.len() - 1 implies (#[trigger] w[i].end_spec()) < w[i
        + 1].base by {
        if i == idx - 1 {
            assert(w[i] == v[i] && w[i + 1] == merged);
        } else if i == idx {
            assert(w[i] == merged && w[i + 1] == v[i + 1]);
        } else {
            assert(w[i] == v[i] && w[i + 1] == v[i + 1]);
        }
    }
    assert forall|a: int| #[trigger] is_covered(w, a) implies (is_covered(v, a) || (is_page(a)
        && n.base <= a < n.end_spec())) by {
        let i = choose|i: int| 0 <= i < w.len() && node_covers(#[trigger] w[i], a);
        if i == idx {
            if a >= v[idx].base {
                assert(node_covers(v[idx], a));
            }
        } else {
            assert(node_covers(v[i], a));
        }
    }
    assert forall|a: int| (is_covered(v, a) || (is_page(a) && n.base <= a < n.end_spec()))
        implies #[trigger] is_covered(w, a) by {
        if is_covered(v, a) {
            let i = choose|i: int| 0 <= i < v.len() && node_covers(#[trigger] v[i], a);
            if i == idx {
                assert(node_covers(w[idx], a));
            } else {
                assert(node_covers(w[i], a));
            }
        } else {
            assert(node_covers(w[idx], a));
        }
    }
}

/// Absorbing the fresh node into an adjacent predecessor keeps the list
/// well-formed and adds exactly the fresh pages to the tracked set.
proof fn lemma_free_merge_prev(
    v: Seq<Range>,
    n: Range,
    idx: int,
    kend: int,
    top: int,
    merged: Range,
)
    requires
        wf_ranges(v, kend, top),
        0 < idx <= v.len(),
        is_page(n.base as int),
        n.end_spec() <= top,
        v[idx - 1].end_spec() == n.base,
        idx < v.len() ==> n.end_spec() <= v[idx].base && n.end_spec() != v[idx].base,
        merged.base == v[idx - 1].base,
        merged.pages() == v[idx - 1].pages() + n.pages(),
    ensures
        wf_ranges(v.update(idx - 1, merged), kend, top),
        forall|a: int|
            #[trigger] is_covered(v.update(idx - 1, merged), a) <==> (is_covered(v, a) || (is_page(
                a,
            ) && n.base <= a < n.end_spec())),
{
    let w = v.update(idx - 1, merged);
    let p = PGSIZE as int;
    lemma_node_positive(n);
    lemma_node_positive(v[idx - 1]);
    assert(merged.end_spec() == n.end_spec()) by (nonlinear_arith)
        requires
            merged.end_spec() == merged.base + (merged.size as int + 1) * p,
            v[idx - 1].end_spec() == v[idx - 1].base + (v[idx - 1].size as int + 1) * p,
            n.end_spec() == n.base + (n.size as int + 1) * p,
            merged.base == v[idx - 1].base,
            v[idx - 1].end_spec() == n.base,
            merged.size as int + 1 == (v[idx - 1].size as int + 1) + (n.size as int + 1);
    assert forall|i: int| 0 <= i < w.len() - 1 implies (#[trigger] w[i].end_spec()) < w[i
        + 1].base by {
        if i == idx - 2 {
            assert(w[i] == v[i] && w[i + 1] == merged);
        } else if i == idx - 1 {
            assert(w[i] == merged && w[i + 1] == v[i + 1]);
        } else {
            assert(w[i] == v[i] && w[i + 1] == v[i + 1]);
        }
    }
    assert forall|a: int| #[trigger] is_covered(w, a) implies (is_covered(v, a) || (is_page(a)
        && n.base <= a < n.end_spec())) by {
        let i = choose|i: int| 0 <= i < w.len() && node_covers(#[trigger] w[i], a);
        if i == idx - 1 {
            if a < v[idx - 1].end_spec() {
                assert(node_covers(v[idx - 1], a));
            }
        } else {
            assert(node_covers(v[i], a));
        }
    }
    assert forall|a: int| (is_covered(v, a) || (is_page(a) && n.base <= a < n.end_spec()))
        implies #[trigger] is_covered(w, a) by {
        if is_covered(v, a) {
            let i = choose|i: int| 0 <= i < v.len() && node_covers(#[trigger] v[i], a);
            if i == idx - 1 {
                assert(node_covers(w[idx - 1], a));
            } else {
                assert(node_covers(w[i], a));
            }
        } else {
            assert(node_covers(w[idx - 1], a));
        }
    }
}

/// A release adjacent to a predecessor on its left and a successor on its
/// right fuses all three nodes into one; the list stays well-formed and
/// gains exactly the fresh pages.
proof fn lemma_free_merge_both(
    v: Seq<Range>,
    n: Range,
    idx: int,
    kend: int,
    top: int,
    merged: Range,
)
    requires
        wf_ranges(v, kend, top),
        0 < idx < v.len(),
        is_page(n.base as int),
        v[idx - 1].end_spec() == n.base,
        n.end_spec() == v[idx].base,
        merged.base == v[idx - 1].base,
        merged.pages() == v[idx - 1].pages() + n.pages() + v[idx].pages(),
    ensures
        wf_ranges(v.update(idx - 1, merged).remove(idx), kend, top),
        forall|a: int|
            #[trigger] is_covered(v.update(idx - 1, merged).remove(idx), a) <==> (is_covered(v, a)
                || (is_page(a) && n.base <= a < n.end_spec())),
{
    let u = v.update(idx - 1, merged);
    let w = u.remove(idx);
    let p = PGSIZE as int;
    u.remove_ensures(idx);
    lemma_node_positive(n);
    lemma_node_positive(v[idx - 1]);
    lemma_node_positive(v[idx]);
    assert(merged.end_spec() == v[idx].end_spec()) by (nonlinear_arith)
        requires
            merged.end_spec() == merged.base + (merged.size as int + 1) * p,
            v[idx - 1].end_spec() == v[idx - 1].base + (v[idx - 1].size as int + 1) * p,
            v[idx].end_spec() == v[idx].base + (v[idx].size as int + 1) * p,
            n.end_spec() == n.base + (n.size as int + 1) * p,
            merged.base == v[idx - 1].base,
            v[idx - 1].end_spec() == n.base,
            n.end_spec() == v[idx].base,
            merged.size as int + 1 == (v[idx - 1].size as int + 1) + (n.size as int + 1) + (
            v[idx].size as int + 1);
    assert forall|i: int| 0 <= i < w.len() implies {
        &&& is_page(#[trigger] w[i].base as int)
        &&& kend < w[i].base
        &&& w[i].end_spec() <= top
    } by {
        if i < idx - 1 {
            assert(w[i] == v[i]);
        } else if i == idx - 1 {
            assert(w[i] == merged);
        } else {
            assert(w[i] == v[i + 1]);
        }
    }
    assert forall|i: int| 0 <= i < w.len() - 1 implies (#[trigger] w[i].end_spec()) < w[i
        + 1].base by {
        if i < idx - 2 {
            assert(w[i] == v[i] && w[i + 1] == v[i + 1]);
        } else if i == idx - 2 {
            assert(w[i] == v[i] && w[i + 1] == merged);
        } else if i == idx - 1 {
            assert(w[i] == merged && w[i + 1] == v[i + 2]);
        } else {
            assert(w[i] == v[i + 1] && w[i + 1] == v[i + 2]);
        }
    }
    assert forall|a: int| #[trigger] is_covered(w, a) implies (is_covered(v, a) || (is_page(a)
        && n.base <= a < n.end_spec())) by {
        let i = choose|i: int| 0 <= i < w.len() && node_covers(#[trigger] w[i], a);
        if i == idx - 1 {
            if a < v[idx - 1].end_spec() {
                assert(node_covers(v[idx - 1], a));
            } else if a >= v[idx].base {
                assert(node_covers(v[idx], a));
            }
        } else if i < idx - 1 {
            assert(node_covers(v[i], a));
        } else {
            assert(node_covers(v[i + 1], a));
        }
    }
    assert forall|a: int| (is_covered(v, a) || (is_page(a) && n.base <= a < n.end_spec()))
        implies #[trigger] is_covered(w, a) by {
        if is_covered(v, a) {
            let i = choose|i: int| 0 <= i < v.len() && node_covers(#[trigger] v[i], a);
            if i == idx - 1 || i == idx {
                assert(node_covers(w[idx - 1], a));
            } else if i < idx - 1 {
                assert(node_covers(w[i], a));
            } else {
                assert(node_covers(w[i - 1], a));
            }
        } else {
            assert(node_covers(w[idx - 1], a));
        }
    }
}

/// A node spans at least one page, so its end lies strictly past its base.
pub proof fn lemma_node_positive(r: Range)
    ensures
        r.base + (PGSIZE as int) <= r.end_spec(),
{
    assert((r.size as int + 1) * (PGSIZE as int) >= (PGSIZE as int)) by (nonlinear_arith);
}

/// The difference of two page-aligned addresses is a whole number of pages.
pub proof fn lemma_aligned_diff(a: int, b: int)
    requires
        is_page(a),
        is_page(b),
        a < b,
    ensures
        (b - a) % (PGSIZE as int) == 0,
        1 <= (b - a) / (PGSIZE as int),
        ((b - a) / (PGSIZE as int)) * (PGSIZE as int) == b - a,
{
    let p = PGSIZE as int;
    assert((b - a) % p == 0 && 1 <= (b - a) / p && ((b - a) / p) * p == b - a)
        by (nonlinear_arith)
        requires p == 4096 && a % p == 0 && b % p == 0 && a < b;
}

/// Updating one node changes the page total by the difference of the nodes.
pub proof fn lemma_total_update(v: Seq<Range>, i: int, r: Range)
    requires
        0 <= i < v.len(),
    ensures
        total_pages(v.update(i, r)) == total_pages(v) - v[i].pages() + r.pages(),
    decreases v.len(),
{
    let w = v.update(i, r);
    if i == v.len() - 1 {
        assert(w.drop_last() =~= v.drop_last());
    } else {
        assert(w.drop_last() =~= v.drop_last().update(i, r));
        lemma_total_update(v.drop_last(), i, r);
        assert(w.last() == v.last());
    }
}

/// Removing a node subtracts exactly its pages from the total.
pub proof fn lemma_total_remove(v: Seq<Range>, i: int)
    requires
        0 <= i < v.len(),
    ensures
        total_pages(v.remove(i)) == total_pages(v) - v[i].pages(),
    decreases v.len(),
{
    let w = v.remove(i);
    if i == v.len() - 1 {
        assert(w =~= v.drop_last());
    } else {
        assert(w.drop_last() =~= v.drop_last().remove(i));
        lemma_total_remove(v.drop_last(), i);
        assert(w.last() == v.last());
    }
}

/// Inserting a node adds exactly its pages to the total.
pub proof fn lemma_total_insert(v: Seq<Range>, i: int, r: Range)
    requires
        0 <= i <= v.len(),
    ensures
        total_pages(v.insert(i, r)) == total_pages(v) + r.pages(),
    decreases v.len(),
{
    let w = v.insert(i, r);
    v.insert_ensures(i, r);
    if i == v.len() {
        assert(w.drop_last() =~= v);
        assert(w.last() == r);
    } else {
        assert(w.drop_last() =~= v.drop_last().insert(i, r));
        lemma_total_insert(v.drop_last(), i, r);
        assert(w.last() == v.last());
    }
}

/// The page total is never negative; every node holds at least one page.
pub proof fn lemma_total_nonneg(v: Seq<Range>)
    ensures
        total_pages(v) >= v.len(),
    decreases v.len(),
{
    if v.len() > 0 {
        lemma_total_nonneg(v.drop_last());
    }
}

/// No single node holds more pages than the whole list.
pub proof fn lemma_total_ge_node(v: Seq<Range>, i: int)
    requires
        0 <= i < v.len(),
    ensures
        v[i].pages() <= total_pages(v),
    decreases v.len(),
{
    if i == v.len() - 1 {
        lemma_total_nonneg(v.drop_last());
    } else {
        lemma_total_ge_node(v.drop_last(), i);
    }
}

/// Sortedness extends from consecutive nodes to every pair: any earlier
/// node ends strictly before any later node begins. This is the
/// "no overlap, always sorted" shape of the whole list.
pub proof fn lemma_sorted_all(v: Seq<Range>, kernel_end: int, mem_top: int, i: int, j: int)
    requires
        wf_ranges(v, kernel_end, mem_top),
        0 <= i < j < v.len(),
    ensures
        v[i].end_spec() < v[j].base,
    decreases j - i,
{
    if j == i + 1 {
    } else {
        lemma_sorted_all(v, kernel_end, mem_top, i, j - 1);
        lemma_node_positive(v[j - 1]);
    }
}

/// The pages of a well-formed list all fit between the two boundary
/// addresses, so the total page count is bounded by the size of that
/// window.
pub proof fn lemma_total_bound(v: Seq<Range>, kernel_end: int, mem_top: int)
    requires
        wf_ranges(v, kernel_end, mem_top),
        kernel_end <= mem_top,
    ensures
        0 <= total_pages(v),
        total_pages(v) * (PGSIZE as int) <= mem_top - kernel_end,
    decreases v.len(),
{
    let p = PGSIZE as int;
    if v.len() == 0 {
    } else {
        let last = v.last();
        let w = v.drop_last();
        assert forall|i: int| 0 <= i < w.len() implies {
            &&& is_page(#[trigger] w[i].base as int)
            &&& kernel_end < w[i].base
            &&& w[i].end_spec() <= last.base
        } by {
            assert(w[i] == v[i]);
            lemma_sorted_all(v, kernel_end, mem_top, i, v.len() - 1);
        }
        assert(wf_ranges(w, kernel_end, last.base as int));
        lemma_node_positive(last);
        lemma_total_bound(w, kernel_end, last.base as int);
        assert((total_pages(w) + last.pages()) * p == total_pages(w) * p + last.pages() * p)
            by (nonlinear_arith);
    }
}

/// A page total whose bytes fit below `usize::MAX` is itself below
/// `usize::MAX`.
pub proof fn lemma_total_fits(t: int)
    requires
        0 <= t,
        t * (PGSIZE as int) <= usize::MAX,
    ensures
        t <= usize::MAX,
{
    assert(t <= t * (PGSIZE as int)) by (nonlinear_arith)
        requires 0 <= t && (PGSIZE as int) >= 1;
}

/// The number of bytes a request of `size` bytes is rounded up to covers
/// the request, and is positive for a positive request.
pub proof fn lemma_size_to_pages(size: int)
    requires
        0 < size,
    ensures
        1 <= spec_size_to_pages(size),
        size <= spec_size_to_pages(size) * (PGSIZE as int),
{
    let p = PGSIZE as int;
    assert(1 <= (p + size - 1) / p && size <= ((p + size - 1) / p) * p) by (nonlinear_arith)
        requires p == 4096 && 0 < size;
}

/// Unlinking one node keeps the list well-formed and removes exactly that
/// node's pages from the tracked set.
proof fn lemma_alloc_exact(v: Seq<Range>, i: int, kend: int, top: int)
    requires
        wf_ranges(v, kend, top),
        0 <= i < v.len(),
    ensures
        wf_ranges(v.remove(i), kend, top),
        forall|a: int|
            #[trigger] is_covered(v.remove(i), a) <==> (is_covered(v, a) && !(v[i].base <= a
                < v[i].end_spec())),
{
    let w = v.remove(i);
    v.remove_ensures(i);
    assert forall|j: int| 0 <= j < w.len() implies {
        &&& is_page(#[trigger] w[j].base as int)
        &&& kend < w[j].base
        &&& w[j].end_spec() <= top
    } by {
        if j < i {
            assert(w[j] == v[j]);
        } else {
            assert(w[j] == v[j + 1]);
        }
    }
    assert forall|j: int| 0 <= j < w.len() - 1 implies (#[trigger] w[j].end_spec()) < w[j
        + 1].base by {
        if j < i - 1 {
            assert(w[j] == v[j] && w[j + 1] == v[j + 1]);
        } else if j == i - 1 {
            assert(w[j] == v[j] && w[j + 1] == v[j + 2]);
            lemma_sorted_all(v, kend, top, j, j + 2);
        } else {
            assert(w[j] == v[j + 1] && w[j + 1] == v[j + 2]);
        }
    }
    assert forall|a: int| #[trigger] is_covered(w, a) implies (is_covered(v, a) && !(v[i].base <= a
        < v[i].end_spec())) by {
        let j = choose|j: int| 0 <= j < w.len() && node_covers(#[trigger] w[j], a);
        if j < i {
            assert(node_covers(v[j], a));
            lemma_sorted_all(v, kend, top, j, i);
        } else {
            assert(node_covers(v[j + 1], a));
            lemma_sorted_all(v, kend, top, i, j + 1);
        }
    }
    assert forall|a: int| (is_covered(v, a) && !(v[i].base <= a < v[i].end_spec()))
        implies #[trigger] is_covered(w, a) by {
        let j = choose|j: int| 0 <= j < v.len() && node_covers(#[trigger] v[j], a);
        if j < i {
            assert(node_covers(w[j], a));
        } else {
            assert(node_covers(w[j - 1], a));
        }
    }
}

/// Shrinking one node from its high end keeps the list well-formed and
/// removes exactly the pages past the new end from the tracked set.
proof fn lemma_alloc_split(v: Seq<Range>, i: int, kend: int, top: int, shrunk: Range, req: int)
    requires
        wf_ranges(v, kend, top),
        0 <= i < v.len(),
        1 <= req < v[i].pages(),
        shrunk.base == v[i].base,
        shrunk.pages() == v[i].pages() - req,
    ensures
        wf_ranges(v.update(i, shrunk), kend, top),
        shrunk.end_spec() == v[i].end_spec() - req * (PGSIZE as int),
        forall|a: int|
            #[trigger] is_covered(v.update(i, shrunk), a) <==> (is_covered(v, a) && !(
            shrunk.end_spec() <= a < v[i].end_spec())),
{
    let w = v.update(i, shrunk);
    let p = PGSIZE as int;
    lemma_node_positive(shrunk);
    assert(shrunk.end_spec() == v[i].end_spec() - req * p) by (nonlinear_arith)
        requires
            shrunk.end_spec() == shrunk.base + (shrunk.size as int + 1) * p,
            v[i].end_spec() == v[i].base + (v[i].size as int + 1) * p,
            shrunk.base == v[i].base,
            shrunk.size as int + 1 == (v[i].size as int + 1) - req;
    assert(shrunk.end_spec() <= v[i].end_spec()) by (nonlinear_arith)
        requires
            shrunk.end_spec() == v[i].end_spec() - req * p,
            1 <= req,
            p == 4096;
    assert forall|j: int| 0 <= j < w.len() - 1 implies (#[trigger] w[j].end_spec()) < w[j
        + 1].base by {
        if j == i - 1 {
            assert(w[j] == v[j] && w[j + 1] == shrunk);
        } else if j == i {
            assert(w[j] == shrunk && w[j + 1] == v[j + 1]);
        } else {
            assert(w[j] == v[j] && w[j + 1] == v[j + 1]);
        }
    }
    assert forall|a: int| #[trigger] is_covered(w, a) implies (is_covered(v, a) && !(
    shrunk.end_spec() <= a < v[i].end_spec())) by {
        let j = choose|j: int| 0 <= j < w.len() && node_covers(#[trigger] w[j], a);
        if j == i {
            assert(node_covers(v[i], a));
        } else {
            assert(node_covers(v[j], a));
            if j < i {
                lemma_sorted_all(v, kend, top, j, i);
            } else {
                lemma_sorted_all(v, kend, top, i, j);
            }
        }
    }
    assert forall|a: int| (is_covered(v, a) && !(shrunk.end_spec() <= a < v[i].end_spec()))
        implies #[trigger] is_covered(w, a) by {
        let j = choose|j: int| 0 <= j < v.len() && node_covers(#[trigger] v[j], a);
        if j == i {
            assert(node_covers(w[i], a));
        } else {
            assert(node_covers(w[j], a));
        }
    }
}

} // verus!
