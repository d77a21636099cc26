//! The page allocator, driven through concrete boot-like scenarios.

use cofflos::addr::{VirtAddr, PGSIZE};
use cofflos::allocator::{AllocError, Allocator, Range};

fn seeded(start: usize, pages: usize) -> Allocator {
    let mut a = Allocator::new(0xF000, 0xE000000);
    a.free_range(VirtAddr(start), VirtAddr(start + pages * PGSIZE));
    a
}

#[test]
fn concrete_boot_scenario() {
    // Seed [0x100000, 0x105000): five pages.
    let mut a = seeded(0x100000, 5);
    assert_eq!(a.length, 5);
    assert_eq!(a.ranges.len(), 1);
    assert_eq!(a.ranges[0].base, 0x100000);
    assert_eq!(a.ranges[0].size, 4);

    // One page comes from the tail.
    let p = a.allocate(PGSIZE).unwrap();
    assert_eq!(p, VirtAddr(0x104000));
    assert_eq!(a.length, 4);
    assert_eq!(a.ranges[0].base, 0x100000);
    assert_eq!(a.ranges[0].size, 3);

    // Four pages consume the range exactly.
    let q = a.allocate(4 * PGSIZE).unwrap();
    assert_eq!(q, VirtAddr(0x100000));
    assert_eq!(a.length, 0);
    assert_eq!(a.ranges.len(), 0);

    // Nothing is left.
    assert_eq!(a.allocate(PGSIZE), Err(AllocError::NoSpace));
}

#[test]
fn conservation_of_pages() {
    let mut a = seeded(0x200000, 8);
    a.free_range(VirtAddr(0x300000), VirtAddr(0x303000));
    let _ = a.allocate(2 * PGSIZE).unwrap();
    let _ = a.allocate(PGSIZE).unwrap();
    // The running total always equals the sum of size + 1 over the nodes.
    let total: usize = a.ranges.iter().map(|r| r.size + 1).sum();
    assert_eq!(total, a.length);
    assert_eq!(a.length, 8 + 3 - 2 - 1);
    assert!(a.verify());
}

#[test]
fn sorted_and_non_overlapping() {
    let mut a = Allocator::new(0xF000, 0xE000000);
    // Seed out of address order.
    a.free_range(VirtAddr(0x500000), VirtAddr(0x502000));
    a.free_range(VirtAddr(0x100000), VirtAddr(0x103000));
    a.free_range(VirtAddr(0x300000), VirtAddr(0x301000));
    let _ = a.allocate(PGSIZE).unwrap();
    for w in a.ranges.windows(2) {
        let end = w[0].base + (w[0].size + 1) * PGSIZE;
        assert!(end < w[1].base, "ranges must stay sorted and apart");
    }
    assert!(a.verify());
}

#[test]
fn maximal_coalescing_after_release() {
    // Allocate 3 pages out of 10, then give them back: one node again.
    let mut a = seeded(0x100000, 10);
    let p = a.allocate(3 * PGSIZE).unwrap();
    assert_eq!(p, VirtAddr(0x107000));
    assert_eq!(a.ranges.len(), 1);
    a.release(p, 3 * PGSIZE);
    assert_eq!(a.ranges.len(), 1);
    assert_eq!(a.ranges[0].base, 0x100000);
    assert_eq!(a.ranges[0].size, 9);
    assert_eq!(a.length, 10);
}

#[test]
fn release_merges_both_neighbors() {
    let mut a = Allocator::new(0xF000, 0xE000000);
    a.free_range(VirtAddr(0x100000), VirtAddr(0x102000));
    a.free_range(VirtAddr(0x104000), VirtAddr(0x106000));
    assert_eq!(a.ranges.len(), 2);
    // The middle span touches both neighbors: all three fuse.
    a.free_range(VirtAddr(0x102000), VirtAddr(0x104000));
    assert_eq!(a.ranges.len(), 1);
    assert_eq!(a.ranges[0].base, 0x100000);
    assert_eq!(a.ranges[0].size, 5);
    assert_eq!(a.length, 6);
}

#[test]
fn exact_fit_empties_the_list() {
    let mut a = seeded(0x400000, 7);
    let p = a.allocate(7 * PGSIZE).unwrap();
    assert_eq!(p, VirtAddr(0x400000));
    assert_eq!(a.length, 0);
    assert_eq!(a.ranges.len(), 0);
}

#[test]
fn tail_split_preserves_header_address() {
    let mut a = seeded(0x100000, 10);
    let p = a.allocate(4 * PGSIZE).unwrap();
    // The last four pages leave; the node's own address never moves.
    assert_eq!(p, VirtAddr(0x100000 + 6 * PGSIZE));
    assert_eq!(a.ranges[0].base, 0x100000);
    assert_eq!(a.ranges[0].size, 10 - 1 - 4);
    assert_eq!(a.length, 6);
}

#[test]
fn allocate_then_release_round_trips() {
    let mut a = Allocator::new(0xF000, 0xE000000);
    a.free_range(VirtAddr(0x100000), VirtAddr(0x104000));
    a.free_range(VirtAddr(0x200000), VirtAddr(0x201000));
    let before: Vec<Range> = a.ranges.clone();
    let length_before = a.length;
    let p = a.allocate(2 * PGSIZE).unwrap();
    a.release(p, 2 * PGSIZE);
    // Coalescing is canonical, so the very node structure returns.
    assert_eq!(a.ranges, before);
    assert_eq!(a.length, length_before);
}

#[test]
fn exhaustion_reports_no_space_and_changes_nothing() {
    let mut a = seeded(0x100000, 5);
    let r = a.allocate(6 * PGSIZE);
    assert_eq!(r, Err(AllocError::NoSpace));
    assert_eq!(a.length, 5);
    assert_eq!(a.ranges.len(), 1);
    assert_eq!(a.ranges[0].base, 0x100000);
}

#[test]
fn first_fit_takes_the_lowest_address() {
    let mut a = Allocator::new(0xF000, 0xE000000);
    a.free_range(VirtAddr(0x100000), VirtAddr(0x101000)); // 1 page
    a.free_range(VirtAddr(0x200000), VirtAddr(0x203000)); // 3 pages
    a.free_range(VirtAddr(0x300000), VirtAddr(0x304000)); // 4 pages
    // Two pages fit first in the second range.
    let p = a.allocate(2 * PGSIZE).unwrap();
    assert_eq!(p, VirtAddr(0x201000));
}

#[test]
fn size_to_pages_rounds_up() {
    assert_eq!(Allocator::size_to_pages(0), 0);
    assert_eq!(Allocator::size_to_pages(1), 1);
    assert_eq!(Allocator::size_to_pages(PGSIZE), 1);
    assert_eq!(Allocator::size_to_pages(PGSIZE + 1), 2);
    assert_eq!(Allocator::size_to_pages(10 * PGSIZE), 10);
}

#[test]
fn verify_rejects_a_corrupt_list() {
    // Out-of-order nodes.
    let bad = Allocator {
        ranges: vec![Range { base: 0x200000, size: 0 }, Range { base: 0x100000, size: 0 }],
        length: 2,
        kernel_end: 0xF000,
        mem_top: 0xE000000,
    };
    assert!(!bad.verify());
    // Unmerged adjacency.
    let adjacent = Allocator {
        ranges: vec![Range { base: 0x100000, size: 0 }, Range { base: 0x101000, size: 0 }],
        length: 2,
        kernel_end: 0xF000,
        mem_top: 0xE000000,
    };
    assert!(!adjacent.verify());
    // A wrong running total.
    let miscounted = Allocator {
        ranges: vec![Range { base: 0x100000, size: 1 }],
        length: 1,
        kernel_end: 0xF000,
        mem_top: 0xE000000,
    };
    assert!(!miscounted.verify());
    // A misaligned base.
    let misaligned = Allocator {
        ranges: vec![Range { base: 0x100010, size: 0 }],
        length: 1,
        kernel_end: 0xF000,
        mem_top: 0xE000000,
    };
    assert!(!misaligned.verify());
    // And a sound one passes.
    let good = seeded(0x100000, 3);
    assert!(good.verify());
}

#[test]
fn range_helpers_follow_the_off_by_one_convention() {
    let r = Range { base: 0x100000, size: 3 };
    assert_eq!(r.base_addr(), 0x100000);
    assert_eq!(r.end_addr(), 0x100000 + 4 * PGSIZE);
    assert_eq!(r.offset(2), 0x102000);
    let mut s = r;
    let got = s.allocate_from_range(2);
    assert_eq!(got, 0x102000);
    assert_eq!(s.base, 0x100000);
    assert_eq!(s.size, 1);
    assert_eq!(Range::allocate_entire_range(r), 0x100000);
}
