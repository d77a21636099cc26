//! Address arithmetic.

use cofflos::addr::{Address, PhysAddr, VirtAddr, KERNBASE, PGSIZE};

#[test]
fn alignment_and_rounding() {
    assert!(VirtAddr::new(0x1000).is_page_aligned());
    assert!(!VirtAddr::new(0x1001).is_page_aligned());
    assert_eq!(VirtAddr::new(0x1001).page_roundup().0, 0x2000);
    assert_eq!(VirtAddr::new(0x1000).page_roundup().0, 0x1000);
    assert_eq!(VirtAddr::new(0x1fff).page_rounddown().0, 0x1000);
    assert_eq!(VirtAddr::new(0x2000).page_rounddown().0, 0x2000);
    assert_eq!(VirtAddr::new(0x5432).pageno(), 0x5432 / PGSIZE);
}

#[test]
fn physical_virtual_round_trip() {
    let p = PhysAddr::new(0x100000);
    let v = p.to_virt();
    assert_eq!(v.0, 0x100000 + KERNBASE);
    assert_eq!(v.to_phys(), p);
    assert_eq!(p.addr(), 0x100000);
}

#[test]
fn page_table_indices() {
    let v = VirtAddr::new(0x8040_3000);
    assert_eq!(v.page_dir_index(), (0x8040_3000 >> 22) & 0x3FF);
    assert_eq!(v.page_table_index(), (0x8040_3000 >> 12) & 0x3FF);
    assert_eq!(VirtAddr::new(KERNBASE).page_dir_index(), 512);
    assert_eq!(VirtAddr::new(0).page_dir_index(), 0);
}

#[test]
fn typed_offsets() {
    let v = VirtAddr::new(0x1000);
    assert_eq!(v.offset::<u32>(4).0, 0x1000 + 16);
    assert_eq!(v.offset::<u8>(PGSIZE).0, 0x2000);
}
