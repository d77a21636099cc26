//! Boot-time structures: the entry page directory, page-table entries,
//! interrupt numbering, and the interrupt controller mask.

use cofflos::addr::PhysAddr;
use cofflos::picirq::{Mask, IRQ_SLAVE};
use cofflos::portio::PortIo;
use cofflos::process::TrapFrame;
use cofflos::traps::{Interrupt, COM1_IRQ, NIC_IRQ, T_IRQ0};
use cofflos::vm::{PageDirEntry, PageTableEntry, Segment, PRESENT, USER, WRITABLE};
use cofflos::{EntryPgDir, PTE_P, PTE_PS, PTE_W};

/// A port sink that records PIC programming.
struct Sink {
    writes: Vec<(u16, u8)>,
}

impl PortIo for Sink {
    fn inb(&mut self, _port: u16) -> u8 {
        0
    }
    fn outb(&mut self, port: u16, val: u8) {
        self.writes.push((port, val));
    }
    fn inw(&mut self, _port: u16) -> u16 {
        0
    }
    fn outw(&mut self, _port: u16, _val: u16) {}
    fn inl(&mut self, _port: u16) -> u32 {
        0
    }
    fn outl(&mut self, _port: u16, _val: u32) {}
}

#[test]
fn entry_page_directory_maps_two_slots() {
    let dir = EntryPgDir::new();
    assert_eq!(dir.array.len(), 1024);
    assert_eq!(dir.array[0], PTE_P | PTE_W | PTE_PS);
    assert_eq!(dir.array[512], PTE_P | PTE_W | PTE_PS);
    for (i, e) in dir.array.iter().enumerate() {
        if i != 0 && i != 512 {
            assert_eq!(*e, 0, "entry {} must be empty", i);
        }
    }
}

#[test]
fn page_entries_carry_address_and_flags() {
    let e = PageDirEntry::new_entry(PhysAddr(0x123000), PRESENT | WRITABLE);
    assert_eq!(e.0, 0x123000 | 3);
    assert_eq!(e.address(), PhysAddr(0x123000));
    assert!(e.contains(PRESENT));
    assert!(!e.contains(USER));
    let t = PageTableEntry::new_entry(PhysAddr(0x7000), PRESENT);
    assert_eq!(t.address(), PhysAddr(0x7000));
    assert!(t.contains(PRESENT));
}

#[test]
fn segment_indices() {
    assert_eq!(Segment::Null.index(), 0);
    assert_eq!(Segment::KCode.index(), 1);
    assert_eq!(Segment::KData.index(), 2);
    assert_eq!(Segment::UCode.index(), 3);
    assert_eq!(Segment::UData.index(), 4);
    assert_eq!(Segment::TSS.index(), 5);
}

#[test]
fn interrupt_vectors() {
    assert_eq!(Interrupt::DivError.vector(), 0);
    assert_eq!(Interrupt::PageFault.vector(), 14);
    assert_eq!(Interrupt::Syscall.vector(), 64);
    assert_eq!(Interrupt::TimerInt.vector(), T_IRQ0);
    assert_eq!(Interrupt::Com1Int.vector(), T_IRQ0 + COM1_IRQ);
    assert_eq!(Interrupt::NetworkInt.vector(), T_IRQ0 + NIC_IRQ);
    assert_eq!(Interrupt::default(), Interrupt::SpuriousInt);
}

#[test]
fn trap_frames_carry_their_cause() {
    let tf = TrapFrame { trapno: Interrupt::PageFault, ..Default::default() };
    assert_eq!(tf.trapno, Interrupt::PageFault);
    assert_eq!(tf.eax, 0);
}

#[test]
fn pic_mask_starts_with_only_the_cascade_open() {
    let m = Mask::new();
    assert_eq!(m.mask, 0xFFFF & !(1 << IRQ_SLAVE));
}

#[test]
fn enable_irq_clears_one_bit() {
    let mut io = Sink { writes: Vec::new() };
    let mut m = Mask::new();
    m.enable_irq(&mut io, 4);
    assert_eq!(m.mask, 0xFFFF & !(1 << IRQ_SLAVE) & !(1 << 4));
    // The halves of the mask reach both controllers.
    assert_eq!(io.writes.len(), 2);
    assert_eq!(io.writes[0], (0x21, (m.mask & 0xff) as u8));
    assert_eq!(io.writes[1], (0xA1, (m.mask >> 8) as u8));
}

#[test]
fn picinit_leaves_the_mask_alone() {
    let mut io = Sink { writes: Vec::new() };
    let mut m = Mask::new();
    let before = m.mask;
    m.picinit(&mut io);
    assert_eq!(m.mask, before);
    assert!(!io.writes.is_empty());
}

#[test]
fn buffers_start_clean() {
    let b = cofflos::buffercache::Buffer::new(1, 42);
    assert_eq!(b.flags, 0);
    assert_eq!(b.device, 1);
    assert_eq!(b.blockno, 42);
    assert_eq!(b.refcount, 0);
    assert_eq!(b.data.len(), cofflos::fs::BLOCKSIZE);
    assert!(b.data.iter().all(|x| *x == 0));
}
