//! The two 8259A programmable interrupt controllers.

use vstd::prelude::*;
use crate::portio::PortIo;
use crate::traps;

verus! {

/// I/O base of the master controller (lines 0 to 7).
const IO_PIC1: u16 = 0x20;

/// I/O base of the slave controller (lines 8 to 15).
const IO_PIC2: u16 = 0xA0;

/// Highest interrupt request line.
pub const MAX_IRQ: u32 = 15;

/// Line at which the slave controller cascades into the master.
pub const IRQ_SLAVE: u8 = 2;

/// The interrupt mask kept in the two controllers: a set bit silences a
/// line. The slave's cascade line starts enabled.
pub struct Mask {
    pub mask: u16,
}

impl Mask {
    /// The initial mask: everything off except the cascade line.
    pub fn new() -> (r: Mask)
        ensures
            r.mask == 0xFFFF & !(1u16 << IRQ_SLAVE),
    {
        Mask { mask: 0xFFFF & !(1u16 << IRQ_SLAVE) }
    }

    /// Install a new mask in both controllers.
    fn set_mask<P: PortIo>(&mut self, io: &mut P, new_mask: u16)
        ensures
            final(self).mask == new_mask,
    {
        self.mask = new_mask;
        io.outb(IO_PIC1 + 1, (self.mask & 0xff) as u8);
        io.outb(IO_PIC2 + 1, (self.mask >> 8) as u8);
    }

    /// Unmask one interrupt request line.
    pub fn enable_irq<P: PortIo>(&mut self, io: &mut P, irq: u32)
        requires
            irq <= MAX_IRQ,
        ensures
            final(self).mask == old(self).mask & !(1u16 << irq),
    {
        let mask = self.mask;
        self.set_mask(io, mask & !(1u16 << (irq as u16)));
    }

    /// Program both controllers: edge-triggered, cascaded, vectors at
    /// `T_IRQ0`, all lines masked until enabled one by one.
    pub fn picinit<P: PortIo>(&mut self, io: &mut P)
        ensures
            final(self).mask == old(self).mask,
    {
        // mask all interrupts
        io.outb(IO_PIC1 + 1, 0xFF);
        io.outb(IO_PIC2 + 1, 0xFF);

        // ICW1: edge triggering, cascaded PICs, ICW4 required
        io.outb(IO_PIC1, 0x11);
        // ICW2: vector offset
        io.outb(IO_PIC1 + 1, traps::T_IRQ0);
        // ICW3: bit mask of the lines with slaves
        io.outb(IO_PIC1 + 1, 1 << IRQ_SLAVE);
        // ICW4: automatic EOI, x86 mode
        io.outb(IO_PIC1 + 1, 0x3);

        // The slave controller, the same way.
        io.outb(IO_PIC2, 0x11);
        io.outb(IO_PIC2 + 1, traps::T_IRQ0 + 8);
        io.outb(IO_PIC2 + 1, IRQ_SLAVE);
        io.outb(IO_PIC2 + 1, 0x3);

        // OCW3: clear specific mask, then read IRR by default.
        io.outb(IO_PIC1, 0x68);
        io.outb(IO_PIC1, 0x0a);
        io.outb(IO_PIC2, 0x68);
        io.outb(IO_PIC2, 0x0a);
    }
}

} // verus!
