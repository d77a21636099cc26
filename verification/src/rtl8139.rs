//! The RTL-8139 network card.
//!
//! The card exchanges packets through two rings: a receive ring the card
//! fills and the driver walks, and four transmit slots the driver fills
//! and the card drains. All ring arithmetic and header decoding is
//! proved exact; the card itself answers through the port abstraction.
//! Telling the card where the rings live in physical memory takes the
//! rings' physical addresses, which the boot code supplies as plain
//! numbers.

use vstd::prelude::*;
use crate::pci::PciDevice;
use crate::portio::PortIo;

verus! {

const CONFIG_REG1: u16 = 0x52;

const CMD_REG: u16 = 0x37;

const RB_START_REG: u16 = 0x30;

const RX_CONFIG_REG: u16 = 0x44;

const IMR_REG: u16 = 0x3C;

const ISR_REG: u16 = 0x3E;

const CAPR: u16 = 0x38;

/// Bytes of the bare receive ring.
pub const BASE_BUF_SIZE: usize = 8192;

/// Bytes of the receive ring with its overflow slack.
pub const BUF_SIZE: usize = 8192 + 1500 + 16;

/// Number of transmit slots.
pub const NUM_TX_BUFFERS: u8 = 4;

/// Bytes of one transmit slot.
pub const TX_BUF_SIZE: usize = 2048;

/// Transmit status bit: the slot belongs to the driver.
pub const TSD_OWN: u32 = 1 << 13;

/// Transmit status bit: the packet went out.
pub const TSD_TOK: u32 = 1 << 15;

/// Command-register bit: the receive ring is empty.
pub const CMD_RX_BUF_EMPTY: u8 = 1;

/// Command-register bit: enable the transmitter.
pub const CMD_TX_ENABLE: u8 = 1 << 2;

/// Command-register bit: enable the receiver.
pub const CMD_RX_ENABLE: u8 = 1 << 3;

/// Command-register bit: software reset.
pub const CMD_RESET: u8 = 1 << 4;

/// A received packet handed out of the ring: its bytes, copied out
/// before the ring slot is recycled.
pub struct EthernetRxBuffer(pub Vec<u8>);

/// The driver's view of one card.
pub struct Rtl8139 {
    /// Where the card sits on the PCI bus.
    pub pci: PciDevice,
    /// Base of the card's I/O window, from its first base-address
    /// register.
    pub iobase: u16,
    /// The receive ring the card fills.
    pub rx_buffer: Vec<u8>,
    /// The four transmit slots.
    pub tx_buffer: Vec<Vec<u8>>,
    /// The slot the next transmission uses.
    pub tx_offset: u8,
    /// How many transmit slots stand free.
    pub free_tx_buffers: u8,
    /// Where in the receive ring the driver stands; the software
    /// counterpart of the card's read pointer.
    pub rx_offset: usize,
}

impl Rtl8139 {
    /// The rings have their fixed shapes and the cursors stay inside
    /// them.
    pub open spec fn wf(&self) -> bool {
        &&& self.rx_buffer@.len() == BUF_SIZE
        &&& self.tx_buffer@.len() == NUM_TX_BUFFERS
        &&& forall|i: int|
            0 <= i < self.tx_buffer@.len() ==> (#[trigger] self.tx_buffer@[i])@.len()
                == TX_BUF_SIZE
        &&& self.tx_offset < NUM_TX_BUFFERS
        &&& self.free_tx_buffers <= NUM_TX_BUFFERS
        &&& self.rx_offset + 4 <= BASE_BUF_SIZE
        &&& self.iobase <= 0xFF00
    }

    /// A fresh driver for a card at the given I/O base: empty rings,
    /// every transmit slot free.
    pub fn new(pci: PciDevice, iobase: u16) -> (r: Rtl8139)
        requires
            iobase <= 0xFF00,
        ensures
            r.wf(),
            r.pci == pci,
            r.iobase == iobase,
            r.tx_offset == 0,
            r.free_tx_buffers == NUM_TX_BUFFERS,
            r.rx_offset == 0,
    {
        let rx_buffer = crate::fs::zero_vec(BUF_SIZE);
        let mut tx_buffer: Vec<Vec<u8>> = Vec::new();
        let mut i: usize = 0;
        while i < NUM_TX_BUFFERS as usize
            invariant
                i <= NUM_TX_BUFFERS,
                tx_buffer@.len() == i,
                forall|j: int|
                    0 <= j < i ==> (#[trigger] tx_buffer@[j])@.len() == TX_BUF_SIZE,
            decreases NUM_TX_BUFFERS - i,
        {
            tx_buffer.push(crate::fs::zero_vec(TX_BUF_SIZE));
            i = i + 1;
        }
        Rtl8139 {
            pci,
            iobase,
            rx_buffer,
            tx_buffer,
            tx_offset: 0,
            free_tx_buffers: NUM_TX_BUFFERS,
            rx_offset: 0,
        }
    }

    /// Program the card: power it on, reset it, tell it where the rings
    /// live (as physical addresses), and enable both directions.
    /// Answers whether the reset was seen to complete.
    pub fn setup_registers<P: PortIo>(
        &mut self,
        io: &mut P,
        rx_ring_phys: u32,
        tx_slot_phys: &Vec<u32>,
    ) -> (r: bool)
        requires
            old(self).wf(),
            tx_slot_phys@.len() == NUM_TX_BUFFERS,
        ensures
            *final(self) == *old(self),
    {
        // Power on the card.
        io.outb(self.iobase + CONFIG_REG1, 0x0);
        // Software reset, with a bounded wait for the bit to clear.
        io.outb(self.iobase + CMD_REG, CMD_RESET);
        let mut polls: u32 = 0;
        let mut reset_done = false;
        while polls < 1000000 && !reset_done
            invariant
                polls <= 1000000,
                *self == *old(self),
                old(self).wf(),
            decreases 1000000 - polls,
        {
            if io.inb(self.iobase + CMD_REG) & CMD_RESET == 0 {
                reset_done = true;
            }
            polls = polls + 1;
        }
        // Where the receive ring lives.
        io.outl(self.iobase + RB_START_REG, rx_ring_phys);
        // Where each transmit slot lives.
        let mut off: usize = 0;
        while off < NUM_TX_BUFFERS as usize
            invariant
                off <= NUM_TX_BUFFERS,
                tx_slot_phys@.len() == NUM_TX_BUFFERS,
                *self == *old(self),
                old(self).wf(),
            decreases NUM_TX_BUFFERS - off,
        {
            io.outl(self.iobase + (0x20 + 4 * (off as u16)), tx_slot_phys[off]);
            off = off + 1;
        }
        // Interrupts for both directions, promiscuous reception with the
        // wrap bit, and the engines themselves.
        io.outw(self.iobase + IMR_REG, 0xe07f);
        io.outl(self.iobase + RX_CONFIG_REG, 0x8f);
        io.outb(self.iobase + CMD_REG, CMD_TX_ENABLE | CMD_RX_ENABLE);
        reset_done
    }

    /// The transmit slot after `tx_off`, wrapping around.
    pub fn next_tx_offset(tx_off: u8) -> (r: u8)
        requires
            tx_off < NUM_TX_BUFFERS,
        ensures
            r == (tx_off + 1) % (NUM_TX_BUFFERS as int),
    {
        (tx_off + 1) % NUM_TX_BUFFERS
    }

    /// Whether a transmit slot is free.
    pub fn tx_available(&self) -> (r: bool)
        ensures
            r == (self.free_tx_buffers > 0),
    {
        self.free_tx_buffers > 0
    }

    /// The card's six-byte hardware address, one register byte each.
    pub fn mac_address<P: PortIo>(&self, io: &mut P) -> (r: Vec<u8>)
        requires
            self.wf(),
        ensures
            r@.len() == 6,
    {
        let mut mac: Vec<u8> = Vec::new();
        let mut off: usize = 0;
        while off < 6
            invariant
                off <= 6,
                mac@.len() == off,
                self.wf(),
            decreases 6 - off,
        {
            mac.push(io.inb(self.iobase + (off as u16)));
            off = off + 1;
        }
        mac
    }

    /// One transmit status descriptor.
    fn tsd<P: PortIo>(&self, io: &mut P, off: u8) -> u32
        requires
            self.wf(),
            off < NUM_TX_BUFFERS,
    {
        io.inl(self.iobase + 0x10 + 4 * (off as u16))
    }

    /// Store one transmit status descriptor.
    fn set_tsd<P: PortIo>(&self, io: &mut P, tsd: u32, off: u8)
        requires
            self.wf(),
            off < NUM_TX_BUFFERS,
    {
        io.outl(self.iobase + 0x10 + 4 * (off as u16), tsd);
    }

    /// The card's current read pointer.
    pub fn get_capr<P: PortIo>(&self, io: &mut P) -> (r: usize)
        requires
            self.wf(),
    {
        io.inw(self.iobase + CAPR) as usize
    }

    fn set_capr<P: PortIo>(&self, io: &mut P, off: usize)
        requires
            self.wf(),
            off < BUF_SIZE,
    {
        io.outw(self.iobase + CAPR, off as u16);
    }

    fn clear_isr<P: PortIo>(&self, io: &mut P)
        requires
            self.wf(),
    {
        io.outw(self.iobase + ISR_REG, 0xffff);
    }

    /// Acknowledge the card and reclaim every transmit slot whose
    /// packet went out.
    pub fn interrupt<P: PortIo>(&mut self, io: &mut P)
        requires
            old(self).wf(),
        ensures
            final(self).wf(),
            final(self).rx_buffer == old(self).rx_buffer,
            final(self).rx_offset == old(self).rx_offset,
            old(self).free_tx_buffers <= final(self).free_tx_buffers,
    {
        self.clear_isr(io);
        while self.free_tx_buffers < NUM_TX_BUFFERS
            invariant
                self.wf(),
                self.rx_buffer == old(self).rx_buffer,
                self.rx_offset == old(self).rx_offset,
                self.iobase == old(self).iobase,
                old(self).free_tx_buffers <= self.free_tx_buffers,
            decreases NUM_TX_BUFFERS - self.free_tx_buffers,
        {
            let off = self.tx_offset;
            let status = self.tsd(io, off);
            if status & (TSD_TOK | TSD_OWN) != (TSD_TOK | TSD_OWN) {
                break;
            }
            self.tx_offset = Self::next_tx_offset(self.tx_offset);
            self.free_tx_buffers = self.free_tx_buffers + 1;
        }
    }

    /// Whether the receive ring holds nothing.
    pub fn rx_empty<P: PortIo>(&self, io: &mut P) -> (r: bool)
        requires
            self.wf(),
    {
        io.inb(self.iobase + CMD_REG) & CMD_RX_BUF_EMPTY != 0
    }

    /// The status word of the packet at the driver's ring cursor.
    pub fn get_rx_hdr(&self) -> (r: u16)
        requires
            self.wf(),
        ensures
            r == self.rx_buffer@[self.rx_offset as int] + self.rx_buffer@[self.rx_offset as int
                + 1] * 0x100,
    {
        let b1 = self.rx_buffer[self.rx_offset];
        let b2 = self.rx_buffer[self.rx_offset + 1];
        (b1 as u16) + (b2 as u16) * 0x100
    }

    /// The length word of the packet at the driver's ring cursor.
    pub fn get_rx_len(&self) -> (r: usize)
        requires
            self.wf(),
        ensures
            r == self.rx_buffer@[self.rx_offset as int + 2] + self.rx_buffer@[self.rx_offset as int
                + 3] * 0x100,
            r < 0x1_0000,
    {
        let b1 = self.rx_buffer[self.rx_offset + 2];
        let b2 = self.rx_buffer[self.rx_offset + 3];
        (b1 as usize) + (b2 as usize) * 0x100
    }

    /// The packet under the ring cursor, when the ring holds one whose
    /// header marks it good: its start and length inside the ring,
    /// past the four header bytes.
    pub fn read<P: PortIo>(&self, io: &mut P) -> (r: Option<(usize, usize)>)
        requires
            self.wf(),
        ensures
            r matches Some(p) ==> {
                &&& p.0 == self.rx_offset + 4
                &&& p.0 + p.1 <= BUF_SIZE
            },
    {
        if self.rx_empty(io) {
            return None;
        }
        let hdr = self.get_rx_hdr();
        if hdr & 1 == 0 {
            return None;
        }
        let len = self.get_rx_len();
        if self.rx_offset + 4 + len > BUF_SIZE {
            // A corrupt length would walk off the ring.
            return None;
        }
        Some((self.rx_offset + 4, len))
    }

    /// Move the driver's cursor past the packet just consumed, keep it
    /// dword-aligned, tell the card, and wrap at the ring's end.
    pub fn update_capr<P: PortIo>(&mut self, io: &mut P)
        requires
            old(self).wf(),
        ensures
            final(self).wf(),
            final(self).rx_buffer == old(self).rx_buffer,
            final(self).free_tx_buffers == old(self).free_tx_buffers,
            final(self).tx_offset == old(self).tx_offset,
    {
        let len = self.get_rx_len();
        let advanced = (self.rx_offset + len + 4 + 3) & !3usize;
        // The register wants the cursor a little behind, by the manual.
        if advanced >= 0x10 && advanced < BUF_SIZE {
            let capr = advanced - 0x10;
            self.set_capr(io, capr);
        }
        let wrapped = if advanced >= BASE_BUF_SIZE {
            advanced % BASE_BUF_SIZE
        } else {
            advanced
        };
        if wrapped + 4 <= BASE_BUF_SIZE {
            self.rx_offset = wrapped;
        } else {
            self.rx_offset = 0;
        }
    }

    /// Hand a packet to a free transmit slot: its bytes go into the
    /// slot, its length and cleared ownership bit into the slot's
    /// status descriptor. Answers whether the slot was the driver's to
    /// use.
    pub fn hw_transmit<P: PortIo>(&mut self, io: &mut P, buf: &Vec<u8>) -> (r: bool)
        requires
            old(self).wf(),
            buf@.len() <= TX_BUF_SIZE,
        ensures
            final(self).wf(),
    {
        let off = self.tx_offset;
        let status = self.tsd(io, off);
        if status & TSD_OWN == 0 {
            return false;
        }
        let with_len = tsd_set_length(status, buf.len());
        // The packet bytes move into the slot the card will fetch.
        let mut slot = crate::fs::zero_vec(TX_BUF_SIZE);
        let mut i: usize = 0;
        #[verifier::loop_isolation(false)]
        while i < buf.len()
            invariant
                i <= buf@.len(),
                slot@.len() == TX_BUF_SIZE,
            decreases buf@.len() - i,
        {
            let byte = buf[i];
            slot.set(i, byte);
            i = i + 1;
        }
        self.tx_buffer.set(off as usize, slot);
        self.set_tsd(io, with_len & !TSD_OWN, off);
        true
    }
}

/// A transmit status descriptor with its length field replaced.
pub fn tsd_set_length(tsd: u32, length: usize) -> (r: u32)
    ensures
        r == (tsd & !0xFFFu32) | ((length as u32) & 0xFFF),
{
    (tsd & !0xFFFu32) | ((length as u32) & 0xFFF)
}

} // verus!
