//! The RTL-8139 driver over a scripted card.

use cofflos::pci::PciDevice;
use cofflos::portio::PortIo;
use cofflos::rtl8139::{
    tsd_set_length, EthernetRxBuffer, Rtl8139, BASE_BUF_SIZE, BUF_SIZE, NUM_TX_BUFFERS, TSD_OWN,
    TSD_TOK,
};

/// A card whose registers are scripted per port.
struct FakeCard {
    tsd: [u32; 4],
    cmd: u8,
    capr_writes: Vec<u16>,
    outl_writes: Vec<(u16, u32)>,
}

impl FakeCard {
    fn new() -> FakeCard {
        FakeCard { tsd: [TSD_OWN; 4], cmd: 0, capr_writes: Vec::new(), outl_writes: Vec::new() }
    }
}

const IOBASE: u16 = 0xc000;

impl PortIo for FakeCard {
    fn inb(&mut self, port: u16) -> u8 {
        if port == IOBASE + 0x37 {
            self.cmd
        } else if port >= IOBASE && port < IOBASE + 6 {
            // hardware address bytes 10:20:30:40:50:60
            ((port - IOBASE + 1) * 0x10) as u8
        } else {
            0
        }
    }
    fn outb(&mut self, port: u16, val: u8) {
        if port == IOBASE + 0x37 {
            // a software reset completes at once
            if val & 0x10 != 0 {
                self.cmd = 0;
            }
        }
    }
    fn inw(&mut self, _port: u16) -> u16 {
        0
    }
    fn outw(&mut self, port: u16, val: u16) {
        if port == IOBASE + 0x38 {
            self.capr_writes.push(val);
        }
    }
    fn inl(&mut self, port: u16) -> u32 {
        let off = port.wrapping_sub(IOBASE);
        if (0x10..0x20).contains(&off) && off % 4 == 0 {
            self.tsd[((off - 0x10) / 4) as usize]
        } else {
            0
        }
    }
    fn outl(&mut self, port: u16, val: u32) {
        let off = port.wrapping_sub(IOBASE);
        if (0x10..0x20).contains(&off) && off % 4 == 0 {
            self.tsd[((off - 0x10) / 4) as usize] = val;
        }
        self.outl_writes.push((port, val));
    }
}

#[test]
fn a_fresh_driver_owns_all_slots() {
    let nic = Rtl8139::new(PciDevice::new(0, 5, 0), IOBASE);
    assert_eq!(nic.rx_buffer.len(), BUF_SIZE);
    assert_eq!(nic.tx_buffer.len(), NUM_TX_BUFFERS as usize);
    assert!(nic.tx_available());
    assert_eq!(nic.free_tx_buffers, NUM_TX_BUFFERS);
}

#[test]
fn tx_offsets_wrap() {
    assert_eq!(Rtl8139::next_tx_offset(0), 1);
    assert_eq!(Rtl8139::next_tx_offset(3), 0);
}

#[test]
fn tsd_length_field_replacement() {
    let tsd = 0xFFFF_FFFF;
    assert_eq!(tsd_set_length(tsd, 60) & 0xFFF, 60);
    assert_eq!(tsd_set_length(tsd, 60) & !0xFFF, 0xFFFF_F000);
}

#[test]
fn rx_header_and_length_decode() {
    let mut nic = Rtl8139::new(PciDevice::new(0, 5, 0), IOBASE);
    nic.rx_buffer[0] = 0x01; // good packet
    nic.rx_buffer[1] = 0x00;
    nic.rx_buffer[2] = 0x40; // 64 bytes
    nic.rx_buffer[3] = 0x00;
    assert_eq!(nic.get_rx_hdr(), 1);
    assert_eq!(nic.get_rx_len(), 64);
    let mut io = FakeCard::new();
    let (start, len) = nic.read(&mut io).unwrap();
    assert_eq!(start, 4);
    assert_eq!(len, 64);
}

#[test]
fn read_sees_nothing_in_an_empty_ring() {
    let nic = Rtl8139::new(PciDevice::new(0, 5, 0), IOBASE);
    let mut io = FakeCard::new();
    io.cmd = 1; // RX buffer empty
    assert_eq!(nic.read(&mut io), None);
}

#[test]
fn update_capr_advances_dword_aligned() {
    let mut nic = Rtl8139::new(PciDevice::new(0, 5, 0), IOBASE);
    nic.rx_buffer[2] = 64;
    let mut io = FakeCard::new();
    nic.update_capr(&mut io);
    // 0 + 64 + 4, rounded up to a dword boundary: 68; the register gets
    // sixteen less.
    assert_eq!(nic.rx_offset, 68);
    assert_eq!(io.capr_writes, vec![68 - 0x10]);
    assert!(nic.rx_offset < BASE_BUF_SIZE);
}

#[test]
fn interrupt_reclaims_transmitted_slots() {
    let mut nic = Rtl8139::new(PciDevice::new(0, 5, 0), IOBASE);
    nic.free_tx_buffers = 2;
    nic.tx_offset = 2;
    let mut io = FakeCard::new();
    // Slots 2 and 3 finished transmitting.
    io.tsd = [0, 0, TSD_TOK | TSD_OWN, TSD_TOK | TSD_OWN];
    nic.interrupt(&mut io);
    assert_eq!(nic.free_tx_buffers, 4);
    assert_eq!(nic.tx_offset, 0);
}

#[test]
fn hw_transmit_fills_a_slot_and_clears_ownership() {
    let mut nic = Rtl8139::new(PciDevice::new(0, 5, 0), IOBASE);
    let mut io = FakeCard::new();
    let frame = vec![0xAB; 60];
    assert!(nic.hw_transmit(&mut io, &frame));
    assert_eq!(&nic.tx_buffer[0][..60], &frame[..]);
    let tsd = io.tsd[0];
    assert_eq!(tsd & 0xFFF, 60);
    assert_eq!(tsd & TSD_OWN, 0);
    // A slot the card still owns refuses the packet.
    io.tsd[0] = 0;
    assert!(!nic.hw_transmit(&mut io, &frame));
}

#[test]
fn mac_address_reads_six_registers() {
    let nic = Rtl8139::new(PciDevice::new(0, 5, 0), IOBASE);
    let mut io = FakeCard::new();
    assert_eq!(nic.mac_address(&mut io), vec![0x10, 0x20, 0x30, 0x40, 0x50, 0x60]);
}

#[test]
fn setup_programs_the_rings() {
    let mut nic = Rtl8139::new(PciDevice::new(0, 5, 0), IOBASE);
    let mut io = FakeCard::new();
    let ok = nic.setup_registers(&mut io, 0x0080_0000, &vec![0x10, 0x20, 0x30, 0x40]);
    assert!(ok);
    // The ring address reached the card.
    assert!(io.outl_writes.contains(&(IOBASE + 0x30, 0x0080_0000)));
    assert!(io.outl_writes.contains(&(IOBASE + 0x20, 0x10)));
    assert!(io.outl_writes.contains(&(IOBASE + 0x2c, 0x40)));
}

#[test]
fn rx_buffers_hold_their_bytes() {
    let b = EthernetRxBuffer(vec![1, 2, 3]);
    assert_eq!(b.0, vec![1, 2, 3]);
}
