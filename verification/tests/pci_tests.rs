//! PCI configuration access over a scripted port.

use cofflos::pci::{
    config_address, config_read16, config_write16, extract_word, find, merge_word, split_irq,
    Bar, PciDevice, CMD_BUS_MASTER, DEV_ID_OFFSET, HDR_TYPE_OFFSET, REALTEK, RTL_8139,
    VEND_ID_OFFSET,
};
use cofflos::portio::PortIo;

/// A fake configuration space: every register dword is a function of the
/// address selected last.
struct FakeConfig {
    selected: u32,
    regs: std::collections::HashMap<u32, u32>,
    writes: Vec<(u32, u32)>,
}

impl FakeConfig {
    fn new() -> FakeConfig {
        FakeConfig { selected: 0, regs: std::collections::HashMap::new(), writes: Vec::new() }
    }
}

impl PortIo for FakeConfig {
    fn inb(&mut self, _port: u16) -> u8 {
        0
    }
    fn outb(&mut self, _port: u16, _val: u8) {}
    fn inw(&mut self, _port: u16) -> u16 {
        0
    }
    fn outw(&mut self, _port: u16, _val: u16) {}
    fn inl(&mut self, port: u16) -> u32 {
        if port == 0xcfc {
            *self.regs.get(&self.selected).unwrap_or(&0xffff_ffff)
        } else {
            0
        }
    }
    fn outl(&mut self, port: u16, val: u32) {
        if port == 0xcf8 {
            self.selected = val;
        } else if port == 0xcfc {
            self.writes.push((self.selected, val));
            self.regs.insert(self.selected, val);
        }
    }
}

#[test]
fn address_word_layout() {
    assert_eq!(config_address(0, 0, 0, 0), 0x8000_0000);
    assert_eq!(config_address(1, 2, 3, 0x10), 0x8001_1310);
    // The two low offset bits never reach the address.
    assert_eq!(config_address(0, 0, 0, 0x13), 0x8000_0010);
}

#[test]
fn word_extraction_and_merge() {
    assert_eq!(extract_word(0xDEAD_BEEF, 0), 0xBEEF);
    assert_eq!(extract_word(0xDEAD_BEEF, 2), 0xDEAD);
    assert_eq!(merge_word(0xDEAD, 0xBEEF, 0), 0xDEAD_BEEF);
    // The masked offset is always a multiple of four, so the fetched
    // word always lands in the high half.
    assert_eq!(merge_word(0xDEAD, 0xBEEF, 2), 0xDEAD_BEEF);
}

#[test]
fn irq_word_splits_into_line_and_pin() {
    assert_eq!(split_irq(0x010b), (0x0b, 0x01));
    assert_eq!(split_irq(0xff00), (0x00, 0xff));
}

#[test]
fn bar_offsets() {
    assert_eq!(Bar::Bar0.offset(), 0x10);
    assert_eq!(Bar::Bar1.offset(), 0x14);
    assert_eq!(Bar::Bar5.offset(), 0x24);
}

#[test]
fn device_reads_go_through_the_selected_address() {
    let mut io = FakeConfig::new();
    let dev = PciDevice::new(0, 3, 0);
    // Vendor and device id in register 0, header type in the byte at 0xe.
    io.regs.insert(config_address(0, 3, 0, 0), ((RTL_8139 as u32) << 16) | REALTEK as u32);
    io.regs.insert(config_address(0, 3, 0, 0xc), 0x00AB_0000);
    io.regs.insert(config_address(0, 3, 0, 0x10), 0xc001);
    io.regs.insert(config_address(0, 3, 0, 0x3c), 0x0000_010b);

    assert_eq!(dev.read16(&mut io, VEND_ID_OFFSET), REALTEK);
    assert_eq!(dev.read16(&mut io, DEV_ID_OFFSET), RTL_8139);
    assert_eq!(dev.header_type(&mut io), 0x00AB);
    assert_eq!(dev.header_type(&mut io), extract_word(0x00AB_0000, HDR_TYPE_OFFSET));
    assert_eq!(dev.read_bar(&mut io, Bar::Bar0), 0xc001);
    assert_eq!(dev.read_irq(&mut io), (0x0b, 0x01));
}

#[test]
fn find_scans_until_the_ids_match() {
    let mut io = FakeConfig::new();
    // The card sits at bus 0, slot 5.
    io.regs.insert(config_address(0, 5, 0, 0), ((RTL_8139 as u32) << 16) | REALTEK as u32);
    let found = find(&mut io, REALTEK, RTL_8139).unwrap();
    assert_eq!((found.bus, found.slot, found.func), (0, 5, 0));
    assert_eq!(find(&mut io, 0x8086, 0x1234), None);
}

#[test]
fn write16_keeps_the_other_half() {
    let mut io = FakeConfig::new();
    let addr = config_address(0, 1, 0, 4);
    io.regs.insert(addr, 0xAAAA_0001);
    config_write16(&mut io, 0, 1, 0, 4, 0x0007);
    // The high half of the dword survived the 16-bit write.
    assert_eq!(*io.regs.get(&addr).unwrap(), 0xAAAA_0007);
}

#[test]
fn set_command_flags_ors_into_the_register() {
    let mut io = FakeConfig::new();
    let mut dev = PciDevice::new(0, 1, 0);
    let addr = config_address(0, 1, 0, 4);
    io.regs.insert(addr, 0x0000_0001);
    dev.set_command_flags(&mut io, CMD_BUS_MASTER);
    assert_eq!(*io.regs.get(&addr).unwrap() & 0xffff, 0x0005);
}

#[test]
fn read16_matches_extract_of_read32() {
    let mut io = FakeConfig::new();
    io.regs.insert(config_address(2, 7, 1, 8), 0x1234_5678);
    let w = config_read16(&mut io, 2, 7, 1, 0xa);
    assert_eq!(w, 0x1234);
}
