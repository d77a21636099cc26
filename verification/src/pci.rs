//! PCI configuration-space access.
//!
//! Configuration registers are addressed by bus, slot, function and
//! offset; the address word handed to the configuration ports and all
//! extraction and merging of 16-bit halves out of the 32-bit registers is
//! computed here and proved exact. What a device answers is up to the
//! device.

use vstd::prelude::*;
use crate::portio::PortIo;

verus! {

/// Vendor id that marks an absent device.
pub const INVALID_VENDOR: u16 = 0xffff;

const CONFIG_ADDRESS: u16 = 0xcf8;

const CONFIG_DATA: u16 = 0xcfc;

/// Vendor id of Realtek.
pub const REALTEK: u16 = 0x10ec;

/// Device id of the RTL-8139 network card.
pub const RTL_8139: u16 = 0x8139;

/// Configuration offset of the vendor id.
pub const VEND_ID_OFFSET: u8 = 0;

/// Configuration offset of the device id.
pub const DEV_ID_OFFSET: u8 = 2;

/// Configuration offset of the command register.
pub const CMD_REG_OFFSET: u8 = 4;

/// Configuration offset of the header type field.
pub const HDR_TYPE_OFFSET: u8 = 0xe;

/// Low bit of a base-address register that marks an I/O-space mapping.
pub const BAR_TYPE_IO: u8 = 0x1;

/// Command-register bit: respond to I/O space accesses.
pub const CMD_IO_SPACE: u16 = 1;

/// Command-register bit: respond to memory space accesses.
pub const CMD_MEM_SPACE: u16 = 1 << 1;

/// Command-register bit: allow the device to master the bus.
pub const CMD_BUS_MASTER: u16 = 1 << 2;

/// The word written to the address port to select a configuration
/// register.
pub open spec fn spec_config_address(bus: u8, slot: u8, func: u8, offset: u8) -> u32 {
    ((bus as u32) << 16) | ((slot as u32) << 11) | ((func as u32) << 8) | ((offset as u32) & 0xfc)
        | 0x8000_0000
}

/// The 16-bit half of a configuration dword selected by the offset's
/// second address bit.
pub open spec fn spec_extract_word(dword: u32, offset: u8) -> u16 {
    ((dword >> (((offset as u32) & 2) * 8)) & 0xffff) as u16
}

/// Build the configuration-address word for a register.
pub fn config_address(bus: u8, slot: u8, func: u8, offset: u8) -> (r: u32)
    ensures
        r == spec_config_address(bus, slot, func, offset),
{
    ((bus as u32) << 16) | ((slot as u32) << 11) | ((func as u32) << 8) | ((offset as u32) & 0xfc)
        | 0x8000_0000
}

/// Pick the addressed 16-bit half out of a configuration dword.
pub fn extract_word(dword: u32, offset: u8) -> (r: u16)
    ensures
        r == spec_extract_word(dword, offset),
{
    proof {
        assert(((offset as u32) & 2) <= 2) by (bit_vector);
    }
    let sh = ((offset as u32) & 2) * 8;
    #[verifier::truncate]
    (((dword >> sh) & 0xffff) as u16)
}

/// Merge a 16-bit value into the right half of a configuration dword,
/// the other half being the word already there.
pub fn merge_word(other: u16, config: u16, offset: u8) -> (r: u32)
    ensures
        ((offset & 0xfc) % 4 == 0) ==> r == (((other as u32) << 16) | (config as u32)),
        ((offset & 0xfc) % 4 != 0) ==> r == (((config as u32) << 16) | (other as u32)),
{
    if (offset & 0xfc) % 4 == 0 {
        ((other as u32) << 16) | (config as u32)
    } else {
        ((config as u32) << 16) | (other as u32)
    }
}

/// Read one 32-bit configuration register of a device.
pub fn config_read32<P: PortIo>(io: &mut P, bus: u8, slot: u8, func: u8, offset: u8) -> u32 {
    let address = config_address(bus, slot, func, offset);
    io.outl(CONFIG_ADDRESS, address);
    io.inl(CONFIG_DATA)
}

/// Read one 16-bit configuration register of a device.
pub fn config_read16<P: PortIo>(io: &mut P, bus: u8, slot: u8, func: u8, offset: u8) -> u16 {
    let dword = config_read32(io, bus, slot, func, offset);
    extract_word(dword, offset)
}

/// Write one 32-bit configuration register of a device.
pub fn config_write32<P: PortIo>(io: &mut P, bus: u8, slot: u8, func: u8, offset: u8, config: u32) {
    let address = config_address(bus, slot, func, offset);
    io.outl(CONFIG_ADDRESS, address);
    io.outl(CONFIG_DATA, config);
}

/// Write one 16-bit configuration register, keeping the other half of
/// the containing dword as it was just read.
pub fn config_write16<P: PortIo>(io: &mut P, bus: u8, slot: u8, func: u8, offset: u8, config: u16)
    requires
        2 <= offset,
        offset + 2 <= u8::MAX,
{
    // The 16-bit word is one half of a 32-bit register; fetch the other
    // half first.
    let other_off = if (offset & 0xfc) % 4 == 0 {
        offset + 2
    } else {
        offset - 2
    };
    let word = config_read16(io, bus, slot, func, other_off);
    let data = merge_word(word, config, offset);
    config_write32(io, bus, slot, func, offset, data);
}

/// One device's place on the bus.
#[derive(Clone, Copy, PartialEq, Eq, Structural, Debug)]
pub struct PciDevice {
    pub bus: u8,
    pub slot: u8,
    pub func: u8,
}

/// The six base-address registers of a configuration header.
#[derive(Clone, Copy, PartialEq, Eq, Structural, Debug)]
pub enum Bar {
    Bar0,
    Bar1,
    Bar2,
    Bar3,
    Bar4,
    Bar5,
}

/// Configuration offset of a base-address register.
pub open spec fn spec_bar_offset(bar: Bar) -> u8 {
    match bar {
        Bar::Bar0 => 0x10,
        Bar::Bar1 => 0x14,
        Bar::Bar2 => 0x18,
        Bar::Bar3 => 0x1C,
        Bar::Bar4 => 0x20,
        Bar::Bar5 => 0x24,
    }
}

impl Bar {
    /// Configuration offset of this base-address register.
    pub fn offset(&self) -> (r: u8)
        ensures
            r == spec_bar_offset(*self),
    {
        match self {
            Bar::Bar0 => 0x10,
            Bar::Bar1 => 0x14,
            Bar::Bar2 => 0x18,
            Bar::Bar3 => 0x1C,
            Bar::Bar4 => 0x20,
            Bar::Bar5 => 0x24,
        }
    }
}

/// The interrupt line and pin packed into configuration word `0x3c`.
pub fn split_irq(word: u16) -> (r: (u8, u8))
    ensures
        r.0 == (word & 0xff) as u8,
        r.1 == (word >> 8) as u8,
{
    ((word & 0xff) as u8, (word >> 8) as u8)
}

impl PciDevice {
    pub fn new(bus: u8, slot: u8, func: u8) -> (r: PciDevice)
        ensures
            r.bus == bus,
            r.slot == slot,
            r.func == func,
    {
        PciDevice { bus, slot, func }
    }

    /// Read a 16-bit register of this device's configuration header.
    pub fn read16<P: PortIo>(&self, io: &mut P, offset: u8) -> u16 {
        config_read16(io, self.bus, self.slot, self.func, offset)
    }

    /// Read a 32-bit register of this device's configuration header.
    pub fn read32<P: PortIo>(&self, io: &mut P, offset: u8) -> u32 {
        config_read32(io, self.bus, self.slot, self.func, offset)
    }

    /// Write a 32-bit register of this device's configuration header.
    pub fn write32<P: PortIo>(&mut self, io: &mut P, offset: u8, data: u32) {
        config_write32(io, self.bus, self.slot, self.func, offset, data);
    }

    /// Set the given bits in the device's command register, keeping the
    /// bits already set.
    pub fn set_command_flags<P: PortIo>(&mut self, io: &mut P, flags: u16)
        ensures
            *final(self) == *old(self),
    {
        let config = config_read16(io, self.bus, self.slot, self.func, CMD_REG_OFFSET);
        config_write16(io, self.bus, self.slot, self.func, CMD_REG_OFFSET, config | flags);
    }

    /// The header type field of the configuration header.
    pub fn header_type<P: PortIo>(&self, io: &mut P) -> u16 {
        self.read16(io, HDR_TYPE_OFFSET)
    }

    /// Read one of the six base-address registers.
    pub fn read_bar<P: PortIo>(&self, io: &mut P, bar: Bar) -> u32 {
        self.read32(io, bar.offset())
    }

    /// The device's interrupt line and pin.
    pub fn read_irq<P: PortIo>(&self, io: &mut P) -> (u8, u8) {
        let word = self.read16(io, 0x3c);
        split_irq(word)
    }
}

/// Scan every slot of every bus for a device with the given vendor and
/// device ids; the first hit, in scan order, comes back at function 0.
pub fn find<P: PortIo>(io: &mut P, vendor: u16, device: u16) -> (r: Option<PciDevice>)
    ensures
        r matches Some(d) ==> d.slot < 32 && d.func == 0,
{
    let mut bus: u16 = 0;
    while bus < 256
        invariant
            bus <= 256,
        decreases 256 - bus,
    {
        let mut slot: u8 = 0;
        while slot < 32
            invariant
                slot <= 32,
            decreases 32 - slot,
        {
            let vend_id = config_read16(io, bus as u8, slot, 0, VEND_ID_OFFSET);
            let dev_id = config_read16(io, bus as u8, slot, 0, DEV_ID_OFFSET);
            if vendor == vend_id && dev_id == device {
                return Some(PciDevice::new(bus as u8, slot, 0));
            }
            slot = slot + 1;
        }
        bus = bus + 1;
    }
    None
}

} // verus!
