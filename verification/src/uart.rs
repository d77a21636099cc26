//! The 16550 serial port.
//!
//! The port sequence that brings the device up and the polling discipline
//! around each byte are fixed here; what the device reports is its own
//! business, so `new` can fail (no serial port present) and reads can come
//! up empty.

use vstd::prelude::*;
use crate::portio::PortIo;

verus! {

/// Base port of the first serial line.
pub const COM1: u16 = 0x3f8;

/// A serial port that answered at `COM1`.
pub struct Uart;

impl Uart {
    /// Probe and configure the serial port: 9600 baud, 8 data bits,
    /// receive interrupts on. A status of `0xFF` means no port is there.
    pub fn new<P: PortIo>(io: &mut P) -> Result<Uart, ()> {
        Self::init(io)
    }

    fn init<P: PortIo>(io: &mut P) -> Result<Uart, ()> {
        io.outb(COM1, 0);
        io.outb(COM1 + 3, 0x80);  // Unlock divisor
        io.outb(COM1, (115200u32 / 9600u32) as u8);
        io.outb(COM1 + 1, 0);
        io.outb(COM1 + 3, 0x03);  // Lock divisor, 8 data bits.
        io.outb(COM1 + 4, 0);
        io.outb(COM1 + 1, 0x01);  // Enable receive interrupts.
        // If status is 0xFF, no serial port.
        if io.inb(COM1 + 5) == 0xFF {
            return Err(());
        }
        // Acknowledge pre-existing interrupt conditions.
        io.inb(COM1 + 2);
        io.inb(COM1);
        Ok(Uart)
    }

    /// Send one byte, waiting a bounded number of polls for the
    /// transmitter to drain first.
    pub fn write_byte<P: PortIo>(&mut self, io: &mut P, c: u8) {
        let mut tries: u8 = 0;
        while tries < 128
            invariant
                tries <= 128,
            decreases 128 - tries,
        {
            if io.inb(COM1 + 5) & 0x20 != 0 {
                break;
            }
            tries = tries + 1;
        }
        io.outb(COM1, c);
    }

    /// One received byte, if the line has one ready.
    pub fn read_byte<P: PortIo>(&mut self, io: &mut P) -> Option<u8> {
        if (io.inb(COM1 + 5) & 0x01) == 0 {
            None
        } else {
            Some(io.inb(COM1))
        }
    }
}

} // verus!
