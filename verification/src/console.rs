//! The kernel console: byte output and input over the serial port, with
//! the few translations terminals expect.

use vstd::prelude::*;
use crate::portio::PortIo;
use crate::uart::Uart;

verus! {

const BACKSPACE: u8 = 0x08;

const ASCII_BACKSPACE: u8 = 0x7f;

/// The console, wrapping the serial port when one is present.
pub struct Console {
    uart: Option<Uart>,
}

impl Console {
    /// Whether a serial port was found behind the console.
    pub closed spec fn has_uart(&self) -> bool {
        self.uart is Some
    }

    /// Probe the serial port; a console without one swallows all output.
    pub fn new<P: PortIo>(io: &mut P) -> Console {
        Console { uart: Uart::new(io).ok() }
    }

    /// Send one byte: a delete rubs the previous character out, a
    /// carriage return becomes a newline, everything else passes through.
    fn write_byte<P: PortIo>(&mut self, io: &mut P, b: u8)
        ensures
            final(self).has_uart() == old(self).has_uart(),
    {
        if let Some(u) = &mut self.uart {
            if b == ASCII_BACKSPACE {
                u.write_byte(io, BACKSPACE);
                u.write_byte(io, 0x20);
                u.write_byte(io, BACKSPACE);
            } else if b == 0x0d {
                u.write_byte(io, 0x0a);
            } else {
                u.write_byte(io, b);
            }
        }
    }

    /// One byte of input, when the console has a port and the port has a
    /// byte; a console without a port never produces input.
    pub fn read_byte<P: PortIo>(&mut self, io: &mut P) -> (r: Option<u8>)
        ensures
            !old(self).has_uart() ==> r is None,
            final(self).has_uart() == old(self).has_uart(),
    {
        if let Some(u) = &mut self.uart {
            u.read_byte(io)
        } else {
            None
        }
    }
}

/// Write a whole message to the console, byte by byte.
pub fn print<P: PortIo>(console: &mut Console, io: &mut P, bytes: &[u8])
    ensures
        final(console).has_uart() == old(console).has_uart(),
{
    let mut i: usize = 0;
    #[verifier::loop_isolation(false)]
    while i < bytes.len()
        invariant
            i <= bytes@.len(),
            console.has_uart() == old(console).has_uart(),
        decreases bytes@.len() - i,
    {
        let b = bytes[i];
        console.write_byte(io, b);
        i = i + 1;
    }
}

} // verus!
