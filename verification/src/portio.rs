//! Access to x86 I/O ports, as the drivers see it.
//!
//! Device registers are reached through port instructions. Inside the
//! library that access is a trait: the boot code implements it over the
//! processor's `in`/`out` instructions, and tests implement it over fake
//! devices. Nothing is assumed about the values a device hands back, so
//! every driver below is verified for every possible device behaviour.

use vstd::prelude::*;

verus! {

/// Byte-, word- and dword-wide port access.
pub trait PortIo {
    fn inb(&mut self, port: u16) -> u8;

    fn outb(&mut self, port: u16, val: u8);

    fn inw(&mut self, port: u16) -> u16;

    fn outw(&mut self, port: u16, val: u16);

    fn inl(&mut self, port: u16) -> u32;

    fn outl(&mut self, port: u16, val: u32);
}

} // verus!
