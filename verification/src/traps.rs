//! Trap and interrupt numbering.

use vstd::prelude::*;

verus! {

/// Vector at which external interrupt requests start.
pub const T_IRQ0: u8 = 32;

/// Interrupt request line of the timer.
pub const TIMER_IRQ: u8 = 0;

/// Interrupt request line of the first serial port.
pub const COM1_IRQ: u8 = 4;

/// Interrupt request line of the network card.
pub const NIC_IRQ: u8 = 0xb;

/// Flags-register bit: interrupts enabled.
pub const FLAG_INT_ENABLED: u32 = 0x200;

/// Every trap and interrupt the kernel tells apart.
#[derive(Clone, Copy, PartialEq, Eq, Structural, Debug)]
pub enum Interrupt {
    DivError,
    DebugException,
    NonMaskableInt,
    Breakpoint,
    Overflow,
    BoundsCheck,
    IllegalOp,
    DeviceNotAvailable,
    DoubleFault,
    Coproc,
    InvalidTss,
    SegmentNotPresent,
    StackException,
    GenProtectFault,
    PageFault,
    Reserved,
    FloatingPointErr,
    AlignmentCheck,
    MachineCheck,
    SimdErr,
    Syscall,
    TimerInt,
    KeyboardInt,
    Com1Int,
    NetworkInt,
    IdeInt,
    ErrorInt,
    SpuriousInt,
}

/// The processor vector behind each interrupt name.
pub open spec fn spec_vector(i: Interrupt) -> u8 {
    match i {
        Interrupt::DivError => 0,
        Interrupt::DebugException => 1,
        Interrupt::NonMaskableInt => 2,
        Interrupt::Breakpoint => 3,
        Interrupt::Overflow => 4,
        Interrupt::BoundsCheck => 5,
        Interrupt::IllegalOp => 6,
        Interrupt::DeviceNotAvailable => 7,
        Interrupt::DoubleFault => 8,
        Interrupt::Coproc => 9,
        Interrupt::InvalidTss => 10,
        Interrupt::SegmentNotPresent => 11,
        Interrupt::StackException => 12,
        Interrupt::GenProtectFault => 13,
        Interrupt::PageFault => 14,
        Interrupt::Reserved => 15,
        Interrupt::FloatingPointErr => 16,
        Interrupt::AlignmentCheck => 17,
        Interrupt::MachineCheck => 18,
        Interrupt::SimdErr => 19,
        Interrupt::Syscall => 64,
        Interrupt::TimerInt => 32,
        Interrupt::KeyboardInt => 33,
        Interrupt::Com1Int => 36,
        Interrupt::NetworkInt => 43,
        Interrupt::IdeInt => 46,
        Interrupt::ErrorInt => 51,
        Interrupt::SpuriousInt => 63,
    }
}

impl Interrupt {
    /// The processor vector of this interrupt: the external request
    /// lines sit at `T_IRQ0` plus their line number.
    pub fn vector(&self) -> (r: u8)
        ensures
            r == spec_vector(*self),
    {
        match self {
            Interrupt::DivError => 0,
            Interrupt::DebugException => 1,
            Interrupt::NonMaskableInt => 2,
            Interrupt::Breakpoint => 3,
            Interrupt::Overflow => 4,
            Interrupt::BoundsCheck => 5,
            Interrupt::IllegalOp => 6,
            Interrupt::DeviceNotAvailable => 7,
            Interrupt::DoubleFault => 8,
            Interrupt::Coproc => 9,
            Interrupt::InvalidTss => 10,
            Interrupt::SegmentNotPresent => 11,
            Interrupt::StackException => 12,
            Interrupt::GenProtectFault => 13,
            Interrupt::PageFault => 14,
            Interrupt::Reserved => 15,
            Interrupt::FloatingPointErr => 16,
            Interrupt::AlignmentCheck => 17,
            Interrupt::MachineCheck => 18,
            Interrupt::SimdErr => 19,
            Interrupt::Syscall => 64,
            Interrupt::TimerInt => 32,
            Interrupt::KeyboardInt => 33,
            Interrupt::Com1Int => 36,
            Interrupt::NetworkInt => 43,
            Interrupt::IdeInt => 46,
            Interrupt::ErrorInt => 51,
            Interrupt::SpuriousInt => 63,
        }
    }
}

impl Default for Interrupt {
    /// Unrecognised vectors are treated as spurious.
    fn default() -> (r: Interrupt)
        ensures
            r == Interrupt::SpuriousInt,
    {
        Interrupt::SpuriousInt
    }
}

} // verus!
