//! The IDE disk driver.
//!
//! Sectors move through the data port a dword at a time; the command
//! sequence and the byte marshalling are fixed here, while the device's
//! answers stay its own. Polling for readiness is bounded, so a dead
//! device reports an error instead of hanging the kernel.

use vstd::prelude::*;
use crate::portio::PortIo;
use crate::fs::{Disk, DiskError, BLOCKSIZE, zero_block, get_u32, put_u32};

verus! {

/// Bytes per disk sector.
pub const SECTOR_SIZE: usize = 512;

/// Status bit: the device is busy.
pub const IDE_BSY: u8 = 0x80;

/// Status bit: the device is ready.
pub const IDE_DRDY: u8 = 0x40;

/// Status bit: drive fault.
pub const IDE_DF: u8 = 0x20;

/// Status bit: error.
pub const IDE_ERR: u8 = 0x01;

/// Command: read one sector.
pub const IDE_CMD_READ: u8 = 0x20;

/// Command: write one sector.
pub const IDE_CMD_WRITE: u8 = 0x30;

/// Polls of the status port before a device is declared dead.
pub const IDE_MAX_POLLS: u32 = 1000000;

/// The IDE controller, driven over the port abstraction it owns.
pub struct Ide<P: PortIo> {
    pub io: P,
    pub busy: bool,
}

impl<P: PortIo> Ide<P> {
    /// Take the port access and stand ready.
    pub fn init(io: P) -> (r: Ide<P>)
        ensures
            !r.busy,
    {
        Ide { io, busy: false }
    }

    /// Select the device and sector of the next one-sector transfer.
    fn ide_cmd(&mut self, device: u32, sector: u32) {
        self.io.outb(0x1f2, 1);  // one sector per command
        self.io.outb(0x1f3, (sector & 0xff) as u8);
        self.io.outb(0x1f4, ((sector >> 8) & 0xff) as u8);
        self.io.outb(0x1f5, ((sector >> 16) & 0xff) as u8);
        self.io.outb(0x1f6, 0xe0 | (((device & 0x1) as u8) << 4) | (((sector >> 24) & 0x0f) as u8));
    }

    /// Poll the device until it reports ready, a fault, or the poll
    /// budget runs out.
    fn wait(&mut self) -> Result<(), DiskError> {
        let mut polls: u32 = 0;
        while polls < IDE_MAX_POLLS
            invariant
                polls <= IDE_MAX_POLLS,
            decreases IDE_MAX_POLLS - polls,
        {
            let r = self.io.inb(0x1f7);
            if (r & (IDE_BSY | IDE_DRDY)) == IDE_DRDY {
                if r & (IDE_DF | IDE_ERR) == 0 {
                    return Ok(());
                } else {
                    return Err(DiskError::IoError);
                }
            }
            polls = polls + 1;
        }
        Err(DiskError::IoError)
    }

    /// Pull one sector out of the data port.
    fn read_sector(&mut self, buffer: &mut Vec<u8>)
        requires
            old(buffer)@.len() == BLOCKSIZE,
        ensures
            final(buffer)@.len() == BLOCKSIZE,
    {
        let mut i: usize = 0;
        while i < BLOCKSIZE / 4
            invariant
                i <= BLOCKSIZE / 4,
                buffer@.len() == BLOCKSIZE,
            decreases BLOCKSIZE / 4 - i,
        {
            let w = self.io.inl(0x1f0);
            put_u32(buffer, i * 4, w);
            i = i + 1;
        }
    }

    /// Push one sector into the data port.
    fn write_sector(&mut self, buffer: &Vec<u8>)
        requires
            buffer@.len() == BLOCKSIZE,
    {
        let mut i: usize = 0;
        while i < BLOCKSIZE / 4
            invariant
                i <= BLOCKSIZE / 4,
                buffer@.len() == BLOCKSIZE,
            decreases BLOCKSIZE / 4 - i,
        {
            let w = get_u32(buffer, i * 4);
            self.io.outl(0x1f0, w);
            i = i + 1;
        }
    }
}

impl<P: PortIo> Disk for Ide<P> {
    /// Read one sector into the buffer.
    fn read(&mut self, buffer: &mut Vec<u8>, device: u32, sector: u32) -> (r: Result<
        (),
        DiskError,
    >) {
        self.busy = true;
        match self.wait() {
            Ok(_) => {},
            Err(e) => {
                self.busy = false;
                return Err(e);
            },
        }
        self.ide_cmd(device, sector);
        self.io.outb(0x1f7, IDE_CMD_READ);
        match self.wait() {
            Ok(_) => {},
            Err(e) => {
                self.busy = false;
                return Err(e);
            },
        }
        self.read_sector(buffer);
        self.busy = false;
        Ok(())
    }

    /// Write the buffer at the start of one sector; a short buffer
    /// leaves the rest of the sector as the device last had it.
    fn write(&mut self, buffer: &Vec<u8>, device: u32, sector: u32) -> (r: Result<
        usize,
        DiskError,
    >) {
        self.busy = true;
        let mut sector_buf = zero_block();
        if buffer.len() < BLOCKSIZE {
            // Keep the tail of the sector: read it back first.
            match self.read(&mut sector_buf, device, sector) {
                Ok(_) => {},
                Err(e) => {
                    self.busy = false;
                    return Err(e);
                },
            }
        }
        let n = buffer.len();
        let mut i: usize = 0;
        while i < n
            invariant
                n == buffer@.len(),
                n <= BLOCKSIZE,
                i <= n,
                sector_buf@.len() == BLOCKSIZE,
            decreases n - i,
        {
            let byte = buffer[i];
            sector_buf.set(i, byte);
            i = i + 1;
        }
        match self.wait() {
            Ok(_) => {},
            Err(e) => {
                self.busy = false;
                return Err(e);
            },
        }
        self.ide_cmd(device, sector);
        self.io.outb(0x1f7, IDE_CMD_WRITE);
        self.write_sector(&sector_buf);
        match self.wait() {
            Ok(_) => {},
            Err(e) => {
                self.busy = false;
                return Err(e);
            },
        }
        self.busy = false;
        Ok(n)
    }

    /// Bytes per sector.
    fn sector_size() -> (r: usize) {
        SECTOR_SIZE
    }
}

} // verus!
