//! The IDE driver over a simulated device.

use cofflos::fs::{Disk, DiskError, BLOCKSIZE};
use cofflos::ide::Ide;
use cofflos::portio::PortIo;

/// A one-drive IDE device: sector registers, a data port, and a backing
/// store of sectors.
struct FakeDrive {
    sectors: Vec<[u8; BLOCKSIZE]>,
    sector_reg: [u8; 4],
    data: Vec<u8>,
    mode_write: bool,
    alive: bool,
}

impl FakeDrive {
    fn new(n: usize) -> FakeDrive {
        FakeDrive {
            sectors: vec![[0u8; BLOCKSIZE]; n],
            sector_reg: [0; 4],
            data: Vec::new(),
            mode_write: false,
            alive: true,
        }
    }

    fn selected(&self) -> usize {
        (self.sector_reg[0] as usize)
            | ((self.sector_reg[1] as usize) << 8)
            | ((self.sector_reg[2] as usize) << 16)
            | (((self.sector_reg[3] & 0x0f) as usize) << 24)
    }
}

impl PortIo for FakeDrive {
    fn inb(&mut self, port: u16) -> u8 {
        if port == 0x1f7 {
            if self.alive {
                0x40 // ready
            } else {
                0x41 // ready with error
            }
        } else {
            0
        }
    }
    fn outb(&mut self, port: u16, val: u8) {
        match port {
            0x1f3 => self.sector_reg[0] = val,
            0x1f4 => self.sector_reg[1] = val,
            0x1f5 => self.sector_reg[2] = val,
            0x1f6 => self.sector_reg[3] = val,
            0x1f7 => {
                if val == 0x20 {
                    // read command: queue the sector bytes
                    let s = self.selected();
                    self.data = self.sectors[s].to_vec();
                    self.mode_write = false;
                } else if val == 0x30 {
                    self.data = Vec::new();
                    self.mode_write = true;
                }
            }
            _ => {}
        }
    }
    fn inw(&mut self, _port: u16) -> u16 {
        0
    }
    fn outw(&mut self, _port: u16, _val: u16) {}
    fn inl(&mut self, port: u16) -> u32 {
        if port == 0x1f0 && self.data.len() >= 4 {
            let b: Vec<u8> = self.data.drain(..4).collect();
            u32::from_le_bytes([b[0], b[1], b[2], b[3]])
        } else {
            0
        }
    }
    fn outl(&mut self, port: u16, val: u32) {
        if port == 0x1f0 && self.mode_write {
            self.data.extend_from_slice(&val.to_le_bytes());
            if self.data.len() == BLOCKSIZE {
                let s = self.selected();
                self.sectors[s].copy_from_slice(&self.data);
            }
        }
    }
}

#[test]
fn a_written_sector_reads_back() {
    let mut ide = Ide::init(FakeDrive::new(16));
    let payload: Vec<u8> = (0..BLOCKSIZE).map(|i| (i % 199) as u8).collect();
    let n = ide.write(&payload, 0, 5).unwrap();
    assert_eq!(n, BLOCKSIZE);
    let mut back = vec![0u8; BLOCKSIZE];
    ide.read(&mut back, 0, 5).unwrap();
    assert_eq!(back, payload);
}

#[test]
fn a_short_write_keeps_the_sector_tail() {
    let mut ide = Ide::init(FakeDrive::new(16));
    let full: Vec<u8> = vec![0xAA; BLOCKSIZE];
    ide.write(&full, 0, 3).unwrap();
    let n = ide.write(&vec![0x55; 8], 0, 3).unwrap();
    assert_eq!(n, 8);
    let mut back = vec![0u8; BLOCKSIZE];
    ide.read(&mut back, 0, 3).unwrap();
    assert_eq!(&back[..8], &[0x55; 8]);
    assert_eq!(&back[8..], &vec![0xAA; BLOCKSIZE - 8][..]);
}

#[test]
fn a_faulting_drive_reports_io_errors() {
    let mut drive = FakeDrive::new(4);
    drive.alive = false;
    let mut ide = Ide::init(drive);
    let mut buf = vec![0u8; BLOCKSIZE];
    assert_eq!(ide.read(&mut buf, 0, 0), Err(DiskError::IoError));
    assert_eq!(ide.write(&buf, 0, 0), Err(DiskError::IoError));
}

#[test]
fn sector_size_is_one_block() {
    assert_eq!(<Ide<FakeDrive> as Disk>::sector_size(), BLOCKSIZE);
}
