//! The layout of an ELF executable, as the loader reads it.

use vstd::prelude::*;
use crate::fs::{get_u16, get_u32, spec_u16_le, spec_u32_le};

verus! {

/// "\x7FELF", little-endian.
pub const ELF_MAGIC: u32 = 0x464C457F;

/// Bytes of the file header.
pub const ELF_HEADER_SIZE: usize = 52;

/// Bytes of one program header.
pub const ELF_PROG_HEADER_SIZE: usize = 32;

/// Program header type: a loadable segment.
pub const ELF_PROG_LOAD: u8 = 1;

/// Program header flag: executable.
pub const ELF_PROG_FLAG_EXEC: u8 = 1;

/// Program header flag: writable.
pub const ELF_PROG_FLAG_WRITE: u8 = 2;

/// Program header flag: readable.
pub const ELF_PROG_FLAG_READ: u8 = 4;

/// The file header of an executable.
pub struct Header {
    pub magic: u32,
    pub elf: Vec<u8>,
    pub etype: u16,
    pub machine: u16,
    pub version: u32,
    pub entry: u32,
    pub phoff: u32,
    pub shoff: u32,
    pub flags: u32,
    pub ehsize: u16,
    pub phentsize: u16,
    pub phnum: u16,
    pub shentsize: u16,
    pub shnum: u16,
    pub shstrndx: u16,
}

/// One program section header.
pub struct ProgramHeader {
    pub ptype: u32,
    pub off: u32,
    pub vaddr: u32,
    pub paddr: u32,
    pub filesz: u32,
    pub memsz: u32,
    pub flags: u32,
    pub align: u32,
}

/// Unmarshal the file header, when its magic marks an ELF image.
pub fn parse_header(b: &Vec<u8>) -> (r: Option<Header>)
    requires
        ELF_HEADER_SIZE <= b@.len(),
    ensures
        spec_u32_le(b@, 0) != ELF_MAGIC ==> r is None,
        spec_u32_le(b@, 0) == ELF_MAGIC ==> (r matches Some(h) && {
            &&& h.magic == ELF_MAGIC
            &&& h.etype == spec_u16_le(b@, 16)
            &&& h.machine == spec_u16_le(b@, 18)
            &&& h.version == spec_u32_le(b@, 20)
            &&& h.entry == spec_u32_le(b@, 24)
            &&& h.phoff == spec_u32_le(b@, 28)
            &&& h.shoff == spec_u32_le(b@, 32)
            &&& h.flags == spec_u32_le(b@, 36)
            &&& h.ehsize == spec_u16_le(b@, 40)
            &&& h.phentsize == spec_u16_le(b@, 42)
            &&& h.phnum == spec_u16_le(b@, 44)
            &&& h.shentsize == spec_u16_le(b@, 46)
            &&& h.shnum == spec_u16_le(b@, 48)
            &&& h.shstrndx == spec_u16_le(b@, 50)
        }),
{
    let magic = get_u32(b, 0);
    if magic != ELF_MAGIC {
        return None;
    }
    let mut elf: Vec<u8> = Vec::new();
    let mut i: usize = 0;
    while i < 12
        invariant
            i <= 12,
            ELF_HEADER_SIZE <= b@.len(),
            elf@.len() == i,
        decreases 12 - i,
    {
        elf.push(b[4 + i]);
        i = i + 1;
    }
    Some(
        Header {
            magic,
            elf,
            etype: get_u16(b, 16),
            machine: get_u16(b, 18),
            version: get_u32(b, 20),
            entry: get_u32(b, 24),
            phoff: get_u32(b, 28),
            shoff: get_u32(b, 32),
            flags: get_u32(b, 36),
            ehsize: get_u16(b, 40),
            phentsize: get_u16(b, 42),
            phnum: get_u16(b, 44),
            shentsize: get_u16(b, 46),
            shnum: get_u16(b, 48),
            shstrndx: get_u16(b, 50),
        },
    )
}

/// Unmarshal one program header at `off`.
pub fn parse_program_header(b: &Vec<u8>, off: usize) -> (r: ProgramHeader)
    requires
        off + ELF_PROG_HEADER_SIZE <= b@.len(),
    ensures
        r.ptype == spec_u32_le(b@, off as int),
        r.off == spec_u32_le(b@, off as int + 4),
        r.vaddr == spec_u32_le(b@, off as int + 8),
        r.paddr == spec_u32_le(b@, off as int + 12),
        r.filesz == spec_u32_le(b@, off as int + 16),
        r.memsz == spec_u32_le(b@, off as int + 20),
        r.flags == spec_u32_le(b@, off as int + 24),
        r.align == spec_u32_le(b@, off as int + 28),
{
    let n = b.len();
    proof {
        assert(off + ELF_PROG_HEADER_SIZE <= n);
    }
    ProgramHeader {
        ptype: get_u32(b, off),
        off: get_u32(b, off + 4),
        vaddr: get_u32(b, off + 8),
        paddr: get_u32(b, off + 12),
        filesz: get_u32(b, off + 16),
        memsz: get_u32(b, off + 20),
        flags: get_u32(b, off + 24),
        align: get_u32(b, off + 28),
    }
}

} // verus!
