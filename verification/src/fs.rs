//! The on-disk filesystem.
//!
//! A block-addressed layout: one superblock, a fixed table of inodes (one
//! per block), and data blocks chained through free-list blocks. All
//! marshalling between structures and block bytes is little-endian and
//! proved exact; the disk itself sits behind the [`Disk`] trait, so every
//! routine here is verified for whatever a device returns.

use vstd::prelude::*;

verus! {

/// Direct block addresses per inode.
pub const NDIRECT: usize = 64;

/// Indirect blocks per inode (none in this layout).
pub const NINDIRECT: usize = 0;

/// Block addresses per indirect block.
pub const INDIRECT_PER_BLOCK: usize = BLOCKSIZE / BLOCKADDR_SIZE;

/// Largest file, in blocks.
pub const MAXFILE: usize = NDIRECT + INDIRECT_PER_BLOCK * NINDIRECT;

/// Bytes per block.
pub const BLOCKSIZE: usize = 512;

/// Inode number of the root directory.
pub const ROOT_INUM: u32 = 0;

/// Device number of the root filesystem.
pub const ROOT_DEV: u32 = 1;

/// Bytes of one block address.
pub const BLOCKADDR_SIZE: usize = 4;

/// Bytes of one marshalled inode.
pub const INODE_SIZE: usize = 270;

/// Inodes in the fixed table.
pub const NUM_INODES: u32 = 256;

/// Bytes of a directory entry's name field.
pub const DIRNAME_SIZE: usize = 254;

/// Bytes of one marshalled directory entry.
pub const DIRENT_SIZE: usize = 258;

/// Block number of the superblock.
pub const SUPERBLOCK_ADDR: u32 = 0;

/// Block address that marks an absent block.
pub const UNUSED_BLOCKADDR: u32 = 0;

/// Inode number that marks an empty directory slot.
pub const UNUSED_INUM: u32 = 0xffff_ffff;

/// What a disk can answer.
#[derive(Clone, Copy, PartialEq, Eq, Structural, Debug)]
pub enum DiskError {
    IoError,
}

/// Everything a filesystem call can report.
#[derive(Clone, Copy, PartialEq, Eq, Structural, Debug)]
pub enum FsError {
    ExhaustedBlocks,
    ExhaustedInodes,
    NotDir,
    EOF,
    EntryExists,
    NotFound,
    ReadTooLarge,
    WriteTooLarge,
    BlockNotMapped(u32),
    TypeMismatch,
    DiskFault(DiskError),
}

impl core::convert::From<DiskError> for FsError {
    fn from(e: DiskError) -> (r: FsError) {
        FsError::DiskFault(e)
    }
}

impl vstd::std_specs::convert::FromSpecImpl<DiskError> for FsError {
    open spec fn obeys_from_spec() -> bool {
        true
    }

    open spec fn from_spec(e: DiskError) -> FsError {
        FsError::DiskFault(e)
    }
}

/// A block device: 512-byte sectors read and written whole (writes may
/// carry fewer bytes; the device pads with what a read-modify-write saw).
pub trait Disk {
    /// Fill `buffer` with sector `sector` of device `device`.
    fn read(&mut self, buffer: &mut Vec<u8>, device: u32, sector: u32) -> (r: Result<
        (),
        DiskError,
    >)
        requires
            old(buffer)@.len() == BLOCKSIZE,
        ensures
            final(buffer)@.len() == BLOCKSIZE;

    /// Write `buffer` at the start of sector `sector` of device
    /// `device`; the whole buffer is written on success.
    fn write(&mut self, buffer: &Vec<u8>, device: u32, sector: u32) -> (r: Result<
        usize,
        DiskError,
    >)
        requires
            buffer@.len() <= BLOCKSIZE,
        ensures
            r matches Ok(n) ==> n == buffer@.len();

    /// Bytes per sector.
    fn sector_size() -> (r: usize)
        ensures
            r == BLOCKSIZE;
}

/// The little-endian 32-bit value stored at `off`.
pub open spec fn spec_u32_le(b: Seq<u8>, off: int) -> u32 {
    (b[off] + b[off + 1] * 0x100 + b[off + 2] * 0x1_0000 + b[off + 3] * 0x100_0000) as u32
}

/// The little-endian 16-bit value stored at `off`.
pub open spec fn spec_u16_le(b: Seq<u8>, off: int) -> u16 {
    (b[off] + b[off + 1] * 0x100) as u16
}

/// Read the little-endian 32-bit value at `off`.
pub fn get_u32(b: &Vec<u8>, off: usize) -> (r: u32)
    requires
        off + 4 <= b@.len(),
    ensures
        r == spec_u32_le(b@, off as int),
{
    let n = b.len();
    proof {
        assert(off + 4 <= n);
    }
    (b[off] as u32) + (b[off + 1] as u32) * 0x100 + (b[off + 2] as u32) * 0x1_0000 + (b[off
        + 3] as u32) * 0x100_0000
}

/// Read the little-endian 16-bit value at `off`.
pub fn get_u16(b: &Vec<u8>, off: usize) -> (r: u16)
    requires
        off + 2 <= b@.len(),
    ensures
        r == spec_u16_le(b@, off as int),
{
    let n = b.len();
    proof {
        assert(off + 2 <= n);
    }
    (b[off] as u16) + (b[off + 1] as u16) * 0x100
}

/// The base-256 digits of a 32-bit value rebuild it.
proof fn lemma_u32_digits(v: u32)
    ensures
        (v % 0x100) + ((v / 0x100) % 0x100) * 0x100 + ((v / 0x1_0000) % 0x100) * 0x1_0000 + ((v
            / 0x100_0000) % 0x100) * 0x100_0000 == v,
        v % 0x100 < 0x100,
        (v / 0x100) % 0x100 < 0x100,
        (v / 0x1_0000) % 0x100 < 0x100,
        (v / 0x100_0000) % 0x100 < 0x100,
{
    assert((v % 0x100) + ((v / 0x100) % 0x100) * 0x100 + ((v / 0x1_0000) % 0x100) * 0x1_0000 + ((v
        / 0x100_0000) % 0x100) * 0x100_0000 == v) by (bit_vector);
}

/// The base-256 digits of a 16-bit value rebuild it.
proof fn lemma_u16_digits(v: u16)
    ensures
        (v % 0x100) + ((v / 0x100) % 0x100) * 0x100 == v,
        v % 0x100 < 0x100,
        (v / 0x100) % 0x100 < 0x100,
{
    assert((v % 0x100) + ((v / 0x100) % 0x100) * 0x100 == v) by (bit_vector);
}

/// Store `v` little-endian at `off`.
pub fn put_u32(b: &mut Vec<u8>, off: usize, v: u32)
    requires
        off + 4 <= old(b)@.len(),
    ensures
        final(b)@.len() == old(b)@.len(),
        spec_u32_le(final(b)@, off as int) == v,
        forall|i: int| 0 <= i < old(b)@.len() && !(off <= i < off + 4) ==> final(b)@[i] == old(b)@[i],
{
    let n = b.len();
    proof {
        lemma_u32_digits(v);
        assert(off + 4 <= n);
    }
    b.set(off, (v % 0x100) as u8);
    b.set(off + 1, ((v / 0x100) % 0x100) as u8);
    b.set(off + 2, ((v / 0x1_0000) % 0x100) as u8);
    b.set(off + 3, ((v / 0x100_0000) % 0x100) as u8);
}

/// Store `v` little-endian at `off`.
pub fn put_u16(b: &mut Vec<u8>, off: usize, v: u16)
    requires
        off + 2 <= old(b)@.len(),
    ensures
        final(b)@.len() == old(b)@.len(),
        spec_u16_le(final(b)@, off as int) == v,
        forall|i: int| 0 <= i < old(b)@.len() && !(off <= i < off + 2) ==> final(b)@[i] == old(b)@[i],
{
    let n = b.len();
    proof {
        lemma_u16_digits(v);
        assert(off + 2 <= n);
    }
    b.set(off, (v % 0x100) as u8);
    b.set(off + 1, ((v / 0x100) % 0x100) as u8);
}

/// A fresh all-zero buffer of `n` bytes.
pub fn zero_vec(n: usize) -> (r: Vec<u8>)
    ensures
        r@.len() == n,
        forall|i: int| 0 <= i < r@.len() ==> r@[i] == 0,
{
    let mut b: Vec<u8> = Vec::new();
    let mut i: usize = 0;
    while i < n
        invariant
            i <= n,
            b@.len() == i,
            forall|j: int| 0 <= j < i ==> b@[j] == 0,
        decreases n - i,
    {
        b.push(0);
        i = i + 1;
    }
    b
}

/// A fresh all-zero block buffer.
pub fn zero_block() -> (r: Vec<u8>)
    ensures
        r@.len() == BLOCKSIZE,
        forall|i: int| 0 <= i < r@.len() ==> r@[i] == 0,
{
    zero_vec(BLOCKSIZE)
}

/// The filesystem's summary block.
#[derive(Clone, Copy, PartialEq, Eq, Structural, Debug)]
pub struct SuperBlock {
    pub size: u32,
    pub nblocks: u32,
    pub ninodes: u32,
    pub inode_start: u32,
    pub freelist_start: u32,
}

/// The superblock stored in a block's first twenty bytes.
pub open spec fn spec_superblock(b: Seq<u8>) -> SuperBlock {
    SuperBlock {
        size: spec_u32_le(b, 0),
        nblocks: spec_u32_le(b, 4),
        ninodes: spec_u32_le(b, 8),
        inode_start: spec_u32_le(b, 12),
        freelist_start: spec_u32_le(b, 16),
    }
}

/// Unmarshal the superblock from a block buffer.
pub fn decode_superblock(b: &Vec<u8>) -> (r: SuperBlock)
    requires
        b@.len() == BLOCKSIZE,
    ensures
        r == spec_superblock(b@),
{
    SuperBlock {
        size: get_u32(b, 0),
        nblocks: get_u32(b, 4),
        ninodes: get_u32(b, 8),
        inode_start: get_u32(b, 12),
        freelist_start: get_u32(b, 16),
    }
}

/// Marshal the superblock into the first twenty bytes of a buffer.
pub fn encode_superblock(sb: &SuperBlock, b: &mut Vec<u8>)
    requires
        old(b)@.len() == BLOCKSIZE,
    ensures
        final(b)@.len() == BLOCKSIZE,
        spec_superblock(final(b)@) == *sb,
{
    put_u32(b, 0, sb.size);
    put_u32(b, 4, sb.nblocks);
    put_u32(b, 8, sb.ninodes);
    put_u32(b, 12, sb.inode_start);
    put_u32(b, 16, sb.freelist_start);
}

/// What an inode stands for.
#[derive(Clone, Copy, PartialEq, Eq, Structural, Debug)]
pub enum InodeType {
    Unused,
    File,
    Directory,
}

/// The on-disk code of an inode type.
pub open spec fn spec_type_code(t: InodeType) -> u16 {
    match t {
        InodeType::Unused => 0,
        InodeType::File => 1,
        InodeType::Directory => 2,
    }
}

/// The inode type behind an on-disk code; unknown codes read as unused.
pub open spec fn spec_type_of(c: u16) -> InodeType {
    if c == 1 {
        InodeType::File
    } else if c == 2 {
        InodeType::Directory
    } else {
        InodeType::Unused
    }
}

/// One file or directory: its kind, owner device, size in bytes, and the
/// table of direct block addresses.
#[derive(Clone, Debug)]
pub struct Inode {
    pub type_: InodeType,
    pub device: u32,
    pub major: u16,
    pub minor: u16,
    pub size: u32,
    pub blocks: Vec<u32>,
}

impl Inode {
    /// A valid inode carries exactly `NDIRECT` block addresses.
    pub open spec fn wf(&self) -> bool {
        self.blocks@.len() == NDIRECT
    }
}

/// An inode that marks a free slot in the inode table.
pub fn unused_inode() -> (r: Inode)
    ensures
        r.wf(),
        r.type_ == InodeType::Unused,
        r.device == 0,
        r.major == 0,
        r.minor == 0,
        r.size == 0,
        forall|i: int| 0 <= i < r.blocks@.len() ==> r.blocks@[i] == 0,
{
    let mut blocks: Vec<u32> = Vec::new();
    let mut i: usize = 0;
    while i < NDIRECT
        invariant
            i <= NDIRECT,
            blocks@.len() == i,
            forall|j: int| 0 <= j < i ==> blocks@[j] == 0,
        decreases NDIRECT - i,
    {
        blocks.push(0);
        i = i + 1;
    }
    Inode { type_: InodeType::Unused, device: 0, major: 0, minor: 0, size: 0, blocks }
}

/// The block address table stored in an inode block.
pub open spec fn spec_inode_blocks(b: Seq<u8>) -> Seq<u32> {
    Seq::new(NDIRECT as nat, |i: int| spec_u32_le(b, 14 + 4 * i))
}

/// Unmarshal the inode stored at the start of a block.
pub fn decode_inode(b: &Vec<u8>) -> (r: Inode)
    requires
        b@.len() == BLOCKSIZE,
    ensures
        r.wf(),
        r.type_ == spec_type_of(spec_u16_le(b@, 0)),
        r.major == spec_u16_le(b@, 2),
        r.minor == spec_u16_le(b@, 4),
        r.device == spec_u32_le(b@, 6),
        r.size == spec_u32_le(b@, 10),
        r.blocks@ =~= spec_inode_blocks(b@),
{
    let code = get_u16(b, 0);
    let type_ = if code == 1 {
        InodeType::File
    } else if code == 2 {
        InodeType::Directory
    } else {
        InodeType::Unused
    };
    let major = get_u16(b, 2);
    let minor = get_u16(b, 4);
    let device = get_u32(b, 6);
    let size = get_u32(b, 10);
    let mut blocks: Vec<u32> = Vec::new();
    let mut i: usize = 0;
    while i < NDIRECT
        invariant
            i <= NDIRECT,
            b@.len() == BLOCKSIZE,
            blocks@.len() == i,
            forall|j: int| 0 <= j < i ==> blocks@[j] == spec_u32_le(b@, 14 + 4 * j),
        decreases NDIRECT - i,
    {
        blocks.push(get_u32(b, 14 + 4 * i));
        i = i + 1;
    }
    Inode { type_, device, major, minor, size, blocks }
}

/// Marshal an inode into the start of a block buffer; the bytes past the
/// inode stay as they were.
pub fn encode_inode(inode: &Inode, b: &mut Vec<u8>)
    requires
        inode.wf(),
        old(b)@.len() == BLOCKSIZE,
    ensures
        final(b)@.len() == BLOCKSIZE,
        spec_type_of(spec_u16_le(final(b)@, 0)) == inode.type_,
        spec_u16_le(final(b)@, 2) == inode.major,
        spec_u16_le(final(b)@, 4) == inode.minor,
        spec_u32_le(final(b)@, 6) == inode.device,
        spec_u32_le(final(b)@, 10) == inode.size,
        spec_inode_blocks(final(b)@) =~= inode.blocks@,
{
    let code: u16 = match inode.type_ {
        InodeType::Unused => 0,
        InodeType::File => 1,
        InodeType::Directory => 2,
    };
    put_u16(b, 0, code);
    put_u16(b, 2, inode.major);
    put_u16(b, 4, inode.minor);
    put_u32(b, 6, inode.device);
    put_u32(b, 10, inode.size);
    let mut i: usize = 0;
    while i < NDIRECT
        invariant
            inode.wf(),
            b@.len() == BLOCKSIZE,
            i <= NDIRECT,
            spec_u16_le(b@, 0) == code,
            spec_u16_le(b@, 2) == inode.major,
            spec_u16_le(b@, 4) == inode.minor,
            spec_u32_le(b@, 6) == inode.device,
            spec_u32_le(b@, 10) == inode.size,
            forall|j: int| 0 <= j < i ==> spec_u32_le(b@, 14 + 4 * j) == inode.blocks@[j],
        decreases NDIRECT - i,
    {
        let ghost before = b@;
        put_u32(b, 14 + 4 * i, inode.blocks[i]);
        proof {
            assert forall|j: int| 0 <= j < i + 1 implies spec_u32_le(b@, 14 + 4 * j)
                == inode.blocks@[j] by {
                if j < i {
                    assert(spec_u32_le(b@, 14 + 4 * j) == spec_u32_le(before, 14 + 4 * j));
                }
            }
            assert(spec_u16_le(b@, 0) == spec_u16_le(before, 0));
            assert(spec_u16_le(b@, 2) == spec_u16_le(before, 2));
            assert(spec_u16_le(b@, 4) == spec_u16_le(before, 4));
            assert(spec_u32_le(b@, 6) == spec_u32_le(before, 6));
            assert(spec_u32_le(b@, 10) == spec_u32_le(before, 10));
        }
        i = i + 1;
    }
    proof {
        assert(spec_type_of(spec_u16_le(b@, 0)) == inode.type_);
    }
}

/// One directory slot: an inode number and a NUL-padded name.
#[derive(Clone, Debug)]
pub struct DirEntry {
    pub inumber: u32,
    pub name: Vec<u8>,
}

impl DirEntry {
    /// A valid entry carries exactly `DIRNAME_SIZE` name bytes.
    pub open spec fn wf(&self) -> bool {
        self.name@.len() == DIRNAME_SIZE
    }
}

/// A directory as a name plus the inode it points at.
#[derive(Clone, Debug)]
pub struct Directory {
    pub inumber: u16,
    pub name: Vec<u8>,
}

/// Unmarshal the directory entry at the start of a buffer.
pub fn decode_dirent(b: &Vec<u8>) -> (r: DirEntry)
    requires
        DIRENT_SIZE <= b@.len(),
    ensures
        r.wf(),
        r.inumber == spec_u32_le(b@, 0),
        forall|i: int| 0 <= i < DIRNAME_SIZE ==> r.name@[i] == b@[4 + i],
{
    let inumber = get_u32(b, 0);
    let mut name: Vec<u8> = Vec::new();
    let mut i: usize = 0;
    while i < DIRNAME_SIZE
        invariant
            i <= DIRNAME_SIZE,
            DIRENT_SIZE <= b@.len(),
            name@.len() == i,
            forall|j: int| 0 <= j < i ==> name@[j] == b@[4 + j],
        decreases DIRNAME_SIZE - i,
    {
        name.push(b[4 + i]);
        i = i + 1;
    }
    DirEntry { inumber, name }
}

/// Marshal a directory entry into the start of a buffer.
pub fn encode_dirent(e: &DirEntry, b: &mut Vec<u8>)
    requires
        e.wf(),
        DIRENT_SIZE <= old(b)@.len(),
    ensures
        final(b)@.len() == old(b)@.len(),
        spec_u32_le(final(b)@, 0) == e.inumber,
        forall|i: int| 0 <= i < DIRNAME_SIZE ==> final(b)@[4 + i] == e.name@[i],
{
    put_u32(b, 0, e.inumber);
    let ghost after_num = b@;
    let mut i: usize = 0;
    while i < DIRNAME_SIZE
        invariant
            e.wf(),
            i <= DIRNAME_SIZE,
            b@.len() == after_num.len(),
            DIRENT_SIZE <= b@.len(),
            spec_u32_le(b@, 0) == e.inumber,
            forall|j: int| 0 <= j < i ==> b@[4 + j] == e.name@[j],
            spec_u32_le(after_num, 0) == e.inumber,
        decreases DIRNAME_SIZE - i,
    {
        let ghost before = b@;
        b.set(4 + i, e.name[i]);
        proof {
            assert(spec_u32_le(b@, 0) == spec_u32_le(before, 0));
        }
        i = i + 1;
    }
}

/// Index of the first NUL in a name, scanning from `i`; the full length
/// when there is none.
pub open spec fn first_zero(s: Seq<u8>, i: int) -> int
    decreases s.len() - i when 0 <= i <= s.len()
{
    if i < 0 || i >= s.len() {
        i
    } else if s[i] == 0 {
        i
    } else {
        first_zero(s, i + 1)
    }
}

/// The length of a NUL-padded name: everything before the first NUL.
pub fn entry_name_len(name: &Vec<u8>) -> (r: usize)
    ensures
        r == first_zero(name@, 0),
        r <= name@.len(),
{
    let mut i: usize = 0;
    while i < name.len()
        invariant
            i <= name@.len(),
            first_zero(name@, 0) == first_zero(name@, i as int),
            forall|j: int| 0 <= j < i ==> name@[j] != 0,
        decreases name@.len() - i,
    {
        if name[i] == 0 {
            return i;
        }
        i = i + 1;
    }
    i
}

/// Whether a NUL-padded entry name equals a sought name: same length up
/// to the first NUL, same bytes.
pub fn names_match(ename: &Vec<u8>, name: &Vec<u8>) -> (r: bool)
    requires
        name@.len() <= ename@.len(),
    ensures
        r == (first_zero(ename@, 0) == name@.len() && (forall|j: int|
            0 <= j < name@.len() ==> ename@[j] == name@[j])),
{
    let el = entry_name_len(ename);
    if el != name.len() {
        return false;
    }
    let mut i: usize = 0;
    while i < name.len()
        invariant
            i <= name@.len(),
            name@.len() <= ename@.len(),
            forall|j: int| 0 <= j < i ==> ename@[j] == name@[j],
        decreases name@.len() - i,
    {
        if ename[i] != name[i] {
            return false;
        }
        i = i + 1;
    }
    true
}

/// The filesystem over some block device.
pub struct FileSystem<T: Disk> {
    pub disk: T,
}

impl<T: Disk> FileSystem<T> {
    /// Wrap a device.
    pub fn new(driver: T) -> (r: FileSystem<T>)
        ensures
            r.disk == driver,
    {
        FileSystem { disk: driver }
    }

    /// Read and unmarshal the superblock. Every failure is the disk's.
    fn read_superblock(&mut self, device: u32) -> (r: Result<SuperBlock, FsError>)
        ensures
            r matches Err(e) ==> e is DiskFault,
    {
        let mut buf = zero_block();
        match self.disk.read(&mut buf, device, SUPERBLOCK_ADDR) {
            Ok(_) => Ok(decode_superblock(&buf)),
            Err(e) => Err(FsError::DiskFault(e)),
        }
    }

    /// Read inode `inum` from the table. A corrupt superblock whose
    /// table would run past the address space counts as an I/O fault.
    pub fn read_inode(&mut self, device: u32, inum: u32) -> (r: Result<Inode, FsError>)
        requires
            inum <= NUM_INODES,
        ensures
            r matches Ok(ino) ==> ino.wf(),
            r matches Err(e) ==> e is DiskFault,
    {
        let sb = match self.read_superblock(device) {
            Ok(sb) => sb,
            Err(e) => {
                return Err(e);
            },
        };
        if sb.inode_start > u32::MAX - inum {
            return Err(FsError::DiskFault(DiskError::IoError));
        }
        let mut buf = zero_block();
        match self.disk.read(&mut buf, device, sb.inode_start + inum) {
            Ok(_) => Ok(decode_inode(&buf)),
            Err(e) => Err(FsError::DiskFault(e)),
        }
    }

    /// Write inode `inum` back to the table, leaving the rest of its
    /// block as it was on disk.
    pub fn update_inode(&mut self, inum: u32, inode: &Inode) -> (r: Result<(), FsError>)
        requires
            inode.wf(),
            inum <= NUM_INODES,
        ensures
            r matches Err(e) ==> e is DiskFault,
    {
        let sb = match self.read_superblock(inode.device) {
            Ok(sb) => sb,
            Err(e) => {
                return Err(e);
            },
        };
        if sb.inode_start > u32::MAX - inum {
            return Err(FsError::DiskFault(DiskError::IoError));
        }
        let mut buf = zero_block();
        match self.disk.read(&mut buf, inode.device, sb.inode_start + inum) {
            Ok(_) => {},
            Err(e) => {
                return Err(FsError::DiskFault(e));
            },
        }
        encode_inode(inode, &mut buf);
        match self.disk.write(&buf, inode.device, sb.inode_start + inum) {
            Ok(_) => Ok(()),
            Err(e) => Err(FsError::DiskFault(e)),
        }
    }

    /// Put `inode` into the first unused slot of the table and hand back
    /// its inode number.
    pub fn alloc_inode(&mut self, device: u32, inode: Inode) -> (r: Result<u32, FsError>)
        requires
            inode.wf(),
            inode.type_ != InodeType::Unused,
        ensures
            r matches Ok(i) ==> i < NUM_INODES,
            r matches Err(e) ==> e is ExhaustedInodes || e is DiskFault,
    {
        let sb = match self.read_superblock(device) {
            Ok(sb) => sb,
            Err(e) => {
                return Err(e);
            },
        };
        if sb.inode_start > u32::MAX - NUM_INODES {
            return Err(FsError::DiskFault(DiskError::IoError));
        }
        let mut buf = zero_block();
        let mut i: u32 = 0;
        while i < NUM_INODES
            invariant
                i <= NUM_INODES,
                sb.inode_start <= u32::MAX - NUM_INODES,
                inode.wf(),
                buf@.len() == BLOCKSIZE,
            decreases NUM_INODES - i,
        {
            match self.disk.read(&mut buf, device, sb.inode_start + i) {
                Ok(_) => {},
                Err(e) => {
                    return Err(FsError::DiskFault(e));
                },
            }
            let slot = decode_inode(&buf);
            if matches!(slot.type_, InodeType::Unused) {
                encode_inode(&inode, &mut buf);
                match self.disk.write(&buf, device, sb.inode_start + i) {
                    Ok(_) => {
                        return Ok(i);
                    },
                    Err(e) => {
                        return Err(FsError::DiskFault(e));
                    },
                }
            }
            i = i + 1;
        }
        Err(FsError::ExhaustedInodes)
    }

    /// The disk block behind file block `blockno` of an inode, when one
    /// is mapped: exactly the table entry, and `BlockNotMapped` exactly
    /// when that entry is unused.
    pub fn bmap(&mut self, inode: &Inode, blockno: u32) -> (r: Result<u32, FsError>)
        requires
            inode.wf(),
            blockno < NDIRECT,
        ensures
            inode.blocks@[blockno as int] == UNUSED_BLOCKADDR ==> r == Err::<u32, FsError>(
                FsError::BlockNotMapped(blockno),
            ),
            inode.blocks@[blockno as int] != UNUSED_BLOCKADDR ==> r == Ok::<u32, FsError>(
                inode.blocks@[blockno as int],
            ),
    {
        let addr = inode.blocks[blockno as usize];
        if addr == UNUSED_BLOCKADDR {
            Err(FsError::BlockNotMapped(blockno))
        } else {
            Ok(addr)
        }
    }

    /// Like `bmap`, but allocate a fresh block for an unmapped entry and
    /// record it in the inode.
    pub fn bmap_or_alloc(&mut self, inode: &mut Inode, blockno: u32) -> (r: Result<u32, FsError>)
        requires
            old(inode).wf(),
            blockno < NDIRECT,
        ensures
            final(inode).wf(),
            final(inode).type_ == old(inode).type_,
            final(inode).device == old(inode).device,
            final(inode).size == old(inode).size,
            final(inode).major == old(inode).major,
            final(inode).minor == old(inode).minor,
            old(inode).blocks@[blockno as int] != UNUSED_BLOCKADDR ==> (*final(inode) == *old(
                inode,
            ) && r == Ok::<u32, FsError>(old(inode).blocks@[blockno as int])),
            r matches Ok(b) ==> final(inode).blocks@ == old(inode).blocks@.update(
                blockno as int,
                b,
            ) || final(inode).blocks@ == old(inode).blocks@,
            r matches Err(e) ==> (e is ExhaustedBlocks || e is DiskFault) && *final(inode)
                == *old(inode),
    {
        let addr = inode.blocks[blockno as usize];
        if addr == UNUSED_BLOCKADDR {
            let fresh = match self.alloc_block(inode.device) {
                Ok(b) => b,
                Err(e) => {
                    return Err(e);
                },
            };
            inode.blocks.set(blockno as usize, fresh);
            proof {
                assert(inode.blocks@ =~= old(inode).blocks@.update(blockno as int, fresh));
            }
            Ok(fresh)
        } else {
            proof {
                assert(inode.blocks@ =~= old(inode).blocks@.update(blockno as int, addr));
            }
            Ok(addr)
        }
    }

    /// Take one block off the free list: out of the head free-list
    /// block's last occupied slot, or the head block itself once its
    /// slots are empty. The fresh block comes back zeroed.
    pub fn alloc_block(&mut self, device: u32) -> (r: Result<u32, FsError>)
        ensures
            r matches Err(e) ==> e is ExhaustedBlocks || e is DiskFault,
    {
        let sb = match self.read_superblock(device) {
            Ok(sb) => sb,
            Err(e) => {
                return Err(e);
            },
        };
        let head_addr = sb.freelist_start;
        if head_addr == UNUSED_BLOCKADDR {
            return Err(FsError::ExhaustedBlocks);
        }
        let mut block = zero_block();
        match self.disk.read(&mut block, device, head_addr) {
            Ok(_) => {},
            Err(e) => {
                return Err(FsError::DiskFault(e));
            },
        }
        // The first slot chains to the next free-list block; scan the
        // rest from the high end for an occupied slot.
        let mut idx: usize = INDIRECT_PER_BLOCK - 1;
        while idx >= 1
            invariant
                idx <= INDIRECT_PER_BLOCK - 1,
                block@.len() == BLOCKSIZE,
            decreases idx,
        {
            let entry = get_u32(&block, idx * 4);
            if entry != UNUSED_BLOCKADDR {
                // Mark the slot free and hand its block out.
                put_u32(&mut block, idx * 4, UNUSED_BLOCKADDR);
                match self.disk.write(&block, device, head_addr) {
                    Ok(_) => {},
                    Err(e) => {
                        return Err(FsError::DiskFault(e));
                    },
                }
                let zeros = zero_block();
                match self.disk.write(&zeros, device, entry) {
                    Ok(_) => {},
                    Err(e) => {
                        return Err(FsError::DiskFault(e));
                    },
                }
                return Ok(entry);
            }
            idx = idx - 1;
        }
        // The head block itself is the allocation; its successor becomes
        // the new head.
        let new_head = get_u32(&block, 0);
        let mut sb_buf = zero_block();
        match self.disk.read(&mut sb_buf, device, SUPERBLOCK_ADDR) {
            Ok(_) => {},
            Err(e) => {
                return Err(FsError::DiskFault(e));
            },
        }
        let mut sb2 = decode_superblock(&sb_buf);
        sb2.freelist_start = new_head;
        encode_superblock(&sb2, &mut sb_buf);
        let zeros = zero_block();
        match self.disk.write(&zeros, device, head_addr) {
            Ok(_) => {},
            Err(e) => {
                return Err(FsError::DiskFault(e));
            },
        }
        match self.disk.write(&sb_buf, device, SUPERBLOCK_ADDR) {
            Ok(_) => {},
            Err(e) => {
                return Err(FsError::DiskFault(e));
            },
        }
        Ok(head_addr)
    }

    /// Chain a block back into the free list: into a free slot of the
    /// head free-list block, or as the new head when that block is full
    /// or the list is empty.
    pub fn free_block(&mut self, device: u32, blockno: u32) -> (r: Result<(), FsError>)
        ensures
            r matches Err(e) ==> e is DiskFault,
    {
        let mut sb_buf = zero_block();
        match self.disk.read(&mut sb_buf, device, SUPERBLOCK_ADDR) {
            Ok(_) => {},
            Err(e) => {
                return Err(FsError::DiskFault(e));
            },
        }
        let mut sb = decode_superblock(&sb_buf);
        let head_addr = sb.freelist_start;
        let mut buffer = zero_block();
        if head_addr == UNUSED_BLOCKADDR {
            // The list was empty: this block becomes its head, with
            // every slot free and no successor.
            sb.freelist_start = blockno;
            encode_superblock(&sb, &mut sb_buf);
            match self.disk.write(&sb_buf, device, SUPERBLOCK_ADDR) {
                Ok(_) => {},
                Err(e) => {
                    return Err(FsError::DiskFault(e));
                },
            }
            let mut i: usize = 0;
            while i < INDIRECT_PER_BLOCK
                invariant
                    i <= INDIRECT_PER_BLOCK,
                    buffer@.len() == BLOCKSIZE,
                decreases INDIRECT_PER_BLOCK - i,
            {
                put_u32(&mut buffer, i * 4, UNUSED_BLOCKADDR);
                i = i + 1;
            }
            match self.disk.write(&buffer, device, blockno) {
                Ok(_) => {},
                Err(e) => {
                    return Err(FsError::DiskFault(e));
                },
            }
            return Ok(());
        }
        match self.disk.read(&mut buffer, device, head_addr) {
            Ok(_) => {},
            Err(e) => {
                return Err(FsError::DiskFault(e));
            },
        }
        // Look for a free slot past the chain slot.
        let mut pos: usize = 0;
        let mut i: usize = 1;
        while i < INDIRECT_PER_BLOCK
            invariant
                1 <= i <= INDIRECT_PER_BLOCK,
                pos < INDIRECT_PER_BLOCK,
                buffer@.len() == BLOCKSIZE,
            decreases INDIRECT_PER_BLOCK - i,
        {
            if get_u32(&buffer, i * 4) == UNUSED_BLOCKADDR {
                pos = i;
                break;
            }
            i = i + 1;
        }
        if pos != 0 {
            // A free slot in the head block takes the address.
            put_u32(&mut buffer, pos * 4, blockno);
            match self.disk.write(&buffer, device, head_addr) {
                Ok(_) => {},
                Err(e) => {
                    return Err(FsError::DiskFault(e));
                },
            }
        } else {
            // The head block is full: this block becomes the new head,
            // chaining to the old one.
            sb.freelist_start = blockno;
            encode_superblock(&sb, &mut sb_buf);
            match self.disk.write(&sb_buf, device, SUPERBLOCK_ADDR) {
                Ok(_) => {},
                Err(e) => {
                    return Err(FsError::DiskFault(e));
                },
            }
            let mut j: usize = 1;
            while j < INDIRECT_PER_BLOCK
                invariant
                    1 <= j <= INDIRECT_PER_BLOCK,
                    buffer@.len() == BLOCKSIZE,
                decreases INDIRECT_PER_BLOCK - j,
            {
                put_u32(&mut buffer, j * 4, UNUSED_BLOCKADDR);
                j = j + 1;
            }
            put_u32(&mut buffer, 0, head_addr);
            match self.disk.write(&buffer, device, blockno) {
                Ok(_) => {},
                Err(e) => {
                    return Err(FsError::DiskFault(e));
                },
            }
        }
        Ok(())
    }
}

impl<T: Disk> FileSystem<T> {
    /// Read file bytes `[offset, offset + dst_buf.len())` of an inode
    /// into the front of `dst_buf`, stopping at the end of the file: on
    /// success exactly `min(dst_buf.len(), size - offset)` bytes were
    /// read. Reading past the end, or a span that overflows the offset
    /// arithmetic, is `ReadTooLarge`; a non-file is `TypeMismatch`.
    pub fn read(&mut self, inode: &Inode, dst_buf: &mut Vec<u8>, offset: u32) -> (r: Result<
        usize,
        FsError,
    >)
        requires
            inode.wf(),
            inode.size <= MAXFILE * BLOCKSIZE,
            old(dst_buf)@.len() <= u32::MAX,
        ensures
            final(dst_buf)@.len() == old(dst_buf)@.len(),
            inode.type_ is Unused ==> r == Err::<usize, FsError>(FsError::TypeMismatch),
            (inode.type_ is File || inode.type_ is Directory) ==> {
                let len = old(dst_buf)@.len() as int;
                if offset > inode.size || offset + len > u32::MAX {
                    r == Err::<usize, FsError>(FsError::ReadTooLarge)
                } else {
                    let n = if inode.size - offset < len {
                        inode.size - offset
                    } else {
                        len
                    };
                    &&& (r matches Ok(k) ==> k == n)
                    &&& (r matches Err(e) ==> e is BlockNotMapped || e is DiskFault)
                    &&& (n == 0 ==> r == Ok::<usize, FsError>(0))
                }
            },
    {
        match inode.type_ {
            InodeType::File | InodeType::Directory => {},
            _ => {
                return Err(FsError::TypeMismatch);
            },
        }
        let len_usize = dst_buf.len();
        let len32 = len_usize as u32;
        if offset > inode.size || (offset as u64) + (len32 as u64) > u32::MAX as u64 {
            return Err(FsError::ReadTooLarge);
        }
        let n: u32 = if inode.size - offset < len32 {
            inode.size - offset
        } else {
            len32
        };
        let mut tmp = zero_block();
        let mut cursor: u32 = 0;
        #[verifier::loop_isolation(false)]
        while cursor < n
            invariant
                cursor <= n,
                dst_buf@.len() == old(dst_buf)@.len(),
                tmp@.len() == BLOCKSIZE,
            decreases n - cursor,
        {
            proof {
                assert(((offset + cursor) as int) / 512 < 64) by (nonlinear_arith)
                    requires ((offset + cursor) as int) < 32768;
            }
            let bn = (offset + cursor) / (BLOCKSIZE as u32);
            let addr = match self.bmap(inode, bn) {
                Ok(a) => a,
                Err(e) => {
                    return Err(e);
                },
            };
            match self.disk.read(&mut tmp, inode.device, addr) {
                Ok(_) => {},
                Err(e) => {
                    return Err(FsError::DiskFault(e));
                },
            }
            let block_off = ((offset + cursor) % (BLOCKSIZE as u32)) as usize;
            let mut chunk: usize = BLOCKSIZE - block_off;
            let remaining = (n - cursor) as usize;
            if remaining < chunk {
                chunk = remaining;
            }
            let mut j: usize = 0;
            while j < chunk
                invariant
                    j <= chunk,
                    chunk <= BLOCKSIZE - block_off,
                    cursor + chunk <= n,
                    n <= dst_buf@.len(),
                    dst_buf@.len() == old(dst_buf)@.len(),
                    tmp@.len() == BLOCKSIZE,
                decreases chunk - j,
            {
                let byte = tmp[block_off + j];
                dst_buf.set(cursor as usize + j, byte);
                j = j + 1;
            }
            cursor = cursor + chunk as u32;
        }
        Ok(n as usize)
    }

    /// Write `src_buf` at file bytes `[offset, offset + src_buf.len())`
    /// of an inode, allocating blocks as needed and growing the file's
    /// size when the span ends past it. Writing from beyond the current
    /// end, overflowing the offset arithmetic, or ending past the
    /// largest representable file is `WriteTooLarge`; a non-file is
    /// `TypeMismatch`.
    pub fn write(&mut self, inode: &mut Inode, src_buf: &Vec<u8>, offset: u32) -> (r: Result<
        usize,
        FsError,
    >)
        requires
            old(inode).wf(),
            src_buf@.len() <= u32::MAX,
        ensures
            final(inode).wf(),
            final(inode).type_ == old(inode).type_,
            final(inode).device == old(inode).device,
            old(inode).type_ is Unused ==> r == Err::<usize, FsError>(FsError::TypeMismatch)
                && *final(inode) == *old(inode),
            (old(inode).type_ is File || old(inode).type_ is Directory) ==> {
                let len = src_buf@.len() as int;
                if offset + len > u32::MAX || offset > old(inode).size {
                    r == Err::<usize, FsError>(FsError::WriteTooLarge) && *final(inode) == *old(inode)
                } else if offset + len > MAXFILE * BLOCKSIZE {
                    r == Err::<usize, FsError>(FsError::WriteTooLarge) && *final(inode) == *old(inode)
                } else {
                    &&& (r matches Ok(k) ==> {
                        &&& k == len
                        &&& final(inode).size == (if offset + len > old(inode).size {
                            offset + len
                        } else {
                            old(inode).size as int
                        })
                    })
                    &&& (r matches Err(e) ==> (e is ExhaustedBlocks || e is DiskFault) && final(inode).size == old(inode).size)
                    &&& (len == 0 ==> r == Ok::<usize, FsError>(0))
                }
            },
    {
        match inode.type_ {
            InodeType::File | InodeType::Directory => {},
            _ => {
                return Err(FsError::TypeMismatch);
            },
        }
        let len_usize = src_buf.len();
        let len32 = len_usize as u32;
        if (offset as u64) + (len32 as u64) > u32::MAX as u64 || offset > inode.size {
            return Err(FsError::WriteTooLarge);
        }
        if offset + len32 > (MAXFILE * BLOCKSIZE) as u32 {
            return Err(FsError::WriteTooLarge);
        }
        let mut tmp = zero_block();
        let mut cursor: u32 = 0;
        #[verifier::loop_isolation(false)]
        while cursor < len32
            invariant
                cursor <= len32,
                inode.wf(),
                inode.type_ == old(inode).type_,
                inode.device == old(inode).device,
                inode.size == old(inode).size,
                inode.major == old(inode).major,
                inode.minor == old(inode).minor,
                tmp@.len() == BLOCKSIZE,
            decreases len32 - cursor,
        {
            proof {
                assert(((offset + cursor) as int) / 512 < 64) by (nonlinear_arith)
                    requires ((offset + cursor) as int) < 32768;
            }
            let bn = (offset + cursor) / (BLOCKSIZE as u32);
            let addr = match self.bmap_or_alloc(inode, bn) {
                Ok(a) => a,
                Err(e) => {
                    return Err(e);
                },
            };
            // Read, patch and write back the whole block, so that the
            // bytes around the span survive.
            match self.disk.read(&mut tmp, inode.device, addr) {
                Ok(_) => {},
                Err(e) => {
                    return Err(FsError::DiskFault(e));
                },
            }
            let block_off = ((offset + cursor) % (BLOCKSIZE as u32)) as usize;
            let mut chunk: usize = BLOCKSIZE - block_off;
            let remaining = (len32 - cursor) as usize;
            if remaining < chunk {
                chunk = remaining;
            }
            let mut j: usize = 0;
            while j < chunk
                invariant
                    j <= chunk,
                    chunk <= BLOCKSIZE - block_off,
                    cursor + chunk <= len32,
                    len32 == src_buf@.len(),
                    tmp@.len() == BLOCKSIZE,
                decreases chunk - j,
            {
                let byte = src_buf[cursor as usize + j];
                tmp.set(block_off + j, byte);
                j = j + 1;
            }
            match self.disk.write(&tmp, inode.device, addr) {
                Ok(_) => {},
                Err(e) => {
                    return Err(FsError::DiskFault(e));
                },
            }
            cursor = cursor + chunk as u32;
        }
        if offset + len32 > inode.size {
            inode.size = offset + len32;
        }
        Ok(len_usize)
    }

    /// Look a name up in a directory: the inode number and byte offset
    /// of the entry whose NUL-padded name equals `name`, scanning the
    /// whole entries in file order; `NotFound` when no entry matches.
    pub fn dir_lookup(&mut self, dir: &Inode, name: &Vec<u8>) -> (r: Result<(u32, usize), FsError>)
        requires
            dir.wf(),
            dir.type_ is Directory,
            dir.size <= MAXFILE * BLOCKSIZE,
            name@.len() <= DIRNAME_SIZE,
        ensures
            r matches Err(e) ==> e is NotFound || e is BlockNotMapped || e is DiskFault,
            r matches Ok(p) ==> p.0 != UNUSED_INUM && p.1 + DIRENT_SIZE <= dir.size,
    {
        let mut buf = zero_vec(DIRENT_SIZE);
        let mut offset: u32 = 0;
        #[verifier::loop_isolation(false)]
        while offset + (DIRENT_SIZE as u32) <= dir.size
            invariant
                offset <= dir.size,
                buf@.len() == DIRENT_SIZE,
            decreases dir.size - offset,
        {
            match self.read(dir, &mut buf, offset) {
                Ok(_) => {},
                Err(e) => {
                    return Err(e);
                },
            }
            let entry = decode_dirent(&buf);
            if entry.inumber != UNUSED_INUM {
                if names_match(&entry.name, name) {
                    return Ok((entry.inumber, offset as usize));
                }
            }
            offset = offset + DIRENT_SIZE as u32;
        }
        Err(FsError::NotFound)
    }

    /// Add a directory entry mapping `name` to inode `target`: into the
    /// first unused slot, or appended at the end of the directory file.
    /// A name already present is `EntryExists`.
    pub fn dir_add(&mut self, dir: &mut Inode, name: &Vec<u8>, target: u32) -> (r: Result<
        (),
        FsError,
    >)
        requires
            old(dir).wf(),
            old(dir).type_ is Directory,
            old(dir).size <= MAXFILE * BLOCKSIZE,
            name@.len() <= DIRNAME_SIZE,
        ensures
            final(dir).wf(),
            final(dir).type_ == old(dir).type_,
            final(dir).device == old(dir).device,
            final(dir).size <= old(dir).size + DIRENT_SIZE,
            r matches Err(e) ==> e is EntryExists || e is WriteTooLarge || e is ExhaustedBlocks
                || e is DiskFault || e is BlockNotMapped,
    {
        match self.dir_lookup(dir, name) {
            Ok(_) => {
                return Err(FsError::EntryExists);
            },
            Err(FsError::NotFound) => {},
            Err(e) => {
                return Err(e);
            },
        }
        // Marshal the new entry once.
        let mut padded = zero_vec(DIRNAME_SIZE);
        let mut i: usize = 0;
        #[verifier::loop_isolation(false)]
        while i < name.len()
            invariant
                i <= name@.len(),
                padded@.len() == DIRNAME_SIZE,
            decreases name@.len() - i,
        {
            let byte = name[i];
            padded.set(i, byte);
            i = i + 1;
        }
        let entry = DirEntry { inumber: target, name: padded };
        let mut buf = zero_vec(DIRENT_SIZE);
        encode_dirent(&entry, &mut buf);

        // Reuse the first unused slot, when there is one.
        let mut probe = zero_vec(DIRENT_SIZE);
        let mut offset: u32 = 0;
        #[verifier::loop_isolation(false)]
        while offset + (DIRENT_SIZE as u32) <= dir.size
            invariant
                offset <= dir.size,
                *dir == *old(dir),
                probe@.len() == DIRENT_SIZE,
                buf@.len() == DIRENT_SIZE,
            decreases dir.size - offset,
        {
            match self.read(dir, &mut probe, offset) {
                Ok(_) => {},
                Err(e) => {
                    return Err(e);
                },
            }
            let slot = decode_dirent(&probe);
            if slot.inumber == UNUSED_INUM {
                return match self.write(dir, &buf, offset) {
                    Ok(_) => Ok(()),
                    Err(e) => Err(e),
                };
            }
            offset = offset + DIRENT_SIZE as u32;
        }

        // No free slot: append past the end.
        let end = dir.size;
        match self.write(dir, &buf, end) {
            Ok(_) => Ok(()),
            Err(e) => Err(e),
        }
    }

    /// Resolve `name` under `path`. Only the root directory exists as a
    /// path, so anything but `/` is `NotFound`; a root inode that is not
    /// a directory is `NotDir`, and one whose recorded size cannot be a
    /// directory's counts as an I/O fault.
    pub fn namex(&mut self, path: &Vec<u8>, name: &Vec<u8>) -> (r: Result<u32, FsError>)
        requires
            name@.len() <= DIRNAME_SIZE,
        ensures
            path@ != seq![47u8] ==> r == Err::<u32, FsError>(FsError::NotFound),
            r matches Ok(i) ==> i != UNUSED_INUM,
            r matches Err(e) ==> e is NotFound || e is NotDir || e is DiskFault
                || e is BlockNotMapped,
    {
        // The one path the flat filesystem knows is "/".
        let is_root = path.len() == 1 && path[0] == 0x2f;
        proof {
            if is_root {
                assert(path@ =~= seq![47u8]);
            }
        }
        if !is_root {
            return Err(FsError::NotFound);
        }
        let inode = match self.read_inode(ROOT_DEV, ROOT_INUM) {
            Ok(ino) => ino,
            Err(e) => {
                return Err(e);
            },
        };
        if !matches!(inode.type_, InodeType::Directory) {
            return Err(FsError::NotDir);
        }
        if inode.size > (MAXFILE * BLOCKSIZE) as u32 {
            return Err(FsError::DiskFault(DiskError::IoError));
        }
        match self.dir_lookup(&inode, name) {
            Ok((inum, _)) => Ok(inum),
            Err(e) => Err(e),
        }
    }
}

/// Format a device: an empty inode table, every data block on the free
/// list, and a root directory holding its two standard entries. The
/// superblock places the inode table right after itself and the data
/// blocks after the table.
pub fn mkfs<T: Disk>(fs: &mut FileSystem<T>, nblocks: u32) -> (r: Result<(), FsError>)
    ensures
        r matches Err(e) ==> e is DiskFault || e is ExhaustedBlocks || e is ExhaustedInodes
            || e is WriteTooLarge || e is EntryExists || e is BlockNotMapped,
{
    // The summary block first, so that every later step can find the
    // table and the free list.
    let sb = SuperBlock {
        size: 0,
        nblocks,
        ninodes: NUM_INODES,
        inode_start: 1,
        freelist_start: UNUSED_BLOCKADDR,
    };
    let mut sb_buf = zero_block();
    encode_superblock(&sb, &mut sb_buf);
    match fs.disk.write(&sb_buf, ROOT_DEV, SUPERBLOCK_ADDR) {
        Ok(_) => {},
        Err(e) => {
            return Err(FsError::DiskFault(e));
        },
    }
    // Every inode starts unused.
    let blank = unused_inode();
    let mut i: u32 = 0;
    while i < NUM_INODES
        invariant
            i <= NUM_INODES,
            blank.wf(),
        decreases NUM_INODES - i,
    {
        match fs.update_inode(i, &blank) {
            Ok(_) => {},
            Err(e) => {
                return Err(e);
            },
        }
        i = i + 1;
    }
    // Every block past the table joins the free list.
    let data_start: u32 = 1 + NUM_INODES;
    let mut b: u32 = data_start;
    while b < nblocks
        invariant
            data_start <= b || b == data_start,
        decreases nblocks - b,
    {
        match fs.free_block(ROOT_DEV, b) {
            Ok(_) => {},
            Err(e) => {
                return Err(e);
            },
        }
        b = b + 1;
    }
    // The root directory, which must land in the table's first slot.
    let mut root = unused_inode();
    root.type_ = InodeType::Directory;
    root.device = ROOT_DEV;
    let mut table_entry = unused_inode();
    table_entry.type_ = InodeType::Directory;
    table_entry.device = ROOT_DEV;
    let inum = match fs.alloc_inode(ROOT_DEV, table_entry) {
        Ok(i) => i,
        Err(e) => {
            return Err(e);
        },
    };
    if inum != ROOT_INUM {
        return Err(FsError::DiskFault(DiskError::IoError));
    }
    let mut dot: Vec<u8> = Vec::new();
    dot.push(0x2e);  // "."
    match fs.dir_add(&mut root, &dot, ROOT_INUM) {
        Ok(_) => {},
        Err(e) => {
            return Err(e);
        },
    }
    let mut dotdot: Vec<u8> = Vec::new();
    dotdot.push(0x2e);
    dotdot.push(0x2e);  // ".."
    match fs.dir_add(&mut root, &dotdot, ROOT_INUM) {
        Ok(_) => {},
        Err(e) => {
            return Err(e);
        },
    }
    match fs.update_inode(ROOT_INUM, &root) {
        Ok(_) => {},
        Err(e) => {
            return Err(e);
        },
    }
    Ok(())
}

} // verus!
