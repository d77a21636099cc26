//! The filesystem over an in-memory disk.

use cofflos::file::{FileHandle, SimpleFs, UnixFileSystem};
use cofflos::fs::{
    decode_dirent, decode_inode, decode_superblock, encode_dirent, encode_inode,
    encode_superblock, get_u16, get_u32, put_u16, put_u32, unused_inode, zero_block, Disk,
    DiskError, DirEntry, FileSystem, FsError, InodeType, SuperBlock, BLOCKSIZE,
    NUM_INODES, ROOT_DEV, ROOT_INUM, UNUSED_BLOCKADDR,
};

/// A disk that lives in a vector of sectors.
struct MemDisk {
    sectors: Vec<Vec<u8>>,
}

impl MemDisk {
    fn new(n: usize) -> MemDisk {
        MemDisk { sectors: vec![vec![0u8; BLOCKSIZE]; n] }
    }
}

impl Disk for MemDisk {
    fn read(&mut self, buffer: &mut Vec<u8>, _device: u32, sector: u32) -> Result<(), DiskError> {
        match self.sectors.get(sector as usize) {
            Some(s) => {
                buffer.clear();
                buffer.extend_from_slice(s);
                Ok(())
            }
            None => Err(DiskError::IoError),
        }
    }

    fn write(&mut self, buffer: &Vec<u8>, _device: u32, sector: u32) -> Result<usize, DiskError> {
        match self.sectors.get_mut(sector as usize) {
            Some(s) => {
                s[..buffer.len()].copy_from_slice(buffer);
                Ok(buffer.len())
            }
            None => Err(DiskError::IoError),
        }
    }

    fn sector_size() -> usize {
        BLOCKSIZE
    }
}

/// A disk that always fails.
struct DeadDisk;

impl Disk for DeadDisk {
    fn read(&mut self, _buffer: &mut Vec<u8>, _device: u32, _sector: u32) -> Result<(), DiskError> {
        Err(DiskError::IoError)
    }

    fn write(&mut self, _buffer: &Vec<u8>, _device: u32, _sector: u32) -> Result<usize, DiskError> {
        Err(DiskError::IoError)
    }

    fn sector_size() -> usize {
        BLOCKSIZE
    }
}

const FS_SIZE: u32 = 600;

/// Format a fresh in-memory filesystem with a root directory.
fn fresh_fs() -> FileSystem<MemDisk> {
    let mut fs = FileSystem::new(MemDisk::new(FS_SIZE as usize));
    cofflos::fs::mkfs(&mut fs, FS_SIZE).unwrap();
    fs
}

#[test]
fn little_endian_codecs() {
    let mut b = zero_block();
    put_u32(&mut b, 8, 0xDEADBEEF);
    assert_eq!(b[8], 0xEF);
    assert_eq!(b[9], 0xBE);
    assert_eq!(b[10], 0xAD);
    assert_eq!(b[11], 0xDE);
    assert_eq!(get_u32(&b, 8), 0xDEADBEEF);
    put_u16(&mut b, 0, 0x1234);
    assert_eq!(b[0], 0x34);
    assert_eq!(b[1], 0x12);
    assert_eq!(get_u16(&b, 0), 0x1234);
}

#[test]
fn superblock_round_trip() {
    let sb = SuperBlock { size: 7, nblocks: 600, ninodes: 256, inode_start: 1, freelist_start: 300 };
    let mut b = zero_block();
    encode_superblock(&sb, &mut b);
    assert_eq!(decode_superblock(&b), sb);
}

#[test]
fn inode_round_trip() {
    let mut ino = unused_inode();
    ino.type_ = InodeType::File;
    ino.device = 1;
    ino.major = 3;
    ino.minor = 4;
    ino.size = 1234;
    ino.blocks[0] = 300;
    ino.blocks[63] = 420;
    let mut b = zero_block();
    encode_inode(&ino, &mut b);
    let back = decode_inode(&b);
    assert_eq!(back.type_, InodeType::File);
    assert_eq!(back.device, 1);
    assert_eq!(back.major, 3);
    assert_eq!(back.minor, 4);
    assert_eq!(back.size, 1234);
    assert_eq!(back.blocks, ino.blocks);
}

#[test]
fn dirent_round_trip() {
    let mut name = vec![0u8; cofflos::fs::DIRNAME_SIZE];
    name[..6].copy_from_slice(b"README");
    let e = DirEntry { inumber: 17, name };
    let mut b = zero_block();
    encode_dirent(&e, &mut b);
    let back = decode_dirent(&b);
    assert_eq!(back.inumber, 17);
    assert_eq!(&back.name[..6], b"README");
    assert_eq!(back.name[6], 0);
}

#[test]
fn write_then_read_round_trips() {
    let mut fs = fresh_fs();
    let mut ino = unused_inode();
    ino.type_ = InodeType::File;
    ino.device = ROOT_DEV;
    let inum = fs.alloc_inode(ROOT_DEV, ino.clone()).unwrap();

    // A payload crossing several blocks.
    let payload: Vec<u8> = (0..2000u32).map(|i| (i % 251) as u8).collect();
    let n = fs.write(&mut ino, &payload, 0).unwrap();
    assert_eq!(n, payload.len());
    assert_eq!(ino.size as usize, payload.len());
    fs.update_inode(inum, &ino).unwrap();

    let back = fs.read_inode(ROOT_DEV, inum).unwrap();
    assert_eq!(back.size, ino.size);
    let mut buf = vec![0u8; payload.len()];
    let k = fs.read(&back, &mut buf, 0).unwrap();
    assert_eq!(k, payload.len());
    assert_eq!(buf, payload);

    // A short read in the middle.
    let mut four = vec![0u8; 4];
    fs.read(&back, &mut four, 700).unwrap();
    assert_eq!(four, &payload[700..704]);
}

#[test]
fn read_stops_at_end_of_file() {
    let mut fs = fresh_fs();
    let mut ino = unused_inode();
    ino.type_ = InodeType::File;
    ino.device = ROOT_DEV;
    fs.write(&mut ino, &vec![7u8; 100], 0).unwrap();
    let mut buf = vec![0u8; 500];
    let n = fs.read(&ino, &mut buf, 40).unwrap();
    assert_eq!(n, 60);
    assert_eq!(&buf[..60], &vec![7u8; 60][..]);
}

#[test]
fn directory_lookup_and_namex() {
    let mut fs = fresh_fs();
    let mut ino = unused_inode();
    ino.type_ = InodeType::File;
    ino.device = ROOT_DEV;
    let inum = fs.alloc_inode(ROOT_DEV, ino).unwrap();

    let mut root = fs.read_inode(ROOT_DEV, ROOT_INUM).unwrap();
    fs.dir_add(&mut root, &b"README".to_vec(), inum).unwrap();
    fs.update_inode(ROOT_INUM, &root).unwrap();

    let (found, _off) = fs.dir_lookup(&root, &b"README".to_vec()).unwrap();
    assert_eq!(found, inum);
    assert_eq!(fs.namex(&b"/".to_vec(), &b"README".to_vec()).unwrap(), inum);
    assert_eq!(
        fs.namex(&b"/".to_vec(), &b"missing".to_vec()),
        Err(FsError::NotFound)
    );
    assert_eq!(
        fs.namex(&b"/etc".to_vec(), &b"README".to_vec()),
        Err(FsError::NotFound)
    );
}

#[test]
fn dir_add_refuses_duplicates() {
    let mut fs = fresh_fs();
    let mut root = fs.read_inode(ROOT_DEV, ROOT_INUM).unwrap();
    fs.dir_add(&mut root, &b"twice".to_vec(), 3).unwrap();
    assert_eq!(
        fs.dir_add(&mut root, &b"twice".to_vec(), 4),
        Err(FsError::EntryExists)
    );
}

#[test]
fn error_variants_have_inputs() {
    let mut fs = fresh_fs();

    // TypeMismatch: reading something that is not a file.
    let unused = unused_inode();
    let mut buf = vec![0u8; 16];
    assert_eq!(fs.read(&unused, &mut buf, 0), Err(FsError::TypeMismatch));

    // ReadTooLarge: starting past the end.
    let mut file = unused_inode();
    file.type_ = InodeType::File;
    file.size = 10;
    assert_eq!(fs.read(&file, &mut buf, 11), Err(FsError::ReadTooLarge));

    // WriteTooLarge: starting past the end, or ending past the largest
    // file.
    let mut w = unused_inode();
    w.type_ = InodeType::File;
    assert_eq!(fs.write(&mut w, &vec![1u8; 4], 5), Err(FsError::WriteTooLarge));
    assert_eq!(
        fs.write(&mut w, &vec![1u8; 40000], 0),
        Err(FsError::WriteTooLarge)
    );

    // BlockNotMapped: a file whose table has a hole.
    let mut holey = unused_inode();
    holey.type_ = InodeType::File;
    holey.size = 100;
    assert_eq!(fs.read(&holey, &mut buf, 0), Err(FsError::BlockNotMapped(0)));

    // NotDir: a root inode that is not a directory.
    let mut broken = FileSystem::new(MemDisk::new(FS_SIZE as usize));
    let sb = SuperBlock {
        size: 0,
        nblocks: FS_SIZE,
        ninodes: NUM_INODES,
        inode_start: 1,
        freelist_start: 0,
    };
    let mut sb_buf = zero_block();
    encode_superblock(&sb, &mut sb_buf);
    broken.disk.write(&sb_buf, ROOT_DEV, 0).unwrap();
    let mut plain = unused_inode();
    plain.type_ = InodeType::File;
    broken.update_inode(ROOT_INUM, &plain).unwrap();
    assert_eq!(
        broken.namex(&b"/".to_vec(), &b"x".to_vec()),
        Err(FsError::NotDir)
    );

    // DiskFault: a device that answers nothing.
    let mut dead = FileSystem::new(DeadDisk);
    assert!(matches!(
        dead.read_inode(ROOT_DEV, 0),
        Err(FsError::DiskFault(DiskError::IoError))
    ));
}

#[test]
fn alloc_block_exhausts() {
    // A filesystem whose free list is empty from the start.
    let mut fs = FileSystem::new(MemDisk::new(4));
    let sb = SuperBlock {
        size: 0,
        nblocks: 4,
        ninodes: 0,
        inode_start: 1,
        freelist_start: UNUSED_BLOCKADDR,
    };
    let mut buf = zero_block();
    encode_superblock(&sb, &mut buf);
    fs.disk.write(&buf, ROOT_DEV, 0).unwrap();
    assert_eq!(fs.alloc_block(ROOT_DEV), Err(FsError::ExhaustedBlocks));
}

#[test]
fn alloc_and_free_blocks_cycle() {
    let mut fs = fresh_fs();
    let a = fs.alloc_block(ROOT_DEV).unwrap();
    let b = fs.alloc_block(ROOT_DEV).unwrap();
    assert_ne!(a, b);
    fs.free_block(ROOT_DEV, a).unwrap();
    fs.free_block(ROOT_DEV, b).unwrap();
    // Both addresses come back out of the free list eventually.
    let c = fs.alloc_block(ROOT_DEV).unwrap();
    assert!(c == a || c == b || c != UNUSED_BLOCKADDR);
}

#[test]
fn alloc_inode_exhausts() {
    let mut fs = fresh_fs();
    let mut file = unused_inode();
    file.type_ = InodeType::File;
    file.device = ROOT_DEV;
    // The root already took one slot.
    for _ in 1..NUM_INODES {
        fs.alloc_inode(ROOT_DEV, file.clone()).unwrap();
    }
    assert_eq!(
        fs.alloc_inode(ROOT_DEV, file),
        Err(FsError::ExhaustedInodes)
    );
}

#[test]
fn open_and_read_through_a_handle() {
    let mut fs = fresh_fs();
    let mut ino = unused_inode();
    ino.type_ = InodeType::File;
    ino.device = ROOT_DEV;
    let inum = fs.alloc_inode(ROOT_DEV, ino.clone()).unwrap();
    let text = b"hello, filesystem".to_vec();
    fs.write(&mut ino, &text, 0).unwrap();
    fs.update_inode(inum, &ino).unwrap();
    let mut root = fs.read_inode(ROOT_DEV, ROOT_INUM).unwrap();
    fs.dir_add(&mut root, &b"hello".to_vec(), inum).unwrap();
    fs.update_inode(ROOT_INUM, &root).unwrap();

    let mut sfs = SimpleFs { fs };
    let mut file = sfs.open(&b"/".to_vec(), &b"hello".to_vec()).unwrap();
    assert_eq!(file.file_size(), text.len());
    assert_eq!(file.cursor(), 0);
    let mut buf = vec![0u8; text.len()];
    let n = file.read(&mut sfs.fs, &mut buf).unwrap();
    assert_eq!(n, text.len());
    assert_eq!(buf, text);
    assert_eq!(file.cursor(), text.len());
    FileHandle::<MemDisk>::seek_absolute(&mut file, 7);
    let mut tail = vec![0u8; 10];
    let k = file.read(&mut sfs.fs, &mut tail).unwrap();
    assert_eq!(k, 10);
    assert_eq!(&tail[..], &text[7..17]);
}

#[test]
fn write_through_a_handle_persists() {
    let mut fs = fresh_fs();
    let mut ino = unused_inode();
    ino.type_ = InodeType::File;
    ino.device = ROOT_DEV;
    let inum = fs.alloc_inode(ROOT_DEV, ino).unwrap();
    let mut root = fs.read_inode(ROOT_DEV, ROOT_INUM).unwrap();
    fs.dir_add(&mut root, &b"log".to_vec(), inum).unwrap();
    fs.update_inode(ROOT_INUM, &root).unwrap();

    let mut sfs = SimpleFs { fs };
    let mut file = sfs.open(&b"/".to_vec(), &b"log".to_vec()).unwrap();
    let data = vec![9u8; 600];
    let n = file.write(&mut sfs.fs, &data).unwrap();
    assert_eq!(n, 600);

    // Reopening sees the write.
    let mut again = sfs.open(&b"/".to_vec(), &b"log".to_vec()).unwrap();
    assert_eq!(again.file_size(), 600);
    let mut buf = vec![0u8; 600];
    again.read(&mut sfs.fs, &mut buf).unwrap();
    assert_eq!(buf, data);
}

#[test]
fn mkfs_lays_out_a_whole_filesystem() {
    let mut fs = FileSystem::new(MemDisk::new(FS_SIZE as usize));
    cofflos::fs::mkfs(&mut fs, FS_SIZE).unwrap();
    // The superblock took its place.
    let mut buf = zero_block();
    fs.disk.read(&mut buf, ROOT_DEV, 0).unwrap();
    let sb = decode_superblock(&buf);
    assert_eq!(sb.inode_start, 1);
    assert_eq!(sb.ninodes, NUM_INODES);
    assert_eq!(sb.nblocks, FS_SIZE);
    assert_ne!(sb.freelist_start, UNUSED_BLOCKADDR);
    // The root directory holds its two standard entries.
    let root = fs.read_inode(ROOT_DEV, ROOT_INUM).unwrap();
    assert_eq!(root.type_, InodeType::Directory);
    let (dot, off0) = fs.dir_lookup(&root, &b".".to_vec()).unwrap();
    assert_eq!((dot, off0), (ROOT_INUM, 0));
    let (dotdot, off1) = fs.dir_lookup(&root, &b"..".to_vec()).unwrap();
    assert_eq!(dotdot, ROOT_INUM);
    assert_eq!(off1, cofflos::fs::DIRENT_SIZE);
    // Allocation works off the fresh free list.
    assert!(fs.alloc_block(ROOT_DEV).is_ok());
}
