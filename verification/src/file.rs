//! File handles over the flat filesystem.

use vstd::prelude::*;
use crate::fs::{Disk, FileSystem, FsError, Inode, InodeType, ROOT_DEV, MAXFILE, BLOCKSIZE,
    DIRNAME_SIZE};

verus! {

/// A filesystem that can open files by directory and name.
pub trait UnixFileSystem {
    type File;

    /// Open `name` under `path`.
    fn open(&mut self, path: &Vec<u8>, name: &Vec<u8>) -> (r: Result<Self::File, FsError>)
        requires
            name@.len() <= DIRNAME_SIZE;
}

/// An open file: a cursor over a file's bytes.
pub trait FileHandle<T: Disk>: Sized {
    /// The handle's bookkeeping is consistent with the file it tracks.
    spec fn wf(&self) -> bool;

    /// Read from the cursor into `buffer`, advancing the cursor by the
    /// bytes read.
    fn read(&mut self, fs: &mut FileSystem<T>, buffer: &mut Vec<u8>) -> (r: Result<usize, FsError>)
        requires
            old(self).wf(),
            old(buffer)@.len() <= u32::MAX,
        ensures
            final(self).wf(),
            final(buffer)@.len() == old(buffer)@.len();

    /// Write `buffer` at the cursor, advancing it by the bytes written.
    fn write(&mut self, fs: &mut FileSystem<T>, buffer: &Vec<u8>) -> (r: Result<usize, FsError>)
        requires
            old(self).wf(),
            buffer@.len() <= u32::MAX,
        ensures
            final(self).wf();

    /// Move the cursor.
    fn seek_absolute(&mut self, offset: usize)
        requires
            old(self).wf(),
        ensures
            final(self).wf();

    /// Where the cursor stands.
    fn offset(&self) -> usize;

    /// The file's size in bytes.
    fn size(&self) -> usize;
}

/// The flat filesystem with its one root directory.
pub struct SimpleFs<T: Disk> {
    pub fs: FileSystem<T>,
}

impl<T: Disk> SimpleFs<T> {
    /// Wrap a device.
    pub fn new(disk: T) -> (r: SimpleFs<T>)
        ensures
            r.fs.disk == disk,
    {
        SimpleFs { fs: FileSystem::new(disk) }
    }
}

/// An open file of the flat filesystem.
pub struct SimpleFile {
    pub inum: u32,
    pub inode: Inode,
    pub offset: usize,
}

impl SimpleFile {
    /// Where the cursor stands.
    pub fn cursor(&self) -> (r: usize)
        ensures
            r == self.offset,
    {
        self.offset
    }

    /// The file's size in bytes.
    pub fn file_size(&self) -> (r: usize)
        ensures
            r == self.inode.size,
    {
        self.inode.size as usize
    }
}

impl<T: Disk> UnixFileSystem for SimpleFs<T> {
    type File = SimpleFile;

    /// Look the name up in the root directory and position a cursor at
    /// the file's start.
    fn open(&mut self, path: &Vec<u8>, name: &Vec<u8>) -> (r: Result<SimpleFile, FsError>) {
        let inum = match self.fs.namex(path, name) {
            Ok(i) => i,
            Err(e) => {
                return Err(e);
            },
        };
        if inum > crate::fs::NUM_INODES {
            return Err(FsError::DiskFault(crate::fs::DiskError::IoError));
        }
        let inode = match self.fs.read_inode(ROOT_DEV, inum) {
            Ok(ino) => ino,
            Err(e) => {
                return Err(e);
            },
        };
        Ok(SimpleFile { inum, inode, offset: 0 })
    }
}

impl<T: Disk> FileHandle<T> for SimpleFile {
    /// The inode is valid, its recorded size fits the layout, and the
    /// cursor fits the offset arithmetic.
    open spec fn wf(&self) -> bool {
        &&& self.inode.wf()
        &&& self.inode.size <= MAXFILE * BLOCKSIZE
        &&& self.offset <= u32::MAX
        &&& self.inum <= crate::fs::NUM_INODES
    }

    fn read(&mut self, fs: &mut FileSystem<T>, buffer: &mut Vec<u8>) -> (r: Result<
        usize,
        FsError,
    >) {
        if self.offset > u32::MAX as usize - buffer.len() {
            return Err(FsError::ReadTooLarge);
        }
        let n = match fs.read(&self.inode, buffer, self.offset as u32) {
            Ok(n) => n,
            Err(e) => {
                return Err(e);
            },
        };
        self.offset = self.offset + n;
        Ok(n)
    }

    fn write(&mut self, fs: &mut FileSystem<T>, buffer: &Vec<u8>) -> (r: Result<usize, FsError>) {
        if self.offset > u32::MAX as usize - buffer.len() {
            return Err(FsError::WriteTooLarge);
        }
        if matches!(self.inode.type_, InodeType::Unused) {
            return Err(FsError::TypeMismatch);
        }
        let n = match fs.write(&mut self.inode, buffer, self.offset as u32) {
            Ok(n) => n,
            Err(e) => {
                return Err(e);
            },
        };
        // The changed inode (its size may have grown) goes back to disk.
        match fs.update_inode(self.inum, &self.inode) {
            Ok(_) => {},
            Err(e) => {
                return Err(e);
            },
        }
        self.offset = self.offset + n;
        Ok(n)
    }

    fn seek_absolute(&mut self, offset: usize) {
        if offset <= u32::MAX as usize {
            self.offset = offset;
        } else {
            self.offset = u32::MAX as usize;
        }
    }

    fn offset(&self) -> usize {
        self.cursor()
    }

    fn size(&self) -> usize {
        self.file_size()
    }
}

} // verus!
