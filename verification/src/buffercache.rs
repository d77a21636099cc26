//! A cached disk block.

use vstd::prelude::*;

verus! {

/// Buffer flag: the cached data reflects the disk.
pub const BUF_VALID: u32 = 1 << 1;

/// Buffer flag: the cached data must be written back.
pub const BUF_DIRTY: u32 = 1 << 2;

/// One cached block: where it came from and its bytes.
pub struct Buffer {
    pub flags: u32,
    pub device: u32,
    pub blockno: u32,
    pub refcount: u32,
    pub data: Vec<u8>,
}

impl Buffer {
    /// An unused cache slot for the given block.
    pub fn new(device: u32, blockno: u32) -> (r: Buffer)
        ensures
            r.flags == 0,
            r.device == device,
            r.blockno == blockno,
            r.refcount == 0,
            r.data@.len() == crate::fs::BLOCKSIZE,
            forall|i: int| 0 <= i < r.data@.len() ==> r.data@[i] == 0,
    {
        let mut data: Vec<u8> = Vec::new();
        let mut i: usize = 0;
        while i < crate::fs::BLOCKSIZE
            invariant
                i <= crate::fs::BLOCKSIZE,
                data@.len() == i,
                forall|j: int| 0 <= j < i ==> data@[j] == 0,
            decreases crate::fs::BLOCKSIZE - i,
        {
            data.push(0);
            i = i + 1;
        }
        Buffer { flags: 0, device, blockno, refcount: 0, data }
    }
}

} // verus!
