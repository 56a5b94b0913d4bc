//! Block-addressable view over a contiguous byte buffer. The buffer is
//! externally sized; every operation works in whole 512-byte blocks and stays
//! inside it.

use crate::bytes::splice;
use vstd::prelude::*;

verus! {

/// Error during creation of a disk image view.
#[derive(Clone, Copy, Debug, PartialEq, Eq, Structural)]
pub enum ImageError {
    /// The image-backing file could not be opened.
    OpenError,
    /// The byte region could not be established with writable access.
    MapError,
}

/// A contiguous byte region addressed in 512-byte blocks. The region never
/// resizes.
pub struct Image {
    mem: Vec<u8>,
}

impl View for Image {
    type V = Seq<u8>;

    closed spec fn view(&self) -> Seq<u8> {
        self.mem@
    }
}

impl Image {
    /// An image over an already-sized byte buffer.
    pub fn new(mem: Vec<u8>) -> (r: Image)
        ensures
            r@ == mem@,
    {
        Image { mem }
    }

    /// Hand the byte buffer back, for the caller to persist.
    pub fn into_bytes(self) -> (r: Vec<u8>)
        ensures
            r@ == self@,
    {
        self.mem
    }

    /// Length of the region in bytes.
    pub fn len(&self) -> (r: usize)
        ensures
            r == self@.len(),
    {
        self.mem.len()
    }

    /// Number of whole 512-byte blocks in the region.
    pub fn block_count(&self) -> (r: usize)
        ensures
            r == self@.len() / 512,
    {
        self.mem.len() / 512
    }

    /// A copy of blocks `[block_index, block_index + count)`.
    pub fn get_blocks(&self, block_index: usize, count: usize) -> (r: Vec<u8>)
        requires
            (block_index + count) * 512 <= self@.len(),
        ensures
            r@ == self@.subrange(
                block_index * 512,
                block_index * 512 + count * 512,
            ),
            r@.len() == count * 512,
    {
        let n = self.mem.len();
        proof {
            assert((block_index + count) * 512 == block_index * 512 + count * 512) by (nonlinear_arith);
        }
        let start: usize = block_index * 512;
        let len: usize = count * 512;
        let mut out: Vec<u8> = Vec::new();
        let mut i: usize = 0;
        while i < len
            invariant
                i <= len,
                n == self@.len(),
                start + len <= n,
                out@.len() == i,
                forall|k: int| 0 <= k < i ==> out@[k] == self@[start + k],
            decreases len - i,
        {
            out.push(self.mem[start + i]);
            i = i + 1;
        }
        proof {
            assert(out@ =~= self@.subrange(start as int, start as int + len as int));
        }
        out
    }

    /// Overwrite the bytes starting at block `block_index` with `data`;
    /// every other byte is kept.
    pub fn write_blocks(&mut self, block_index: usize, data: &Vec<u8>)
        requires
            block_index * 512 + data@.len() <= old(self)@.len(),
        ensures
            final(self)@ == splice(old(self)@, block_index * 512, data@),
            final(self)@.len() == old(self)@.len(),
    {
        let n = self.mem.len();
        let m = data.len();
        let start: usize = block_index * 512;
        let mut i: usize = 0;
        while i < m
            invariant
                i <= m,
                m == data@.len(),
                start == block_index * 512,
                n == self@.len(),
                start + m <= n,
                self@.len() == old(self)@.len(),
                forall|k: int| 0 <= k < i ==> self@[start + k] == data@[k],
                forall|k: int|
                    0 <= k < self@.len() && !(start <= k < start + i) ==> self@[k] == old(
                        self,
                    )@[k],
            decreases m - i,
        {
            self.mem.set(start + i, data[i]);
            i = i + 1;
        }
        proof {
            assert(self@ =~= splice(old(self)@, start as int, data@));
        }
    }
}

} // verus!
