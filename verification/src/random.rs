//! The random data that every SRD file seals: zeros until the first
//! increase fills it with random bytes, and the same bytes from then on.
use vstd::prelude::*;

verus! {

/// Bytes of random data sealed into each SRD file.
pub const SRD_BUFFER_SIZE: usize = 1048576;

/// The random data, and whether it has been filled yet.
pub struct SrdRandomBuffer {
    pub data: Vec<u8>,
    pub random: bool,
}

impl SrdRandomBuffer {
    /// Zeros, not yet filled.
    pub fn new() -> (b: SrdRandomBuffer)
        ensures
            b.data@ == Seq::new(SRD_BUFFER_SIZE as nat, |i: int| 0u8),
            !b.random,
    {
        let mut data: Vec<u8> = Vec::new();
        let mut i: usize = 0;
        while i < SRD_BUFFER_SIZE
            invariant
                i <= SRD_BUFFER_SIZE,
                data@ == Seq::new(i as nat, |j: int| 0u8),
            decreases SRD_BUFFER_SIZE - i,
        {
            data.push(0u8);
            assert(data@ =~= Seq::new((i + 1) as nat, |j: int| 0u8));
            i = i + 1;
        }
        SrdRandomBuffer { data, random: false }
    }

    /// Whether random bytes are still to be drawn for the buffer.
    pub fn needs_random(&self) -> (r: bool)
        ensures
            r == !self.random,
    {
        !self.random
    }

    /// Fills the buffer with `fresh` the first time only: a buffer that is
    /// already random keeps its bytes. Returns whether it was filled now.
    pub fn fill_once(&mut self, fresh: Vec<u8>) -> (filled: bool)
        requires
            fresh@.len() == SRD_BUFFER_SIZE,
        ensures
            filled == !old(self).random,
            final(self).random,
            old(self).random ==> final(self).data@ == old(self).data@,
            !old(self).random ==> final(self).data@ == fresh@,
    {
        if self.random {
            return false;
        }
        self.data = fresh;
        self.random = true;
        true
    }
}

} // verus!
