//! The digest engine: 32 state bytes, fed one block at a time.

use vstd::prelude::*;
use crate::model::{
    absorb, block_at, block_count, compress, digest_spec, initial_state, mix_byte, rounds,
    BLOCK_SIZE, HASH_SIZE,
};

verus! {

/// The running state of one digest computation.
pub struct XorHasher {
    state: [u8; 32],
    block_count: usize,
}

/// The rest of `data` from `offset` on, as one block: 32 message bytes where
/// that many are left; else the `r` bytes that are left, zeros after them, and
/// `r` at position 31.
pub fn next_block(data: &[u8], offset: usize) -> (block: [u8; 32])
    requires
        offset < data@.len(),
        offset % 32 == 0,
    ensures
        block@ == block_at(data@, offset as int / 32),
{
    let mut block: [u8; 32] = [0u8; 32];
    let remaining: usize = data.len() - offset;
    let block_size: usize = if remaining < BLOCK_SIZE { remaining } else { BLOCK_SIZE };
    let mut k: usize = 0;
    while k < block_size
        invariant
            k <= block_size <= 32,
            offset + block_size <= data.len(),
            forall|i: int| 0 <= i < k ==> block@[i] == data@[offset + i],
            forall|i: int| k <= i < 32 ==> block@[i] == 0u8,
        decreases block_size - k,
    {
        block[k] = data[offset + k];
        k += 1;
    }
    if block_size < BLOCK_SIZE {
        block[BLOCK_SIZE - 1] = block_size as u8;
    }
    assert(block@ =~= block_at(data@, offset as int / 32));
    block
}

impl XorHasher {
    /// The 32 state bytes.
    pub closed spec fn state(&self) -> Seq<u8> {
        self.state@
    }

    /// How many blocks have been absorbed.
    pub closed spec fn blocks(&self) -> nat {
        self.block_count as nat
    }

    /// The state always has 32 bytes.
    pub proof fn lemma_state_len(&self)
        ensures
            self.state().len() == 32,
    {
    }

    /// A hasher that has absorbed nothing.
    pub fn new() -> (h: Self)
        ensures
            h.state() == initial_state(),
            h.blocks() == 0,
    {
        let h = XorHasher {
            state: [
                0x6a, 0x09, 0xe6, 0x67, 0xbb, 0x67, 0xae, 0x85,
                0x3c, 0x6e, 0xf3, 0x72, 0xa5, 0x4f, 0xf5, 0x3a,
                0x51, 0x0e, 0x52, 0x7f, 0x9b, 0x05, 0x68, 0x8c,
                0x1f, 0x83, 0xd9, 0xab, 0x5b, 0xe0, 0xcd, 0x19,
            ],
            block_count: 0,
        };
        assert(h.state@ =~= initial_state());
        h
    }

    /// How many blocks have been absorbed so far.
    pub fn block_count(&self) -> (n: usize)
        ensures
            n == self.blocks(),
    {
        self.block_count
    }

    /// Absorbs `data`, block by block and in order. A rest shorter than a
    /// block is absorbed as a padded block of its own. The block counter must
    /// have room for the blocks of `data`.
    pub fn update(&mut self, data: &[u8])
        requires
            old(self).blocks() + block_count(data@) <= usize::MAX,
        ensures
            final(self).state() == absorb(old(self).state(), data@, block_count(data@)),
            final(self).blocks() == old(self).blocks() + block_count(data@),
    {
        let mut offset: usize = 0;
        let ghost mut done: nat = 0;
        while offset < data.len()
            invariant
                done <= block_count(data@),
                offset == if 32 * done <= data@.len() { 32 * done } else { data@.len() },
                self.state@ == absorb(old(self).state@, data@, done),
                self.block_count == old(self).block_count + done,
                old(self).block_count + block_count(data@) <= usize::MAX,
            decreases data@.len() - offset,
        {
            let block = next_block(data, offset);
            self.process_block(&block);
            offset = if data.len() - offset < BLOCK_SIZE { data.len() } else { offset + BLOCK_SIZE };
            self.block_count += 1;
            proof {
                done = done + 1;
            }
        }
    }

    /// Hands out the state as the digest.
    pub fn finalize(self) -> (digest: [u8; 32])
        ensures
            digest@ == self.state(),
    {
        self.state
    }

    /// One compression step: position by position, 80 rounds of XOR and
    /// rotation with the block byte, then the block byte added modulo 256.
    pub fn process_block(&mut self, block: &[u8; 32])
        ensures
            final(self).state() == compress(old(self).state(), block@),
            final(self).blocks() == old(self).blocks(),
    {
        let mut i: usize = 0;
        while i < HASH_SIZE
            invariant
                i <= 32,
                self.block_count == old(self).block_count,
                forall|j: int| 0 <= j < i ==> self.state@[j] == mix_byte(old(self).state@[j], block@[j]),
                forall|j: int| i <= j < 32 ==> self.state@[j] == old(self).state@[j],
            decreases 32 - i,
        {
            let b: u8 = block[i];
            let mut s: u8 = self.state[i];
            let mut k: usize = 0;
            while k < 80
                invariant
                    k <= 80,
                    i < 32,
                    s == rounds(old(self).state@[i as int], b, k as nat),
                decreases 80 - k,
            {
                s = s ^ b;
                s = (s << 1u8) | (s >> 7u8);
                k += 1;
            }
            self.state[i] = s.wrapping_add(b);
            i += 1;
        }
        assert(self.state@ =~= compress(old(self).state@, block@));
    }
}

/// The digest of `data`.
pub fn xor_hash(data: &[u8]) -> (digest: [u8; 32])
    ensures
        digest@ == digest_spec(data@),
{
    let mut hasher = XorHasher::new();
    assert(block_count(data@) <= data.len());
    hasher.update(data);
    hasher.finalize()
}

} // verus!
