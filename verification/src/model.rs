//! The mathematical model: what a block is, what one compression step does to
//! the state, and what the digest and the colliding message of a byte sequence
//! are.

use vstd::prelude::*;

verus! {

/// Number of bytes in one block of message data.
pub const BLOCK_SIZE: usize = 32;

/// Number of bytes in the state and in a digest.
pub const HASH_SIZE: usize = 32;

/// The state before any block has been absorbed: a fixed public value.
pub open spec fn initial_state() -> Seq<u8> {
    seq![
        0x6au8, 0x09u8, 0xe6u8, 0x67u8, 0xbbu8, 0x67u8, 0xaeu8, 0x85u8,
        0x3cu8, 0x6eu8, 0xf3u8, 0x72u8, 0xa5u8, 0x4fu8, 0xf5u8, 0x3au8,
        0x51u8, 0x0eu8, 0x52u8, 0x7fu8, 0x9bu8, 0x05u8, 0x68u8, 0x8cu8,
        0x1fu8, 0x83u8, 0xd9u8, 0xabu8, 0x5bu8, 0xe0u8, 0xcdu8, 0x19u8,
    ]
}

/// Rotation of a byte by one bit to the left, circular within its eight bits.
pub open spec fn rotl1(x: u8) -> u8 {
    (x << 1u8) | (x >> 7u8)
}

/// One round on one state byte `s` with block byte `b`: XOR, then rotate.
pub open spec fn round(s: u8, b: u8) -> u8 {
    rotl1(s ^ b)
}

/// `n` rounds in a row on one state byte, all with the same block byte.
pub open spec fn rounds(s: u8, b: u8, n: nat) -> u8
    decreases n,
{
    if n == 0 {
        s
    } else {
        round(rounds(s, b, (n - 1) as nat), b)
    }
}

/// What one compression step makes of a state byte `s` under block byte `b`:
/// 80 rounds, then the block byte added modulo 256.
pub open spec fn mix_byte(s: u8, b: u8) -> u8 {
    ((rounds(s, b, 80) + b) % 256) as u8
}

/// The compression step: every position of the state is mixed with the block
/// byte at the same position, and with nothing else.
pub open spec fn compress(state: Seq<u8>, block: Seq<u8>) -> Seq<u8> {
    Seq::new(32, |i: int| mix_byte(state[i], block[i]))
}

/// Number of blocks that a message is cut into: the full 32-byte windows, and
/// one more for a shorter rest.
pub open spec fn block_count(m: Seq<u8>) -> nat {
    ((m.len() + 31) / 32) as nat
}

/// Block number `j` of message `m`. A full window is taken as it stands. A
/// rest of `r < 32` bytes is followed by zeros, and position 31 holds `r`.
pub open spec fn block_at(m: Seq<u8>, j: int) -> Seq<u8> {
    let start = 32 * j;
    let r = m.len() - start;
    if r >= 32 {
        m.subrange(start, start + 32)
    } else {
        Seq::new(
            32,
            |i: int|
                if i == 31 {
                    r as u8
                } else if i < r {
                    m[start + i]
                } else {
                    0u8
                },
        )
    }
}

/// The state after the first `n` blocks of `m` have been absorbed, in order,
/// starting from `state`.
pub open spec fn absorb(state: Seq<u8>, m: Seq<u8>, n: nat) -> Seq<u8>
    decreases n,
{
    if n == 0 {
        state
    } else {
        compress(absorb(state, m, (n - 1) as nat), block_at(m, n - 1))
    }
}

/// The state after all of `m` has been absorbed, starting from `state`.
pub open spec fn absorb_all(state: Seq<u8>, m: Seq<u8>) -> Seq<u8> {
    absorb(state, m, block_count(m))
}

/// The digest of a message.
pub open spec fn digest_spec(m: Seq<u8>) -> Seq<u8> {
    absorb_all(initial_state(), m)
}

/// `n` zero bytes.
pub open spec fn zeros(n: nat) -> Seq<u8> {
    Seq::new(n, |i: int| 0u8)
}

/// The unit that the generator repeats: a message whose length is no multiple
/// of 32, followed by zeros up to the next multiple; nothing at all for a
/// message that is block-aligned already.
pub open spec fn zero_pad(m: Seq<u8>) -> Seq<u8> {
    if m.len() % 32 == 0 {
        Seq::empty()
    } else {
        m + zeros((32 - m.len() % 32) as nat)
    }
}

/// `n` copies of `s`, one after the other.
pub open spec fn repeat(s: Seq<u8>, n: nat) -> Seq<u8>
    decreases n,
{
    if n == 0 {
        Seq::empty()
    } else {
        repeat(s, (n - 1) as nat) + s
    }
}

/// The message that the generator makes of `m`: the padded unit, 256 times.
pub open spec fn collide_spec(m: Seq<u8>) -> Seq<u8> {
    repeat(zero_pad(m), 256)
}

/// `len` rounded up to a multiple of 32.
pub open spec fn round_up(len: nat) -> nat {
    (32 * ((len + 31) / 32)) as nat
}

} // verus!
