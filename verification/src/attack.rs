//! The collision generator.

use vstd::prelude::*;
use crate::laws::{columns_cancel, lemma_collide_digest, lemma_collision_exactly_when};
use crate::model::{
    collide_spec, digest_spec, initial_state, repeat, round_up, zero_pad, zeros, BLOCK_SIZE,
};

verus! {

/// A message made from `data` alone, without running the digest: `data`
/// padded with zeros to the next multiple of 32 bytes, 256 times over. Where
/// `data` is block-aligned already, nothing is padded and nothing repeated:
/// the result is empty.
///
/// The result always digests to the initial state. It has the digest of
/// `data` exactly when the columns of `data`'s blocks cancel.
pub fn xor_hash_attack(data: &[u8]) -> (message: Vec<u8>)
    ensures
        message@ == collide_spec(data@),
        data@.len() % 32 != 0 ==> message@.len() == 256 * round_up(data@.len()),
        data@.len() % 32 == 0 ==> message@.len() == 0,
        digest_spec(message@) == initial_state(),
        digest_spec(message@) == digest_spec(data@) <==> columns_cancel(data@),
{
    let mut padded_data: Vec<u8> = Vec::new();
    let rest: usize = data.len() % BLOCK_SIZE;
    if rest != 0 {
        padded_data.extend_from_slice(data);
        let mut k: usize = rest;
        while k < BLOCK_SIZE
            invariant
                rest <= k <= 32,
                rest == data@.len() % 32,
                padded_data@ == data@ + zeros((k - rest) as nat),
            decreases 32 - k,
        {
            padded_data.push(0u8);
            k += 1;
            assert(padded_data@ =~= data@ + zeros((k - rest) as nat));
        }
    }
    assert(padded_data@ =~= zero_pad(data@));
    let mut matching_message: Vec<u8> = Vec::new();
    let mut n: usize = 0;
    while n < 256
        invariant
            n <= 256,
            matching_message@ == repeat(padded_data@, n as nat),
            matching_message@.len() == n * padded_data@.len(),
        decreases 256 - n,
    {
        matching_message.extend_from_slice(padded_data.as_slice());
        n += 1;
        assert(matching_message@ =~= repeat(padded_data@, n as nat));
        assert(matching_message@.len() == n * padded_data@.len()) by (nonlinear_arith)
            requires
                matching_message@.len() == (n - 1) * padded_data@.len() + padded_data@.len(),
        ;
    }
    proof {
        lemma_collide_digest(data@);
        lemma_collision_exactly_when(data@);
    }
    matching_message
}

} // verus!
