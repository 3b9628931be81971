//! What holds of the digest and of the generator, for every message.
//!
//! The 80 rounds of a compression step undo themselves, so a step adds the
//! block to the state, byte by byte and modulo 256. A digest is therefore the
//! initial state plus the column sums of the message's blocks, and a message
//! that repeats one block-aligned unit 256 times digests to the initial state.

use vstd::prelude::*;
use crate::model::{
    absorb, absorb_all, block_at, block_count, collide_spec, compress, digest_spec, initial_state, mix_byte,
    repeat, round, round_up, rounds, zero_pad,
};

verus! {

/// The sum of the bytes at position `i` of the first `n` blocks of `m`.
pub open spec fn column_sum(m: Seq<u8>, i: int, n: nat) -> int
    decreases n,
{
    if n == 0 {
        0
    } else {
        column_sum(m, i, (n - 1) as nat) + block_at(m, n - 1)[i]
    }
}

/// The sum of the bytes at position `i` of all blocks of `m`.
pub open spec fn column_total(m: Seq<u8>, i: int) -> int {
    column_sum(m, i, block_count(m))
}

/// Every column of `m`'s blocks sums to a multiple of 256.
pub open spec fn columns_cancel(m: Seq<u8>) -> bool {
    forall|i: int| 0 <= i < 32 ==> #[trigger] column_total(m, i) % 256 == 0
}

/// Eight rounds written out, for the bit-level proof below.
spec fn eight_rounds(s: u8, b: u8) -> u8 {
    round(round(round(round(round(round(round(round(s, b), b), b), b), b), b), b), b)
}

/// Sixteen rounds turn every bit back to its place, and XOR in every bit of
/// the block byte an even number of times.
proof fn lemma_sixteen_rounds(s: u8, b: u8)
    ensures
        rounds(s, b, 16) == s,
{
    assert(eight_rounds(eight_rounds(s, b), b) == s) by (bit_vector);
    reveal_with_fuel(rounds, 17);
}

/// Rounds in a row can be counted in two parts.
proof fn lemma_rounds_split(s: u8, b: u8, n: nat, m: nat)
    ensures
        rounds(s, b, n + m) == rounds(rounds(s, b, n), b, m),
    decreases m,
{
    if m > 0 {
        lemma_rounds_split(s, b, n, (m - 1) as nat);
        assert((n + m - 1) as nat == n + (m - 1) as nat);
    }
}

/// The 80 rounds of a compression step leave a state byte as it was,
/// whatever the block byte.
pub proof fn lemma_rounds_vanish(s: u8, b: u8)
    ensures
        rounds(s, b, 80) == s,
{
    lemma_sixteen_rounds(s, b);
    lemma_rounds_split(s, b, 16, 16);
    lemma_rounds_split(s, b, 32, 16);
    lemma_rounds_split(s, b, 48, 16);
    lemma_rounds_split(s, b, 64, 16);
}

/// On one state byte, a compression step is the addition of the block byte
/// modulo 256.
pub proof fn lemma_mix_adds(s: u8, b: u8)
    ensures
        mix_byte(s, b) == (s + b) % 256,
{
    lemma_rounds_vanish(s, b);
}

/// The state byte that a compression step with block byte `b` turns into `t`.
pub open spec fn unmix_byte(t: u8, b: u8) -> u8 {
    ((t - b) % 256) as u8
}

/// Adding and subtracting the same byte modulo 256 cancel, in either order.
proof fn lemma_add_then_subtract(s: u8, b: u8)
    ensures
        (((s + b) % 256) - b) % 256 == s,
        (((s - b) % 256) + b) % 256 == s,
{
}

/// Under a fixed block byte, a compression step is a bijection on the 256
/// byte values: `unmix_byte` undoes it, from either side.
pub proof fn lemma_mix_bijective(s: u8, b: u8)
    ensures
        unmix_byte(mix_byte(s, b), b) == s,
        mix_byte(unmix_byte(s, b), b) == s,
{
    let mixed = mix_byte(s, b);
    let unmixed = unmix_byte(s, b);
    lemma_mix_adds(s, b);
    lemma_mix_adds(unmixed, b);
    lemma_add_then_subtract(s, b);
    assert(unmix_byte(mixed, b) == s);
    assert(mix_byte(unmixed, b) == s);
}

/// `n` compression steps in a row on one state byte, all with the same block
/// byte.
pub open spec fn mix_times(s: u8, b: u8, n: nat) -> u8
    decreases n,
{
    if n == 0 {
        s
    } else {
        mix_byte(mix_times(s, b, (n - 1) as nat), b)
    }
}

/// `n` steps with block byte `b` add `n * b` modulo 256.
pub proof fn lemma_mix_times_adds(s: u8, b: u8, n: nat)
    ensures
        mix_times(s, b, n) == (s + n * b) % 256,
    decreases n,
{
    if n > 0 {
        let before = mix_times(s, b, (n - 1) as nat);
        lemma_mix_times_adds(s, b, (n - 1) as nat);
        lemma_mix_adds(before, b);
        assert(n * b == (n - 1) * b + b) by (nonlinear_arith);
    } else {
        assert(n * b == 0) by (nonlinear_arith)
            requires
                n == 0,
        ;
    }
}

/// 256 steps with the same block byte bring a state byte back to where it
/// was: the cycles of a step have lengths that divide 256.
pub proof fn lemma_mix_cycle(s: u8, b: u8)
    ensures
        mix_times(s, b, 256) == s,
{
    lemma_mix_times_adds(s, b, 256);
}

/// A compression step adds the block to the state, position by position and
/// modulo 256: no position sees another.
pub proof fn lemma_compress_adds(state: Seq<u8>, block: Seq<u8>)
    ensures
        compress(state, block).len() == 32,
        forall|i: int|
            0 <= i < 32 ==> #[trigger] compress(state, block)[i] == (state[i] + block[i]) % 256,
{
    assert forall|i: int| 0 <= i < 32 implies #[trigger] compress(state, block)[i] == (state[i]
        + block[i]) % 256 by {
        lemma_mix_adds(state[i], block[i]);
    }
}

/// Absorbing blocks adds their column sums to the state, modulo 256.
pub proof fn lemma_absorb_adds(state: Seq<u8>, m: Seq<u8>, n: nat)
    requires
        state.len() == 32,
    ensures
        absorb(state, m, n).len() == 32,
        forall|i: int|
            0 <= i < 32 ==> #[trigger] absorb(state, m, n)[i] == (state[i] + column_sum(m, i, n))
                % 256,
    decreases n,
{
    if n > 0 {
        let before = absorb(state, m, (n - 1) as nat);
        let block = block_at(m, n - 1);
        lemma_absorb_adds(state, m, (n - 1) as nat);
        lemma_compress_adds(before, block);
        assert forall|i: int| 0 <= i < 32 implies #[trigger] absorb(state, m, n)[i] == (state[i]
            + column_sum(m, i, n)) % 256 by {
            assert(absorb(state, m, n)[i] == (before[i] + block[i]) % 256);
            assert(before[i] == (state[i] + column_sum(m, i, (n - 1) as nat)) % 256);
            lemma_add_in_two_steps(
                state[i] as int,
                column_sum(m, i, (n - 1) as nat),
                block[i] as int,
            );
        }
    }
}

/// A digest is the initial state plus the column sums of the message's
/// blocks, modulo 256.
pub proof fn lemma_digest_is_column_sums(m: Seq<u8>)
    ensures
        digest_spec(m).len() == 32,
        forall|i: int|
            0 <= i < 32 ==> #[trigger] digest_spec(m)[i] == (initial_state()[i] + column_total(
                m,
                i,
            )) % 256,
{
    lemma_absorb_adds(initial_state(), m, block_count(m));
}

/// The blocks of a block-aligned message stay as they are when more bytes
/// follow it.
proof fn lemma_column_sum_prefix(a: Seq<u8>, b: Seq<u8>, i: int, n: nat)
    requires
        a.len() % 32 == 0,
        n <= block_count(a),
        0 <= i < 32,
    ensures
        column_sum(a + b, i, n) == column_sum(a, i, n),
    decreases n,
{
    if n > 0 {
        lemma_column_sum_prefix(a, b, i, (n - 1) as nat);
        assert(block_at(a + b, n - 1) =~= block_at(a, n - 1));
    }
}

/// Behind a block-aligned message, the blocks of what follows are those that
/// it has alone.
proof fn lemma_column_sum_suffix(a: Seq<u8>, b: Seq<u8>, i: int, n: nat)
    requires
        a.len() % 32 == 0,
        0 <= i < 32,
    ensures
        column_sum(a + b, i, block_count(a) + n) == column_total(a, i) + column_sum(b, i, n),
    decreases n,
{
    if n == 0 {
        lemma_column_sum_prefix(a, b, i, block_count(a));
    } else {
        lemma_column_sum_suffix(a, b, i, (n - 1) as nat);
        assert((block_count(a) + n - 1) as nat == block_count(a) + (n - 1) as nat);
        assert(block_at(a + b, block_count(a) + n - 1) =~= block_at(b, n - 1));
    }
}

/// Behind a block-aligned message, a second message is cut into the same
/// blocks as when it stands alone: the column sums add up.
pub proof fn lemma_column_total_concat(a: Seq<u8>, b: Seq<u8>, i: int)
    requires
        a.len() % 32 == 0,
        0 <= i < 32,
    ensures
        column_total(a + b, i) == column_total(a, i) + column_total(b, i),
{
    lemma_column_sum_suffix(a, b, i, block_count(b));
    assert(block_count(a + b) == block_count(a) + block_count(b));
}

/// Adding two numbers modulo 256, one after the other, adds their sum.
proof fn lemma_add_in_two_steps(x: int, c: int, d: int)
    ensures
        ((x + c) % 256 + d) % 256 == (x + (c + d)) % 256,
{
}

/// Absorbing a block-aligned message and then a second one gives the state
/// that absorbing the two as one message gives.
pub proof fn lemma_absorb_concat(state: Seq<u8>, a: Seq<u8>, b: Seq<u8>)
    requires
        state.len() == 32,
        a.len() % 32 == 0,
    ensures
        absorb_all(state, a + b) == absorb_all(absorb_all(state, a), b),
{
    let middle = absorb_all(state, a);
    lemma_absorb_adds(state, a, block_count(a));
    lemma_absorb_adds(state, a + b, block_count(a + b));
    lemma_absorb_adds(middle, b, block_count(b));
    assert forall|i: int| 0 <= i < 32 implies absorb_all(state, a + b)[i] == absorb_all(
        middle,
        b,
    )[i] by {
        lemma_column_total_concat(a, b, i);
        lemma_add_in_two_steps(state[i] as int, column_total(a, i), column_total(b, i));
    }
    assert(absorb_all(state, a + b) =~= absorb_all(middle, b));
}

/// `n` copies of a block-aligned unit have `n` times its length and `n`
/// times its column sums.
pub proof fn lemma_column_total_repeat(unit: Seq<u8>, n: nat, i: int)
    requires
        unit.len() % 32 == 0,
        0 <= i < 32,
    ensures
        repeat(unit, n).len() == n * unit.len(),
        repeat(unit, n).len() % 32 == 0,
        column_total(repeat(unit, n), i) == n * column_total(unit, i),
    decreases n,
{
    if n > 0 {
        let head = repeat(unit, (n - 1) as nat);
        lemma_column_total_repeat(unit, (n - 1) as nat, i);
        lemma_column_total_concat(head, unit, i);
        assert(n * unit.len() == (n - 1) * unit.len() + unit.len()) by (nonlinear_arith);
        assert(n * column_total(unit, i) == (n - 1) * column_total(unit, i) + column_total(
            unit,
            i,
        )) by (nonlinear_arith);
    } else {
        assert(n * unit.len() == 0) by (nonlinear_arith)
            requires
                n == 0,
        ;
        assert(n * column_total(unit, i) == 0) by (nonlinear_arith)
            requires
                n == 0,
        ;
    }
}

/// The message that the generator makes has the digest of the empty message,
/// the initial state, whatever it was made from.
pub proof fn lemma_collide_digest(m: Seq<u8>)
    ensures
        digest_spec(collide_spec(m)) == initial_state(),
{
    let unit = zero_pad(m);
    let c = collide_spec(m);
    lemma_digest_is_column_sums(c);
    assert forall|i: int| 0 <= i < 32 implies digest_spec(c)[i] == initial_state()[i] by {
        lemma_column_total_repeat(unit, 256, i);
        assert(digest_spec(c)[i] == (initial_state()[i] + column_total(c, i)) % 256);
    }
    assert(digest_spec(c) =~= initial_state());
}

/// Adding to a byte modulo 256 leaves it unchanged exactly when a multiple of
/// 256 is added.
proof fn lemma_byte_unchanged(x: u8, c: int)
    ensures
        ((x + c) % 256 == x) <==> (c % 256 == 0),
{
}

/// A message and the message that the generator makes of it have the same
/// digest exactly when every column of the message's blocks sums to a multiple
/// of 256.
pub proof fn lemma_collision_exactly_when(m: Seq<u8>)
    ensures
        digest_spec(m) == digest_spec(collide_spec(m)) <==> columns_cancel(m),
{
    let d = digest_spec(m);
    let iv = initial_state();
    lemma_collide_digest(m);
    lemma_digest_is_column_sums(m);
    assert(iv.len() == 32);
    assert forall|i: int| 0 <= i < 32 implies (d[i] == iv[i] <==> #[trigger] column_total(m, i)
        % 256 == 0) by {
        lemma_byte_unchanged(iv[i], column_total(m, i));
    }
    if columns_cancel(m) {
        assert(d =~= iv);
    }
}

/// The collision: where the columns of a message's blocks cancel, the message
/// and the generator's message have the same digest.
pub proof fn lemma_collision(m: Seq<u8>)
    requires
        columns_cancel(m),
    ensures
        digest_spec(m) == digest_spec(collide_spec(m)),
{
    lemma_collision_exactly_when(m);
}

/// The digest depends on the bytes of the message and on nothing else: two
/// messages with the same bytes have the same digest.
pub proof fn lemma_digest_deterministic(a: Seq<u8>, b: Seq<u8>)
    requires
        a.len() == b.len(),
        forall|i: int| 0 <= i < a.len() ==> a[i] == b[i],
    ensures
        digest_spec(a) == digest_spec(b),
{
    assert(a =~= b);
}

/// A message of 31 bytes is one block: its bytes, then 31 at position 31. A
/// message of 32 bytes is one block too: the message as it stands.
pub proof fn lemma_padding_boundary(m: Seq<u8>)
    ensures
        m.len() == 31 ==> block_count(m) == 1 && block_at(m, 0).len() == 32 && block_at(m, 0)[31]
            == 31 && forall|i: int| 0 <= i < 31 ==> block_at(m, 0)[i] == m[i],
        m.len() == 32 ==> block_count(m) == 1 && block_at(m, 0) == m,
{
    if m.len() == 32 {
        assert(block_at(m, 0) =~= m);
    }
}

/// The generator's message is 256 times as long as the message rounded up to
/// whole blocks, where the message is not block-aligned, and empty where it
/// is.
pub proof fn lemma_collide_len(m: Seq<u8>)
    ensures
        m.len() % 32 != 0 ==> collide_spec(m).len() == 256 * round_up(m.len()),
        m.len() % 32 == 0 ==> collide_spec(m).len() == 0,
{
    lemma_column_total_repeat(zero_pad(m), 256, 0);
}

} // verus!
