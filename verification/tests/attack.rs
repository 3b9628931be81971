use quickcheck::QuickCheck;
use xor_hash::{xor_hash, xor_hash_attack};

const START: [u8; 32] = [
    0x6a, 0x09, 0xe6, 0x67, 0xbb, 0x67, 0xae, 0x85, 0x3c, 0x6e, 0xf3, 0x72, 0xa5, 0x4f, 0xf5, 0x3a,
    0x51, 0x0e, 0x52, 0x7f, 0x9b, 0x05, 0x68, 0x8c, 0x1f, 0x83, 0xd9, 0xab, 0x5b, 0xe0, 0xcd, 0x19,
];

/// Whether every column of the message's blocks, the padded last one
/// included, sums to a multiple of 256.
fn columns_cancel(data: &[u8]) -> bool {
    let mut sums: [u8; 32] = [0u8; 32];
    for chunk in data.chunks(32) {
        for (i, byte) in chunk.iter().enumerate() {
            sums[i] = sums[i].wrapping_add(*byte);
        }
        if chunk.len() < 32 {
            sums[31] = sums[31].wrapping_add(chunk.len() as u8);
        }
    }
    sums == [0u8; 32]
}

fn varied_bytes(len: usize, seed: u32) -> Vec<u8> {
    let mut state: u32 = seed;
    let mut data: Vec<u8> = Vec::new();
    for _ in 0..len {
        state = state.wrapping_mul(1664525).wrapping_add(1013904223);
        data.push((state >> 24) as u8);
    }
    data
}

/// What holds of every message: the generator's message digests to the
/// initial state, and so collides with the message exactly when the
/// message's own columns cancel.
fn attack_law(data: Vec<u8>) -> bool {
    let attack = xor_hash_attack(&data);
    let collides = xor_hash(&data) == xor_hash(&attack);
    xor_hash(&attack) == START && collides == columns_cancel(&data)
}

#[test]
fn test_xor_attack() {
    QuickCheck::new().quickcheck(attack_law as fn(Vec<u8>) -> bool);
}

#[test]
fn attack_demo() {
    let data = [0, 0, 0, 0, 0, 0, 0, 0, 0, 0, 0, 0, 0, 0, 0, 0, 0, 0, 0, 0, 0, 0, 0, 0, 0, 0, 0, 0, 0, 0, 0, 1, 0];
    println!("{}", data.len());
    let attack = xor_hash_attack(&data);
    println!("{:?}", attack.len());
    println!("{:?}", xor_hash(&data));
    println!("{:?}", xor_hash(&attack));
    assert_eq!(data.len(), 33);
    assert_eq!(attack.len(), 16384);
    let mut expected: [u8; 32] = START;
    expected[31] = 0x1b;
    assert_eq!(xor_hash(&data), expected);
    assert_eq!(xor_hash(&attack), START);
}

#[test]
fn attack_law_at_named_lengths() {
    let lengths: [usize; 8] = [0, 1, 31, 32, 33, 63, 64, 10001];
    for len in lengths {
        assert!(attack_law(varied_bytes(len, 17 + len as u32)), "length {}", len);
    }
}

#[test]
fn empty_message_collides_with_its_attack() {
    let attack = xor_hash_attack(&[]);
    assert!(attack.is_empty());
    assert_eq!(xor_hash(&[]), xor_hash(&attack));
}

#[test]
fn single_byte_attack_is_the_padded_block_256_times() {
    let attack = xor_hash_attack(&[1]);
    assert_eq!(attack.len(), 8192);
    let mut unit: [u8; 32] = [0u8; 32];
    unit[0] = 1;
    for copy in attack.chunks(32) {
        assert_eq!(copy, &unit[..]);
    }
    // The digest's own padding writes the length 1 at position 31 of the
    // message's only block. The generator's zero padding does not, and 256
    // copies add nothing: the two digests differ at positions 0 and 31.
    let mut expected: [u8; 32] = START;
    expected[0] = 0x6b;
    expected[31] = 0x1a;
    assert_eq!(xor_hash(&[1]), expected);
    assert_eq!(xor_hash(&attack), START);
    assert_ne!(xor_hash(&[1]), xor_hash(&attack));
    assert!(!columns_cancel(&[1]));
}

#[test]
fn cancelling_message_collides() {
    // One full block, then a rest of one byte. The rest's padded block is
    // [7, 0, .., 0, 1]; the full block holds what brings each column to 256.
    let mut data: Vec<u8> = vec![0u8; 33];
    data[0] = 249;
    data[31] = 255;
    data[32] = 7;
    assert!(columns_cancel(&data));
    let attack = xor_hash_attack(&data);
    assert_eq!(attack.len(), 16384);
    assert_ne!(attack, data);
    assert_eq!(xor_hash(&data), xor_hash(&attack));
    assert_eq!(xor_hash(&data), START);
}

#[test]
fn attack_length_is_256_times_the_rounded_length() {
    let lengths: [usize; 7] = [1, 31, 33, 63, 65, 100, 1000];
    for len in lengths {
        let rounded: usize = (len + 31) / 32 * 32;
        let attack = xor_hash_attack(&varied_bytes(len, 5));
        assert_eq!(attack.len(), 256 * rounded, "length {}", len);
    }
    assert_eq!(xor_hash_attack(&varied_bytes(33, 5)).len(), 16384);
}

#[test]
fn attack_repeats_the_zero_padded_message() {
    let data = varied_bytes(45, 99);
    let attack = xor_hash_attack(&data);
    assert_eq!(attack.len(), 256 * 64);
    for copy in attack.chunks(64) {
        assert_eq!(&copy[..45], &data[..]);
        assert_eq!(&copy[45..], &[0u8; 19][..]);
    }
}

#[test]
fn aligned_message_yields_empty_attack() {
    // A block-aligned message gets no padding, and the generator repeats
    // the padded unit only, so nothing is repeated: the result is empty, not
    // 256 copies of the message. It collides with the message only where the
    // message digests to the initial state.
    let data = varied_bytes(32, 1);
    assert!(xor_hash_attack(&data).is_empty());
    assert!(xor_hash_attack(&varied_bytes(64, 2)).is_empty());
    assert_ne!(xor_hash(&data), xor_hash(&xor_hash_attack(&data)));
    let zeros: Vec<u8> = vec![0u8; 32];
    assert!(xor_hash_attack(&zeros).is_empty());
    assert_eq!(xor_hash(&zeros), xor_hash(&xor_hash_attack(&zeros)));
}

#[test]
fn attack_does_not_depend_on_the_digest_state() {
    let data = varied_bytes(50, 3);
    assert_eq!(xor_hash_attack(&data), xor_hash_attack(&data));
}
