use xor_hash::hex::hex_digit;
use xor_hash::{to_hex, xor_hash};

#[test]
fn hello_world_digest_in_hex() {
    let data = String::from("Hello, World!").into_bytes();
    let text = to_hex(&xor_hash(&data));
    assert_eq!(text, "b26e52d32a93cedcabe05fd6c64ff53a510e527f9b05688c1f83d9ab5be0cd26");
    assert_eq!(text.len(), 64);
    assert!(text.chars().all(|c| c.is_ascii_digit() || ('a'..='f').contains(&c)));
}

#[test]
fn hex_matches_std_formatting() {
    let mut bytes: [u8; 32] = [0u8; 32];
    for i in 0..32usize {
        bytes[i] = (i * 8 + (i % 7)) as u8;
    }
    bytes[30] = 0x0f;
    bytes[31] = 0xff;
    let mut expected = String::new();
    for byte in bytes.iter() {
        expected.push_str(&format!("{:02x}", byte));
    }
    assert_eq!(to_hex(&bytes), expected);
}

#[test]
fn hex_of_zero_digest_keeps_leading_zeros() {
    assert_eq!(to_hex(&[0u8; 32]), "0".repeat(64));
}

#[test]
fn hex_digits_are_lowercase() {
    let expected: [char; 16] =
        ['0', '1', '2', '3', '4', '5', '6', '7', '8', '9', 'a', 'b', 'c', 'd', 'e', 'f'];
    for value in 0..16u8 {
        assert_eq!(hex_digit(value), expected[value as usize]);
    }
}
