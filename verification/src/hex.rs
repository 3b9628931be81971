//! A digest written out as lowercase hexadecimal text.

use vstd::prelude::*;

verus! {

/// The sixteen lowercase hexadecimal digits, in order of their value.
pub open spec fn hex_alphabet() -> Seq<char> {
    seq!['0', '1', '2', '3', '4', '5', '6', '7', '8', '9', 'a', 'b', 'c', 'd', 'e', 'f']
}

/// The text of a byte sequence: for each byte two digits, the high four bits
/// first.
pub open spec fn hex_spec(bytes: Seq<u8>) -> Seq<char> {
    Seq::new(
        2 * bytes.len(),
        |k: int|
            if k % 2 == 0 {
                hex_alphabet()[bytes[k / 2] as int / 16]
            } else {
                hex_alphabet()[bytes[k / 2] as int % 16]
            },
    )
}

/// The digit of a value below 16.
pub fn hex_digit(value: u8) -> (digit: char)
    requires
        value < 16,
    ensures
        digit == hex_alphabet()[value as int],
{
    if value < 10 {
        (48u8 + value) as char
    } else {
        (87u8 + value) as char
    }
}

/// `String::push` of std: the text afterwards is the text before with `c`
/// as one more character at its end.
#[verifier::external_body]
fn push_char(text: &mut String, c: char)
    ensures
        final(text)@ == old(text)@.push(c),
{
    text.push(c)
}

/// The digest as 64 lowercase hexadecimal digits.
pub fn to_hex(digest: &[u8; 32]) -> (text: String)
    ensures
        text@ == hex_spec(digest@),
        text@.len() == 64,
{
    let mut text = String::new();
    let mut i: usize = 0;
    while i < 32
        invariant
            i <= 32,
            text@ == hex_spec(digest@.subrange(0, i as int)),
        decreases 32 - i,
    {
        let byte: u8 = digest[i];
        push_char(&mut text, hex_digit(byte / 16));
        push_char(&mut text, hex_digit(byte % 16));
        i += 1;
        assert(text@ =~= hex_spec(digest@.subrange(0, i as int)));
    }
    assert(digest@.subrange(0, 32) =~= digest@);
    text
}

} // verus!
