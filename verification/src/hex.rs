//! Lowercase hexadecimal presentation of a hash.

use vstd::prelude::*;

verus! {

/// The lowercase hexadecimal digit of a value from 0 to 15.
pub open spec fn hex_digit_spec(value: u8) -> char
    recommends
        value < 16,
{
    if value < 10 {
        (0x30 + value) as char
    } else {
        (0x61 + value - 10) as char
    }
}

/// Two digits for each byte, the high four bits first, in byte order.
pub open spec fn hex_of(bytes: Seq<u8>) -> Seq<char> {
    Seq::new(
        2 * bytes.len(),
        |i: int| if i % 2 == 0 {
            hex_digit_spec(bytes[i / 2] / 16)
        } else {
            hex_digit_spec(bytes[i / 2] % 16)
        },
    )
}

/// `String::push` of the standard library: it appends one character to the
/// end of the string and changes nothing else.
pub assume_specification[ String::push ](s: &mut String, ch: char)
    ensures
        final(s)@ == old(s)@.push(ch),
;

/// The lowercase hexadecimal digit of `value`.
pub fn hex_digit(value: u8) -> (digit: char)
    requires
        value < 16,
    ensures
        digit == hex_digit_spec(value),
{
    if value < 10 {
        (0x30 + value) as char
    } else {
        (0x61 + value - 10) as char
    }
}

/// The hash in lowercase hexadecimal: 32 characters.
pub fn hash_to_hex(hash: &[u8; 16]) -> (hex: String)
    ensures
        hex@ == hex_of(hash@),
        hex@.len() == 32,
{
    let mut hex = String::new();
    let mut i: usize = 0;
    while i < 16
        invariant
            i <= 16,
            hex@ == hex_of(hash@.subrange(0, i as int)),
        decreases 16 - i,
    {
        let byte = hash[i];
        hex.push(hex_digit(byte / 16));
        hex.push(hex_digit(byte % 16));
        assert(hex@ =~= hex_of(hash@.subrange(0, i + 1)));
        i += 1;
    }
    assert(hash@.subrange(0, 16) =~= hash@);
    hex
}

} // verus!
