use smchash::encoding::{read_le_u32, u32_to_le, u64_to_le};
use smchash::hash_to_hex;
use smchash::hex::hex_digit;

#[test]
fn u32_is_encoded_least_significant_byte_first() {
    assert_eq!(u32_to_le(0x04030201), [1, 2, 3, 4]);
    assert_eq!(u32_to_le(0), [0, 0, 0, 0]);
    assert_eq!(u32_to_le(0xffffffff), [0xff, 0xff, 0xff, 0xff]);
    assert_eq!(u32_to_le(0x80000000), [0, 0, 0, 0x80]);
    assert_eq!(u32_to_le(0xdeadbeef), 0xdeadbeefu32.to_le_bytes());
}

#[test]
fn u64_is_encoded_least_significant_byte_first() {
    assert_eq!(u64_to_le(0x0807060504030201), [1, 2, 3, 4, 5, 6, 7, 8]);
    assert_eq!(u64_to_le(0), [0; 8]);
    assert_eq!(u64_to_le(u64::MAX), [0xff; 8]);
    assert_eq!(u64_to_le(0x8000000000000000), [0, 0, 0, 0, 0, 0, 0, 0x80]);
    assert_eq!(u64_to_le(0x0123456789abcdef), 0x0123456789abcdefu64.to_le_bytes());
}

#[test]
fn u32_is_read_at_an_offset() {
    let bytes = [0xaau8, 1, 2, 3, 4, 0xbb, 0xff, 0xff, 0xff, 0xff];
    assert_eq!(read_le_u32(&bytes, 1), 0x04030201);
    assert_eq!(read_le_u32(&bytes, 0), 0x030201aa);
    assert_eq!(read_le_u32(&bytes, 6), 0xffffffff);
    assert_eq!(read_le_u32(&u32_to_le(0xdeadbeef), 0), 0xdeadbeef);
}

#[test]
fn hex_digits_are_lowercase() {
    let digits = "0123456789abcdef";
    for (value, digit) in digits.chars().enumerate() {
        assert_eq!(hex_digit(value as u8), digit);
    }
}

#[test]
fn hex_has_two_digits_per_byte_in_byte_order() {
    let hash = [
        0x00u8, 0x01, 0x0a, 0x0f, 0x10, 0x7f, 0x80, 0x9a, 0xa9, 0xab, 0xcd, 0xef, 0xf0, 0xfe,
        0xff, 0x42,
    ];
    assert_eq!(hash_to_hex(&hash), "00010a0f107f809aa9abcdeff0feff42");
    assert_eq!(hash_to_hex(&[0u8; 16]), "00000000000000000000000000000000");
    assert_eq!(hash_to_hex(&[0xffu8; 16]), "ffffffffffffffffffffffffffffffff");
}
