use smchash::digest::{constant_time_eq, serialize_state};
use smchash::{hash_to_hex, SMCHash};

fn repeated(byte: u8, count: usize) -> Vec<u8> {
    let mut bytes = Vec::new();
    for _ in 0..count {
        bytes.push(byte);
    }
    bytes
}

fn counting(count: usize) -> Vec<u8> {
    let mut bytes = Vec::new();
    for i in 0..count {
        bytes.push((i % 256) as u8);
    }
    bytes
}

#[test]
fn test_empty_string() {
    let hash = SMCHash::hash("".as_bytes());
    assert_eq!(hash_to_hex(&hash).len(), 32); // 16 bytes = 32 hex chars
}

#[test]
fn test_verification() {
    let data = "test data for verification".as_bytes();
    let hash = SMCHash::hash(data);
    assert!(SMCHash::verify(data, &hash));

    // Modify data and ensure verification fails
    let modified_data = "test data for verificationX".as_bytes();
    assert!(!SMCHash::verify(modified_data, &hash));
}

#[test]
fn test_different_inputs_produce_different_hashes() {
    let hash1 = SMCHash::hash("input1".as_bytes());
    let hash2 = SMCHash::hash("input2".as_bytes());
    assert_ne!(hash1, hash2);
}

#[test]
fn empty_message_has_known_digest() {
    let hash = SMCHash::hash(b"");
    assert_eq!(hash.len(), 16);
    assert_eq!(hash_to_hex(&hash), "00c80a553f1fff3620b0c2480b083c10");
}

#[test]
fn short_messages_have_known_digests() {
    assert_eq!(hash_to_hex(&SMCHash::hash(b"abc")), "e8534d96b7ad7c606046c34b56065de3");
    assert_eq!(hash_to_hex(&SMCHash::hash(b"input1")), "af7590f3f1ff0ed9ada315d5a92f3f16");
    assert_eq!(hash_to_hex(&SMCHash::hash(b"input2")), "6cbc4b4e333c7ddb1cc6dc8ab4dd537d");
    assert_eq!(
        hash_to_hex(&SMCHash::hash(b"test data for verification")),
        "ec58785a5c76abfb1dd1ef0a1849a2b3"
    );
}

#[test]
fn padding_fits_one_chunk_up_to_55_bytes() {
    assert_eq!(
        hash_to_hex(&SMCHash::hash(&repeated(b'a', 55))),
        "d569fee00b3af292dc37fd74f8d50aa6"
    );
}

#[test]
fn padding_spills_into_a_second_chunk_from_56_bytes() {
    assert_eq!(
        hash_to_hex(&SMCHash::hash(&repeated(b'a', 56))),
        "7665dfea40b2d32a57d476dcb773f7da"
    );
    assert_eq!(
        hash_to_hex(&SMCHash::hash(&repeated(b'a', 63))),
        "9c7be287d647dce43955f915b94c0d42"
    );
}

#[test]
fn messages_around_chunk_boundaries_have_known_digests() {
    assert_eq!(
        hash_to_hex(&SMCHash::hash(&repeated(b'a', 64))),
        "cc6711079c98e072066a63410481990b"
    );
    assert_eq!(
        hash_to_hex(&SMCHash::hash(&repeated(b'a', 65))),
        "096a8b29b6fdfa78da9836ddef66a55a"
    );
    assert_eq!(
        hash_to_hex(&SMCHash::hash(&repeated(b'a', 119))),
        "eaa65c73b348312a7439531b95534360"
    );
    assert_eq!(
        hash_to_hex(&SMCHash::hash(&repeated(b'a', 120))),
        "e0b485b462feb1967f7810bddfe25d74"
    );
    assert_eq!(
        hash_to_hex(&SMCHash::hash(&repeated(b'a', 128))),
        "0a7a7eaa75d8a4a8e1100a0a9cb0e16c"
    );
    assert_eq!(hash_to_hex(&SMCHash::hash(&counting(200))), "ab3945f01523901c0780839d175f648d");
}

#[test]
fn digest_is_the_same_on_every_call() {
    let data = counting(300);
    let first = SMCHash::hash(&data);
    let second = SMCHash::hash(&data);
    assert_eq!(first, second);
}

#[test]
fn update_in_pieces_gives_the_digest_of_the_whole() {
    let data = counting(200);
    let whole = SMCHash::hash(&data);
    for cut in [0usize, 1, 63, 64, 65, 127, 128, 199, 200] {
        let mut hasher = SMCHash::new();
        hasher.update(&data[..cut]);
        hasher.update(&data[cut..]);
        assert_eq!(hasher.finalize(), whole);
    }
    let mut hasher = SMCHash::new();
    for byte in data.iter() {
        hasher.update(&[*byte]);
    }
    assert_eq!(hasher.finalize(), whole);
}

#[test]
fn update_with_nothing_changes_nothing() {
    let mut hasher = SMCHash::new();
    hasher.update(b"");
    hasher.update(b"abc");
    hasher.update(b"");
    assert_eq!(hasher.finalize(), SMCHash::hash(b"abc"));
}

#[test]
fn new_engine_finalizes_to_the_empty_digest() {
    assert_eq!(SMCHash::new().finalize(), SMCHash::hash(b""));
}

#[test]
fn verify_accepts_the_digest_of_the_data() {
    for len in [0usize, 1, 55, 56, 64, 100] {
        let data = counting(len);
        let hash = SMCHash::hash(&data);
        assert!(SMCHash::verify(&data, &hash));
    }
}

#[test]
fn verify_rejects_data_with_one_byte_appended() {
    let data = counting(70);
    let hash = SMCHash::hash(&data);
    let mut longer = data.clone();
    longer.push(0);
    assert!(!SMCHash::verify(&longer, &hash));
}

#[test]
fn verify_rejects_a_hash_that_differs_in_any_one_byte() {
    let data = b"abc";
    let hash = SMCHash::hash(data);
    for i in 0..16 {
        let mut other = hash;
        other[i] ^= 1;
        assert!(!SMCHash::verify(data, &other));
    }
}

#[test]
fn constant_time_eq_compares_all_bytes() {
    let left = [7u8; 16];
    assert!(constant_time_eq(&left, &left));
    for i in 0..16 {
        let mut right = left;
        right[i] = 8;
        assert!(!constant_time_eq(&left, &right));
    }
    let mut right = left;
    right[0] = 0xf7;
    right[15] = 0x0f;
    assert!(!constant_time_eq(&left, &right));
}

#[test]
fn state_is_serialized_word_by_word_least_significant_byte_first() {
    let state = [0x03020100u32, 0x07060504, 0x0b0a0908, 0x0f0e0d0c];
    let bytes = serialize_state(&state);
    assert_eq!(bytes, [0, 1, 2, 3, 4, 5, 6, 7, 8, 9, 10, 11, 12, 13, 14, 15]);
}
