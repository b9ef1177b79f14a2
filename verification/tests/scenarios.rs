use bloom::{Bloom, BloomError};

#[test]
fn test_bloom_filter() {
    let mut bloom = Bloom::new(10).unwrap();

    bloom.insert("Hello");
    assert!(bloom.contains_maybe("Hello"));

    assert!(!bloom.contains_maybe("Hi"));
}

#[test]
fn test_multiple_inserts() {
    let items = [
        "the", "quick", "brown", "fox", "jumped", "over", "the", "lazy", "dog",
    ];
    let mut bloom = Bloom::new(10).unwrap();

    for item in items.iter() {
        bloom.insert(item);
    }

    for item in items.iter() {
        assert!(bloom.contains_maybe(item));
    }

    for item in items.iter() {
        assert!(!bloom.contains_maybe(&format!("no {}", item)));
    }
}

#[test]
fn zero_words_are_refused() {
    assert_eq!(Bloom::new(0).err(), Some(BloomError::InvalidCapacity));
}

#[test]
fn more_words_than_a_vector_holds_are_refused() {
    let most = isize::MAX as usize / 8;
    assert_eq!(Bloom::new(most + 1).err(), Some(BloomError::InvalidCapacity));
    assert_eq!(Bloom::new(usize::MAX).err(), Some(BloomError::InvalidCapacity));
}

#[test]
fn one_word_holds_one_element() {
    let mut bloom = Bloom::new(1).unwrap();
    bloom.insert("Hello");
    assert!(bloom.contains_maybe("Hello"));
    // FNV-1a of "Hello" and the string terminator 0xff is 0x922546e07c5a787c.
    assert_eq!(format!("{:?}", bloom), "Bloom { filter: [16] }");
}

#[test]
fn fresh_filter_holds_only_zero_words() {
    let bloom = Bloom::new(3).unwrap();
    assert_eq!(format!("{:?}", bloom), "Bloom { filter: [0, 0, 0] }");
    for digest in 0..24u64 {
        assert!(!bloom.contains_hash(digest));
    }
}

#[test]
fn string_digest_is_fnv1a() {
    let mut bloom = Bloom::new(1000).unwrap();
    bloom.insert("Hello");
    // 0x922546e07c5a787c % 8000 == 7420
    for slot in 0..8000u64 {
        assert_eq!(bloom.contains_hash(slot), slot == 7420);
    }
    assert!(bloom.contains_hash(0x922546e07c5a787c));
}

#[test]
fn integer_digest_is_fnv1a_of_its_bytes() {
    let mut bloom = Bloom::new(10).unwrap();
    let digest = fnv1a(&42u32.to_ne_bytes());
    bloom.insert(42u32);
    assert!(bloom.contains_maybe(42u32));
    assert!(bloom.contains_hash(digest));
    for slot in 0..80u64 {
        assert_eq!(bloom.contains_hash(slot), slot == digest % 80);
    }
}

#[test]
fn colliding_strings_give_a_false_positive() {
    // "h" and "x" both fall on slot 0 of a one-word filter.
    let mut bloom = Bloom::new(1).unwrap();
    assert!(!bloom.contains_maybe("x"));
    bloom.insert("h");
    assert!(bloom.contains_maybe("x"));
    assert!(!bloom.contains_maybe("c"));
}

#[test]
fn words_and_bits_of_chosen_digests() {
    let bloom = Bloom::new(10).unwrap();
    assert_eq!(bloom.bit_index(0), (0, 0));
    assert_eq!(bloom.bit_index(3), (0, 3));
    assert_eq!(bloom.bit_index(8), (1, 0));
    assert_eq!(bloom.bit_index(79), (9, 7));
    assert_eq!(bloom.bit_index(80), (0, 0));
    assert_eq!(bloom.bit_index(83), (0, 3));
    assert_eq!(bloom.bit_index(u64::MAX), (1, 7));
    assert_eq!(bloom.bit_index(0x922546e07c5a787c), (7, 4));
}

#[test]
fn insertion_sets_one_bit_of_a_low_byte() {
    let mut bloom = Bloom::new(2).unwrap();
    bloom.insert_into(3);
    assert_eq!(format!("{:?}", bloom), "Bloom { filter: [8, 0] }");
    bloom.insert_into(15);
    assert_eq!(format!("{:?}", bloom), "Bloom { filter: [8, 128] }");
    bloom.insert_into(16 + 7);
    assert_eq!(format!("{:?}", bloom), "Bloom { filter: [136, 128] }");
    bloom.insert_into(u64::MAX);
    assert_eq!(format!("{:?}", bloom), "Bloom { filter: [136, 128] }");
}

#[test]
fn lookup_answers_for_the_slot_alone() {
    let mut bloom = Bloom::new(10).unwrap();
    bloom.insert_into(83);
    for digest in 0..80u64 {
        assert_eq!(bloom.contains_hash(digest), digest == 3);
    }
    assert!(bloom.contains_hash(83));
    assert!(bloom.contains_hash(163));
    assert!(!bloom.contains_hash(84));
}

fn fnv1a(bytes: &[u8]) -> u64 {
    let mut hash: u64 = 0xcbf29ce484222325;
    for byte in bytes {
        hash ^= u64::from(*byte);
        hash = hash.wrapping_mul(0x100000001b3);
    }
    hash
}
