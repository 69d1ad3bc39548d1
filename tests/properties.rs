use bitmap::Bitmap;

#[test]
fn zero_request_gets_minimum_capacity() {
    let bitmap = Bitmap::new(0);
    assert_eq!(bitmap.bit_size(), 64);
    assert_eq!(bitmap.size(), 1);
    assert_eq!(bitmap.find_free_slot(), Some(0usize));
}

#[test]
fn capacity_is_smallest_power_of_two() {
    let cases: [(usize, usize); 9] = [
        (1, 64),
        (63, 64),
        (64, 64),
        (65, 128),
        (127, 128),
        (128, 128),
        (129, 256),
        (1000, 1024),
        (4096, 4096),
    ];
    for (requested, expected) in cases {
        let bitmap = Bitmap::new(requested);
        assert_eq!(bitmap.bit_size(), expected);
        assert_eq!(bitmap.size(), expected / 64);
        assert_eq!(bitmap.bit_size() % 64, 0);
    }
}

#[test]
fn large_request_rounds_up() {
    let bitmap = Bitmap::new((1usize << 20) + 1);
    assert_eq!(bitmap.bit_size(), 1usize << 21);
    assert_eq!(bitmap.size(), 1usize << 15);
}

#[test]
fn set_then_test_and_clear_then_test() {
    let mut bitmap = Bitmap::new(128);
    for i in [0usize, 1, 63, 64, 65, 127] {
        assert!(!bitmap.is_set(i));
        bitmap.set_bit(i);
        assert!(bitmap.is_set(i));
        bitmap.unset_bit(i);
        assert!(!bitmap.is_set(i));
    }
}

#[test]
fn setting_one_bit_leaves_neighbours() {
    let mut bitmap = Bitmap::new(128);
    bitmap.set_bit(64);
    assert!(bitmap.is_set(64));
    assert!(!bitmap.is_set(63));
    assert!(!bitmap.is_set(65));
    assert!(!bitmap.is_set(0));
    bitmap.set_bit(63);
    bitmap.unset_bit(64);
    assert!(bitmap.is_set(63));
    assert!(!bitmap.is_set(64));
}

#[test]
fn set_and_unset_are_idempotent() {
    let mut once = Bitmap::new(64);
    let mut twice = Bitmap::new(64);
    once.set_bit(5);
    twice.set_bit(5);
    twice.set_bit(5);
    for i in 0..64 {
        assert_eq!(once.is_set(i), twice.is_set(i));
    }
    once.unset_bit(5);
    twice.unset_bit(5);
    twice.unset_bit(5);
    for i in 0..64 {
        assert_eq!(once.is_set(i), twice.is_set(i));
    }
    assert_eq!(once.find_free_slot(), Some(0usize));
}

#[test]
fn full_bitmap_has_no_free_slot() {
    let mut bitmap = Bitmap::new(64);
    for i in 0..64 {
        bitmap.set_bit(i);
    }
    assert_eq!(bitmap.find_free_slot(), None);
}

#[test]
fn search_skips_full_words() {
    let mut bitmap = Bitmap::new(256);
    for i in 0..130 {
        bitmap.set_bit(i);
    }
    assert_eq!(bitmap.find_free_slot(), Some(130usize));
    bitmap.unset_bit(77);
    assert_eq!(bitmap.find_free_slot(), Some(77usize));
}

#[test]
fn last_bit_is_found() {
    let mut bitmap = Bitmap::new(128);
    for i in 0..127 {
        bitmap.set_bit(i);
    }
    assert_eq!(bitmap.find_free_slot(), Some(127usize));
    bitmap.set_bit(127);
    assert_eq!(bitmap.find_free_slot(), None);
}

#[test]
fn reserved_prefix_is_never_found() {
    let mut bitmap = Bitmap::new_with_reserved(64, 10);
    assert_eq!(bitmap.find_free_slot(), Some(10usize));
    bitmap.set_bit(3);
    assert!(bitmap.is_set(3));
    bitmap.unset_bit(3);
    assert!(!bitmap.is_set(3));
    for i in 10..64 {
        bitmap.set_bit(i);
    }
    assert_eq!(bitmap.find_free_slot(), None);
}

#[test]
fn reserved_prefix_may_reach_past_minimum() {
    let bitmap = Bitmap::new_with_reserved(100, 99);
    assert_eq!(bitmap.bit_size(), 128);
    assert_eq!(bitmap.find_free_slot(), Some(99usize));
}
