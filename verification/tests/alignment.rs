use trl::memory_alignment::MemoryAlignment;

#[test]
fn new_accepts_every_power_of_two() {
    let mut shift = 0;
    while shift < usize::BITS {
        let value = 1usize << shift;
        let align = MemoryAlignment::new(value).expect("a power of two is an alignment");
        assert_eq!(align.as_usize(), value);
        shift += 1;
    }
}

#[test]
fn new_rejects_zero() {
    assert!(MemoryAlignment::new(0).is_none());
}

#[test]
fn new_rejects_what_is_no_power_of_two() {
    for value in [3usize, 5, 6, 7, 12, 24, 100, 1023, 1025, usize::MAX, usize::MAX - 1] {
        assert!(MemoryAlignment::new(value).is_none(), "{} was accepted", value);
    }
}

#[test]
fn new_unchecked_keeps_the_value() {
    assert_eq!(MemoryAlignment::new_unchecked(1).as_usize(), 1);
    assert_eq!(MemoryAlignment::new_unchecked(4096).as_usize(), 4096);
    let largest = 1usize << (usize::BITS - 1);
    assert_eq!(MemoryAlignment::new_unchecked(largest).as_usize(), largest);
}

#[test]
fn of_is_the_natural_alignment() {
    assert_eq!(MemoryAlignment::of::<u8>().as_usize(), std::mem::align_of::<u8>());
    assert_eq!(MemoryAlignment::of::<u64>().as_usize(), std::mem::align_of::<u64>());
    assert_eq!(MemoryAlignment::of::<(u8, u32)>().as_usize(), std::mem::align_of::<(u8, u32)>());
    assert_eq!(MemoryAlignment::of::<()>().as_usize(), 1);
}

#[test]
fn alignments_compare_by_value() {
    assert_eq!(MemoryAlignment::new(8), Some(MemoryAlignment::new_unchecked(8)));
    assert_ne!(MemoryAlignment::new_unchecked(8), MemoryAlignment::new_unchecked(16));
}
