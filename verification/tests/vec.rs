use trl::allocator::{AllocError, Allocator};
use trl::memory_layout::MemoryLayout;
use trl::non_null::NonNull;
use trl::raw_vec::ReserveError;
use trl::vec::Vec;

/// An allocator that hands out made-up addresses and counts what it is
/// asked. It can be told to fail from some call on.
struct Counting {
    allocations: usize,
    growths: usize,
    releases: usize,
    next: usize,
    fail_from: usize,
}

impl Counting {
    fn working() -> Self {
        Counting { allocations: 0, growths: 0, releases: 0, next: 0x1000, fail_from: usize::MAX }
    }

    fn failing() -> Self {
        Counting { allocations: 0, growths: 0, releases: 0, next: 0x1000, fail_from: 0 }
    }

    fn failing_from(call: usize) -> Self {
        Counting { allocations: 0, growths: 0, releases: 0, next: 0x1000, fail_from: call }
    }

    fn calls(&self) -> usize {
        self.allocations + self.growths + self.releases
    }

    fn answer(&mut self, size: usize) -> Result<(NonNull<u8>, usize), AllocError> {
        if self.calls() > self.fail_from {
            return Err(AllocError);
        }
        let addr = self.next;
        self.next += 0x1000;
        Ok((NonNull::new(addr).unwrap(), size))
    }
}

impl Default for Counting {
    fn default() -> Self {
        Counting::working()
    }
}

impl Allocator for Counting {
    fn allocate(
        &mut self,
        layout: MemoryLayout,
        _zeroed: bool,
    ) -> Result<(NonNull<u8>, usize), AllocError> {
        self.allocations += 1;
        self.answer(layout.size())
    }

    fn grow(
        &mut self,
        _ptr: NonNull<u8>,
        _old_layout: MemoryLayout,
        new_layout: MemoryLayout,
        _zeroed: bool,
    ) -> Result<(NonNull<u8>, usize), AllocError> {
        self.growths += 1;
        self.answer(new_layout.size())
    }

    fn dealloc(&mut self, _ptr: NonNull<u8>, _layout: MemoryLayout) {
        self.releases += 1;
    }
}

fn numbers(values: &[i32]) -> Vec<i32, Counting> {
    let mut v = Vec::new_in(Counting::working());
    for value in values {
        v.push(*value).unwrap();
    }
    v
}

fn contents<T: Copy>(v: &Vec<T, Counting>) -> std::vec::Vec<T> {
    let mut out = std::vec::Vec::new();
    let mut i = 0;
    while let Some(item) = v.at(i) {
        out.push(*item);
        i += 1;
    }
    out
}

#[test]
fn new_array_is_empty_and_owns_nothing() {
    let v = Vec::<i32, Counting>::new_in(Counting::working());
    assert_eq!(v.len(), 0);
    assert_eq!(v.capacity(), 0);
    assert_eq!(v.allocator().calls(), 0);
    assert!(v.left().is_none());
    assert!(v.right().is_none());

    let v = Vec::<i32, Counting>::new();
    assert_eq!((v.len(), v.capacity()), (0, 0));
    assert_eq!(v.allocator().calls(), 0);
}

#[test]
fn with_capacity_reserves_room() {
    let v = Vec::<i32, Counting>::with_capacity_in(10, Counting::working()).ok().unwrap();
    assert_eq!(v.len(), 0);
    assert_eq!(v.capacity(), 10);
    assert_eq!(v.allocator().allocations, 1);

    let v = Vec::<i32, Counting>::with_capacity(3).ok().unwrap();
    assert_eq!((v.len(), v.capacity()), (0, 3));
}

#[test]
fn with_capacity_fails_as_the_buffer_does() {
    let r = Vec::<u64, Counting>::with_capacity_in(usize::MAX, Counting::working());
    assert_eq!(r.err(), Some(ReserveError::CapacityOverflow));
    let r = Vec::<u64, Counting>::with_capacity_in(4, Counting::failing());
    let layout = MemoryLayout::array::<u64>(4).unwrap();
    assert_eq!(r.err(), Some(ReserveError::AllocFailed { layout }));
}

#[test]
fn at_out_of_range_is_empty() {
    let v = numbers(&[10, 20, 30]);
    assert_eq!(v.at(0), Some(&10));
    assert_eq!(v.at(2), Some(&30));
    assert_eq!(v.at(3), None);
    assert_eq!(v.at(4), None);
    assert_eq!(v.at(usize::MAX), None);
    let empty = numbers(&[]);
    assert_eq!(empty.at(0), None);
}

#[test]
fn left_and_right_are_the_ends() {
    let v = numbers(&[10, 20, 30]);
    assert_eq!(v.left(), Some(&10));
    assert_eq!(v.right(), Some(&30));
    let one = numbers(&[7]);
    assert_eq!(one.left(), Some(&7));
    assert_eq!(one.right(), Some(&7));
}

#[test]
fn push_grows_bytes_to_eight_then_sixteen() {
    let mut v = Vec::<u8, Counting>::new_in(Counting::working());
    v.push(0).unwrap();
    assert_eq!(v.capacity(), 8);
    for byte in 1..8 {
        v.push(byte).unwrap();
        assert_eq!(v.capacity(), 8);
    }
    assert_eq!(v.allocator().calls(), 1);
    v.push(8).unwrap();
    assert_eq!(v.capacity(), 16);
    assert_eq!(v.len(), 9);
    assert_eq!(v.allocator().allocations, 1);
    assert_eq!(v.allocator().growths, 1);
    assert_eq!(contents(&v), [0, 1, 2, 3, 4, 5, 6, 7, 8]);
}

#[test]
fn length_never_exceeds_capacity() {
    let mut v = Vec::<u16, Counting>::new_in(Counting::working());
    assert!(v.len() <= v.capacity());
    for round in 0..200u16 {
        v.push(round).unwrap();
        assert!(v.len() <= v.capacity());
        if round % 3 == 0 {
            let (rest, _) = v.pop_left();
            v = rest;
            assert!(v.len() <= v.capacity());
        }
        if round % 7 == 0 {
            let (rest, _) = v.pop_right();
            v = rest;
            assert!(v.len() <= v.capacity());
        }
    }
    while v.len() > 0 {
        let (rest, _) = v.pop();
        v = rest;
        assert!(v.len() <= v.capacity());
    }
}

#[test]
fn push_then_pop_right_gives_the_items_last_to_first() {
    let items = [3, 1, 4, 1, 5, 9, 2, 6, 5, 3];
    let mut v = numbers(&items);
    let capacity = v.capacity();
    let mut given = std::vec::Vec::new();
    for _ in 0..items.len() {
        let (rest, item) = v.pop_right();
        v = rest;
        given.push(item.unwrap());
    }
    assert_eq!(given, [3, 5, 6, 2, 9, 5, 1, 4, 1, 3]);
    assert_eq!(v.len(), 0);
    assert_eq!(v.capacity(), capacity);
}

#[test]
fn push_then_pop_left_gives_the_items_first_to_last() {
    let items = [3, 1, 4, 1, 5, 9, 2, 6, 5, 3];
    let mut v = numbers(&items);
    let capacity = v.capacity();
    let mut given = std::vec::Vec::new();
    for _ in 0..items.len() {
        let (rest, item) = v.pop_left();
        v = rest;
        given.push(item.unwrap());
    }
    assert_eq!(given, items);
    assert_eq!(v.len(), 0);
    assert_eq!(v.capacity(), capacity);
}

#[test]
fn pop_is_pop_right() {
    let v = numbers(&[1, 2, 3]);
    let (rest, item) = v.pop();
    assert_eq!(item, Some(3));
    assert_eq!(contents(&rest), [1, 2]);
}

#[test]
fn pop_of_an_empty_array_gives_nothing() {
    let (v, item) = numbers(&[]).pop_left();
    assert_eq!(item, None);
    let (v, item) = v.pop_right();
    assert_eq!(item, None);
    let (v, item) = v.pop();
    assert_eq!(item, None);
    assert_eq!(v.len(), 0);
}

#[test]
fn failing_allocator_leaves_the_array_as_it_was() {
    let mut v = Vec::<u32, Counting>::new_in(Counting::failing());
    let refused = MemoryLayout::array::<u32>(4).unwrap();
    assert_eq!(v.push(1), Err(ReserveError::AllocFailed { layout: refused }));
    assert_eq!((v.len(), v.capacity()), (0, 0));
    assert_eq!(v.at(0), None);

    // The first request is served, the growth is refused.
    let mut v = Vec::<u32, Counting>::new_in(Counting::failing_from(1));
    for value in 0..4 {
        assert_eq!(v.push(value), Ok(()));
    }
    let refused = MemoryLayout::array::<u32>(8).unwrap();
    assert_eq!(v.push(4), Err(ReserveError::AllocFailed { layout: refused }));
    assert_eq!((v.len(), v.capacity()), (4, 4));
    assert_eq!(contents(&v), [0, 1, 2, 3]);
    assert_eq!(v.push(4), Err(ReserveError::AllocFailed { layout: refused }));
    assert_eq!((v.len(), v.capacity()), (4, 4));
}

#[test]
fn elements_without_size_never_allocate() {
    let mut v = Vec::<(), Counting>::new_in(Counting::failing());
    assert_eq!(v.capacity(), usize::MAX);
    for _ in 0..100 {
        assert_eq!(v.push(()), Ok(()));
    }
    assert_eq!(v.len(), 100);
    assert_eq!(v.capacity(), usize::MAX);
    assert_eq!(v.allocator().calls(), 0);
}

#[test]
fn every_and_some_scan_from_the_left() {
    let v = numbers(&[2, 4, 6, 7, 8]);
    assert!(!v.every(|item, _| item % 2 == 0));
    assert!(v.every(|item, _| *item > 0));
    assert!(v.some(|item, _| item % 2 == 1));
    assert!(!v.some(|item, _| *item > 100));
    assert!(v.every(|item, index| *item >= index as i32));

    let empty = numbers(&[]);
    assert!(empty.every(|_, _| false));
    assert!(!empty.some(|_, _| true));
}

#[test]
fn every_and_some_stop_at_the_first_answer() {
    let v = numbers(&[1, 2, 3, 4]);
    let seen = std::cell::Cell::new(0);
    assert!(!v.every(|item, _| {
        seen.set(seen.get() + 1);
        *item < 2
    }));
    assert_eq!(seen.get(), 2);
    seen.set(0);
    assert!(v.some(|item, _| {
        seen.set(seen.get() + 1);
        *item == 3
    }));
    assert_eq!(seen.get(), 3);
}

#[test]
fn find_gives_the_first_match_and_its_index() {
    let v = numbers(&[5, 8, 13, 8]);
    assert_eq!(v.find(|item, _| *item == 8), Some((&8, 1)));
    assert_eq!(v.find(|item, _| *item > 8), Some((&13, 2)));
    assert_eq!(v.find(|_, index| index == 3), Some((&8, 3)));
    assert_eq!(v.find(|item, _| *item == 0), None);
}

#[test]
fn includes_compares_elements() {
    let v = numbers(&[5, 8, 13]);
    assert!(v.includes(&13));
    assert!(v.includes(&5));
    assert!(!v.includes(&7));
    assert!(!numbers(&[]).includes(&0));
}

#[test]
fn fold_goes_from_the_left() {
    let v = numbers(&[1, 2, 3, 4]);
    assert_eq!(v.fold(0, |acc, item, _| acc + item), 10);
    assert_eq!(v.fold(100, |acc, item, index| acc - item * index as i32), 100 - 2 - 6 - 12);
    let digits = v.fold(String::new(), |acc, item, _| format!("{}{}", acc, item));
    assert_eq!(digits, "1234");
    assert_eq!(numbers(&[]).fold(42, |acc, item, _| acc + item), 42);
}

#[test]
fn reduce_starts_from_the_first_element() {
    let v = numbers(&[10, 2, 3]);
    assert_eq!(v.reduce(|acc, item, _| acc - item), Some(5));
    assert_eq!(v.reduce(|acc, item, index| acc + item * index as i32), Some(10 + 2 + 6));
    assert_eq!(numbers(&[9]).reduce(|_, _, _| 0), Some(9));
    assert_eq!(numbers(&[]).reduce(|acc, item, _| acc + item), None);
}

#[test]
fn map_makes_a_new_array_and_leaves_the_source() {
    let v = numbers(&[1, 2, 3]);
    let doubled = v.map(|item, index| (*item as i64) * 2 + index as i64, Counting::working());
    let doubled = doubled.ok().unwrap();
    assert_eq!(contents(&doubled), [2, 5, 8]);
    assert_eq!(doubled.capacity(), 3);
    assert_eq!(doubled.allocator().allocations, 1);
    assert_eq!(contents(&v), [1, 2, 3]);
}

#[test]
fn map_fails_before_it_calls_the_function() {
    let v = numbers(&[1, 2, 3]);
    let called = std::cell::Cell::new(false);
    let r = v.map(
        |item, _| {
            called.set(true);
            *item
        },
        Counting::failing(),
    );
    let layout = MemoryLayout::array::<i32>(3).unwrap();
    assert_eq!(r.err(), Some(ReserveError::AllocFailed { layout }));
    assert!(!called.get());

    // An empty array asks for nothing, whatever the allocator would do.
    let mapped = numbers(&[]).map(|item, _| *item, Counting::failing()).ok().unwrap();
    assert_eq!(mapped.len(), 0);
    assert_eq!(mapped.allocator().calls(), 0);
}

#[test]
fn filter_keeps_the_matches_in_order() {
    let v = numbers(&[1, 2, 3, 4, 5, 6]);
    let even = v.filter(|item, _| item % 2 == 0, Counting::working()).ok().unwrap();
    assert_eq!(contents(&even), [2, 4, 6]);
    assert!(even.len() <= even.capacity());
    let early = v.filter(|_, index| index < 2, Counting::working()).ok().unwrap();
    assert_eq!(contents(&early), [1, 2]);
    let none = v.filter(|_, _| false, Counting::working()).ok().unwrap();
    assert_eq!(none.len(), 0);
    assert_eq!(contents(&v), [1, 2, 3, 4, 5, 6]);
}

#[test]
fn each_visits_every_element_in_order() {
    let v = numbers(&[4, 5, 6]);
    let seen = std::cell::RefCell::new(std::vec::Vec::new());
    v.each(|item, index| seen.borrow_mut().push((index, *item)));
    assert_eq!(*seen.borrow(), [(0, 4), (1, 5), (2, 6)]);
}

#[test]
fn with_len_fills_with_the_value() {
    let v = Vec::<u8, Counting>::with_len_in(5, 7, Counting::working()).ok().unwrap();
    assert_eq!(contents(&v), [7, 7, 7, 7, 7]);
    assert_eq!(v.capacity(), 5);
    let v = Vec::<u8, Counting>::with_len(0, 7).ok().unwrap();
    assert_eq!((v.len(), v.capacity()), (0, 0));
    let r = Vec::<u8, Counting>::with_len_in(5, 7, Counting::failing());
    assert!(matches!(r.err(), Some(ReserveError::AllocFailed { .. })));
}

#[test]
fn from_copies_the_array() {
    let v = Vec::<i32, Counting>::from(&[1, 2, 3]).ok().unwrap();
    assert_eq!(contents(&v), [1, 2, 3]);
    assert_eq!(v.capacity(), 3);
    let v = Vec::<i32, Counting>::from_in(&[9, 8], Counting::working()).ok().unwrap();
    assert_eq!(contents(&v), [9, 8]);
    let v = Vec::<i32, Counting>::from_in(&[], Counting::failing()).ok().unwrap();
    assert_eq!(v.len(), 0);
}

#[test]
fn from_raw_parts_adopts_the_memory_without_elements() {
    let v = Vec::<u32, Counting>::from_raw_parts_in(0x8000, 6, Counting::working());
    assert_eq!((v.len(), v.capacity()), (0, 6));
    assert_eq!(v.buf().ptr().as_ptr(), 0x8000);
    assert_eq!(v.allocator().calls(), 0);
    let mut v = v;
    for value in 0..6 {
        v.push(value).unwrap();
    }
    assert_eq!(v.capacity(), 6);
    assert_eq!(v.buf().ptr().as_ptr(), 0x8000);
    assert_eq!(v.allocator().calls(), 0);
    v.push(6).unwrap();
    assert_eq!(v.capacity(), 12);
    assert_eq!(v.allocator().growths, 1);
}

#[test]
fn release_gives_the_block_back_once() {
    let mut v = Vec::<u8, Counting>::new_in(Counting::working());
    for byte in 0..20 {
        v.push(byte).unwrap();
    }
    let allocator = v.release();
    assert_eq!(allocator.allocations, 1);
    assert_eq!(allocator.growths, 2);
    assert_eq!(allocator.releases, 1);

    let allocator = Vec::<u8, Counting>::new_in(Counting::working()).release();
    assert_eq!(allocator.calls(), 0);
}
