use trl::allocator::{AllocError, Allocator};
use trl::memory_layout::MemoryLayout;
use trl::non_null::NonNull;
use trl::raw_vec::{amortized_capacity, starting_capacity, RawVec, ReserveError};

/// One call that reached the allocator.
#[derive(Debug, Clone, PartialEq)]
enum Call {
    Allocate { size: usize, align: usize, zeroed: bool },
    Grow { ptr: usize, old_size: usize, new_size: usize, align: usize, zeroed: bool },
    Dealloc { ptr: usize, size: usize, align: usize },
}

/// An allocator that hands out made-up addresses, one page apart, and keeps
/// a record of what it was asked. It can be told to fail from some call on.
struct Script {
    calls: std::vec::Vec<Call>,
    next: usize,
    fail_from: usize,
}

impl Script {
    fn working() -> Self {
        Script { calls: std::vec::Vec::new(), next: 0x1000, fail_from: usize::MAX }
    }

    fn failing() -> Self {
        Script { calls: std::vec::Vec::new(), next: 0x1000, fail_from: 0 }
    }

    fn failing_from(call: usize) -> Self {
        Script { calls: std::vec::Vec::new(), next: 0x1000, fail_from: call }
    }

    fn answer(&mut self, size: usize) -> Result<(NonNull<u8>, usize), AllocError> {
        if self.calls.len() > self.fail_from {
            return Err(AllocError);
        }
        let addr = self.next;
        self.next += 0x1000;
        Ok((NonNull::new(addr).unwrap(), size))
    }
}

impl Default for Script {
    fn default() -> Self {
        Script::working()
    }
}

impl Allocator for Script {
    fn allocate(
        &mut self,
        layout: MemoryLayout,
        zeroed: bool,
    ) -> Result<(NonNull<u8>, usize), AllocError> {
        self.calls.push(Call::Allocate {
            size: layout.size(),
            align: layout.align().as_usize(),
            zeroed,
        });
        self.answer(layout.size())
    }

    fn grow(
        &mut self,
        ptr: NonNull<u8>,
        old_layout: MemoryLayout,
        new_layout: MemoryLayout,
        zeroed: bool,
    ) -> Result<(NonNull<u8>, usize), AllocError> {
        self.calls.push(Call::Grow {
            ptr: ptr.as_ptr(),
            old_size: old_layout.size(),
            new_size: new_layout.size(),
            align: new_layout.align().as_usize(),
            zeroed,
        });
        self.answer(new_layout.size())
    }

    fn dealloc(&mut self, ptr: NonNull<u8>, layout: MemoryLayout) {
        self.calls.push(Call::Dealloc {
            ptr: ptr.as_ptr(),
            size: layout.size(),
            align: layout.align().as_usize(),
        });
    }
}

const U32_ALIGN: usize = std::mem::align_of::<u32>();

#[test]
fn new_in_never_calls_the_allocator() {
    let buf = RawVec::<u32, Script>::new_in(Script::working());
    assert_eq!(buf.capacity(), 0);
    assert_eq!(buf.ptr().as_ptr(), U32_ALIGN);
    assert!(buf.allocator().calls.is_empty());
    assert!(buf.current_memory().is_none());
}

#[test]
fn new_uses_the_default_allocator_and_never_calls_it() {
    let buf = RawVec::<u64, Script>::new();
    assert_eq!(buf.capacity(), 0);
    assert!(buf.allocator().calls.is_empty());
}

#[test]
fn with_capacity_zero_never_calls_the_allocator() {
    let buf = RawVec::<u32, Script>::with_capacity_in(0, Script::failing()).ok().unwrap();
    assert_eq!(buf.capacity(), 0);
    assert_eq!(buf.ptr().as_ptr(), U32_ALIGN);
    assert!(buf.allocator().calls.is_empty());
}

#[test]
fn zero_sized_elements_never_call_the_allocator() {
    let buf = RawVec::<(), Script>::with_capacity_in(1000, Script::failing()).ok().unwrap();
    assert_eq!(buf.capacity(), usize::MAX);
    assert_eq!(buf.ptr().as_ptr(), 1);
    assert!(buf.allocator().calls.is_empty());
    assert!(buf.current_memory().is_none());

    let buf = RawVec::<(), Script>::new_in(Script::failing());
    assert_eq!(buf.capacity(), usize::MAX);

    let buf =
        RawVec::<[u64; 0], Script>::with_capacity_zeroed_in(7, Script::failing()).ok().unwrap();
    assert_eq!(buf.capacity(), usize::MAX);
    assert!(buf.allocator().calls.is_empty());
}

#[test]
fn with_capacity_asks_once_for_the_array_layout() {
    let buf = RawVec::<u32, Script>::with_capacity_in(10, Script::working()).ok().unwrap();
    assert_eq!(buf.capacity(), 10);
    assert_eq!(buf.ptr().as_ptr(), 0x1000);
    assert_eq!(
        buf.allocator().calls,
        [Call::Allocate { size: 40, align: U32_ALIGN, zeroed: false }]
    );
    let (block, layout) = buf.current_memory().unwrap();
    assert_eq!(block.as_ptr(), 0x1000);
    assert_eq!(layout.size(), 40);
    assert_eq!(layout.align().as_usize(), U32_ALIGN);
}

#[test]
fn with_capacity_zeroed_asks_for_zeroed_memory() {
    let buf = RawVec::<u32, Script>::with_capacity_zeroed_in(3, Script::working()).ok().unwrap();
    assert_eq!(buf.capacity(), 3);
    assert_eq!(
        buf.allocator().calls,
        [Call::Allocate { size: 12, align: U32_ALIGN, zeroed: true }]
    );
}

#[test]
fn with_capacity_over_the_default_allocator() {
    let buf = RawVec::<u16, Script>::with_capacity(5).ok().unwrap();
    assert_eq!(buf.capacity(), 5);
    assert_eq!(buf.allocator().calls.len(), 1);
    let buf = RawVec::<u16, Script>::with_capacity_zeroed(5).ok().unwrap();
    assert_eq!(
        buf.allocator().calls,
        [Call::Allocate { size: 10, align: std::mem::align_of::<u16>(), zeroed: true }]
    );
}

#[test]
fn with_capacity_reports_a_capacity_that_cannot_exist() {
    let r = RawVec::<u128, Script>::with_capacity_in(usize::MAX, Script::working());
    assert_eq!(r.err(), Some(ReserveError::CapacityOverflow));
    let r = RawVec::<u8, Script>::with_capacity_in(isize::MAX as usize + 1, Script::working());
    assert_eq!(r.err(), Some(ReserveError::CapacityOverflow));
}

#[test]
fn with_capacity_reports_the_layout_that_the_allocator_refused() {
    let r = RawVec::<u32, Script>::with_capacity_in(10, Script::failing());
    let expected = MemoryLayout::array::<u32>(10).unwrap();
    assert_eq!(r.err(), Some(ReserveError::AllocFailed { layout: expected }));
}

#[test]
fn starting_capacity_goes_by_the_size_of_the_elements() {
    assert_eq!(starting_capacity(1), 8);
    assert_eq!(starting_capacity(2), 4);
    assert_eq!(starting_capacity(8), 4);
    assert_eq!(starting_capacity(1024), 4);
    assert_eq!(starting_capacity(1025), 1);
    assert_eq!(starting_capacity(1 << 20), 1);
}

#[test]
fn amortized_capacity_doubles_or_takes_what_is_required() {
    assert_eq!(amortized_capacity(0, 1, 1), Some(8));
    assert_eq!(amortized_capacity(0, 1, 4), Some(4));
    assert_eq!(amortized_capacity(0, 1, 4096), Some(1));
    assert_eq!(amortized_capacity(0, 100, 1), Some(100));
    assert_eq!(amortized_capacity(8, 9, 1), Some(16));
    assert_eq!(amortized_capacity(8, 17, 1), Some(17));
    assert_eq!(amortized_capacity(1, 2, 4), Some(2));
    assert_eq!(amortized_capacity(3, 4, 4096), Some(6));
    assert_eq!(amortized_capacity(usize::MAX / 2 + 1, 1, 1), None);
    assert_eq!(amortized_capacity(usize::MAX / 2, usize::MAX, 1), Some(usize::MAX));
}

#[test]
fn bytes_grow_from_nothing_to_eight_then_sixteen() {
    let mut buf = RawVec::<u8, Script>::new_in(Script::working());
    assert_eq!(buf.capacity(), 0);

    assert_eq!(buf.reserve(0, 1), Ok(()));
    assert_eq!(buf.capacity(), 8);
    assert_eq!(buf.ptr().as_ptr(), 0x1000);

    assert_eq!(buf.reserve(8, 1), Ok(()));
    assert_eq!(buf.capacity(), 16);
    assert_eq!(buf.ptr().as_ptr(), 0x2000);

    assert_eq!(
        buf.allocator().calls,
        [
            Call::Allocate { size: 8, align: 1, zeroed: false },
            Call::Grow { ptr: 0x1000, old_size: 8, new_size: 16, align: 1, zeroed: false },
        ]
    );
}

#[test]
fn words_start_at_four_and_large_elements_at_one() {
    let mut buf = RawVec::<u64, Script>::new_in(Script::working());
    assert_eq!(buf.grow_amortized(0, 1), Ok(()));
    assert_eq!(buf.capacity(), 4);
    assert_eq!(buf.grow_amortized(4, 1), Ok(()));
    assert_eq!(buf.capacity(), 8);

    let mut buf = RawVec::<[u8; 2048], Script>::new_in(Script::working());
    assert_eq!(buf.grow_amortized(0, 1), Ok(()));
    assert_eq!(buf.capacity(), 1);
    assert_eq!(buf.grow_amortized(1, 1), Ok(()));
    assert_eq!(buf.capacity(), 2);
    assert_eq!(buf.grow_amortized(2, 1), Ok(()));
    assert_eq!(buf.capacity(), 4);
}

#[test]
fn growth_takes_what_is_required_when_doubling_is_short() {
    let mut buf = RawVec::<u8, Script>::with_capacity_in(8, Script::working()).ok().unwrap();
    assert_eq!(buf.reserve(8, 100), Ok(()));
    assert_eq!(buf.capacity(), 108);

    let mut buf = RawVec::<u8, Script>::new_in(Script::working());
    assert_eq!(buf.reserve(0, 50), Ok(()));
    assert_eq!(buf.capacity(), 50);
}

#[test]
fn reserve_leaves_a_buffer_with_room_alone() {
    let mut buf = RawVec::<u32, Script>::with_capacity_in(10, Script::working()).ok().unwrap();
    assert!(!buf.needs_to_grow(4, 6));
    assert!(buf.needs_to_grow(4, 7));
    assert!(buf.needs_to_grow(usize::MAX, 1));
    assert_eq!(buf.reserve(4, 6), Ok(()));
    assert_eq!(buf.capacity(), 10);
    assert_eq!(buf.ptr().as_ptr(), 0x1000);
    assert_eq!(buf.allocator().calls.len(), 1);
}

#[test]
fn failed_growth_leaves_address_and_capacity() {
    let mut buf = RawVec::<u32, Script>::with_capacity_in(4, Script::failing_from(1)).ok().unwrap();
    let refused = MemoryLayout::array::<u32>(8).unwrap();
    assert_eq!(buf.reserve(4, 1), Err(ReserveError::AllocFailed { layout: refused }));
    assert_eq!(buf.capacity(), 4);
    assert_eq!(buf.ptr().as_ptr(), 0x1000);
    assert_eq!(buf.allocator().calls.len(), 2);

    let mut buf = RawVec::<u8, Script>::new_in(Script::failing());
    let refused = MemoryLayout::array::<u8>(8).unwrap();
    assert_eq!(buf.grow_amortized(0, 1), Err(ReserveError::AllocFailed { layout: refused }));
    assert_eq!(buf.capacity(), 0);
    assert_eq!(buf.ptr().as_ptr(), 1);
}

#[test]
fn growth_past_what_can_exist_never_calls_the_allocator() {
    let mut buf = RawVec::<u32, Script>::with_capacity_in(4, Script::working()).ok().unwrap();
    assert_eq!(buf.reserve(4, usize::MAX), Err(ReserveError::CapacityOverflow));
    assert_eq!(buf.reserve(4, isize::MAX as usize), Err(ReserveError::CapacityOverflow));
    assert_eq!(buf.capacity(), 4);
    assert_eq!(buf.allocator().calls.len(), 1);

    let mut buf = RawVec::<(), Script>::new_in(Script::working());
    assert_eq!(buf.grow_amortized(usize::MAX, 1), Err(ReserveError::CapacityOverflow));
    assert_eq!(buf.reserve(usize::MAX, 0), Ok(()));
    assert!(buf.allocator().calls.is_empty());
}

#[test]
fn plan_growth_makes_out_the_request() {
    let buf = RawVec::<u32, Script>::new_in(Script::working());
    let (capacity, layout) = buf.plan_growth(0, 1).unwrap();
    assert_eq!(capacity, 4);
    assert_eq!(layout, MemoryLayout::array::<u32>(4).unwrap());
    let (capacity, layout) = buf.plan_growth(3, 4).unwrap();
    assert_eq!(capacity, 7);
    assert_eq!(layout.size(), 28);

    let buf = RawVec::<u32, Script>::with_capacity_in(5, Script::working()).ok().unwrap();
    let (capacity, layout) = buf.plan_growth(5, 1).unwrap();
    assert_eq!(capacity, 10);
    assert_eq!(layout.size(), 40);
    assert_eq!(layout.align().as_usize(), U32_ALIGN);
    assert_eq!(buf.plan_growth(5, 20).unwrap().0, 25);
    assert_eq!(buf.plan_growth(usize::MAX, 1), Err(ReserveError::CapacityOverflow));
    assert_eq!(buf.plan_growth(1, isize::MAX as usize / 4), Err(ReserveError::CapacityOverflow));
    assert_eq!(buf.plan_growth(0, isize::MAX as usize / 4).unwrap().0, isize::MAX as usize / 4);
    assert_eq!(buf.allocator().calls.len(), 1);

    let buf = RawVec::<(), Script>::new_in(Script::working());
    assert_eq!(buf.plan_growth(0, 1), Err(ReserveError::CapacityOverflow));

    // Twice a capacity that fills half the address space cannot be had.
    let huge = isize::MAX as usize;
    let buf = RawVec::<u8, Script>::from_raw_parts_in(0x1000, huge, Script::working());
    assert_eq!(buf.plan_growth(huge, 1), Err(ReserveError::CapacityOverflow));
}

#[test]
fn from_allocation_takes_the_block_or_reports_the_layout() {
    let layout = MemoryLayout::array::<u32>(6).unwrap();
    let block = NonNull::<u8>::new(0x4000).unwrap();
    let buf = RawVec::<u32, Script>::from_allocation(Ok((block, 24)), 6, layout, Script::working())
        .ok()
        .unwrap();
    assert_eq!(buf.capacity(), 6);
    assert_eq!(buf.ptr().as_ptr(), 0x4000);

    let r = RawVec::<u32, Script>::from_allocation(Err(AllocError), 6, layout, Script::working());
    assert_eq!(r.err(), Some(ReserveError::AllocFailed { layout }));
}

#[test]
fn finish_grow_takes_the_block_or_leaves_the_buffer() {
    let layout = MemoryLayout::array::<u32>(6).unwrap();
    let mut buf = RawVec::<u32, Script>::new_in(Script::working());
    let block = NonNull::<u8>::new(0x4000).unwrap();
    assert_eq!(buf.finish_grow(Ok((block, 24)), 6, layout), Ok(()));
    assert_eq!(buf.capacity(), 6);
    assert_eq!(buf.ptr().as_ptr(), 0x4000);

    let larger = MemoryLayout::array::<u32>(12).unwrap();
    assert_eq!(
        buf.finish_grow(Err(AllocError), 12, larger),
        Err(ReserveError::AllocFailed { layout: larger })
    );
    assert_eq!(buf.capacity(), 6);
    assert_eq!(buf.ptr().as_ptr(), 0x4000);
}

#[test]
fn from_raw_parts_adopts_what_it_is_given() {
    let buf = RawVec::<u32, Script>::from_raw_parts_in(0x8000, 16, Script::working());
    assert_eq!(buf.capacity(), 16);
    assert_eq!(buf.ptr().as_ptr(), 0x8000);
    let (block, layout) = buf.current_memory().unwrap();
    assert_eq!(block.as_ptr(), 0x8000);
    assert_eq!(layout.size(), 64);

    let buf = RawVec::<u32, Script>::from_raw_parts(0x8000, 2);
    assert_eq!(buf.capacity(), 2);
    assert!(buf.allocator().calls.is_empty());
}

#[test]
fn release_gives_the_block_back_with_its_layout() {
    let buf = RawVec::<u32, Script>::with_capacity_in(10, Script::working()).ok().unwrap();
    let allocator = buf.release();
    assert_eq!(
        allocator.calls,
        [
            Call::Allocate { size: 40, align: U32_ALIGN, zeroed: false },
            Call::Dealloc { ptr: 0x1000, size: 40, align: U32_ALIGN },
        ]
    );
}

#[test]
fn release_never_frees_the_dangling_address() {
    let allocator = RawVec::<u32, Script>::new_in(Script::working()).release();
    assert!(allocator.calls.is_empty());
    let allocator =
        RawVec::<(), Script>::with_capacity_in(9, Script::working()).ok().unwrap().release();
    assert!(allocator.calls.is_empty());
}
