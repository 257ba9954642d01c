use storage::interface::{Storage, StoreDangling};
use storage::layout::{AllocError, Layout};
use storage::storage::inline_single_storage::{InlineSingleStorage, SlotHandle};

fn layout(size: usize, align: usize) -> Layout {
    Layout::from_size_align(size, align).unwrap()
}

#[test]
fn allocate_accepts_a_layout_that_fits_the_slot() {
    let mut store = InlineSingleStorage::<u32>::default();
    assert_eq!(store.allocate(layout(4, 4)), Ok(SlotHandle));
}

#[test]
fn allocate_rejects_a_layout_larger_than_the_slot() {
    let mut store = InlineSingleStorage::<u32>::default();
    assert_eq!(store.allocate(layout(8, 4)), Err(AllocError));
}

#[test]
fn allocate_rejects_a_layout_more_aligned_than_the_slot() {
    let mut store = InlineSingleStorage::<u32>::default();
    assert_eq!(store.allocate(layout(4, 8)), Err(AllocError));
    assert_eq!(store.allocate(layout(0, 8)), Err(AllocError));
}

#[test]
fn allocate_accepts_smaller_and_less_aligned_layouts() {
    let mut store = InlineSingleStorage::<u32>::default();
    assert_eq!(store.allocate(layout(0, 1)), Ok(SlotHandle));
    assert_eq!(store.allocate(layout(3, 1)), Ok(SlotHandle));
    assert_eq!(store.allocate(layout(2, 2)), Ok(SlotHandle));
}

#[test]
fn validate_layout_agrees_with_allocate() {
    assert_eq!(InlineSingleStorage::<u32>::validate_layout(layout(4, 4)), Ok(()));
    assert_eq!(InlineSingleStorage::<u32>::validate_layout(layout(5, 1)), Err(AllocError));
    assert_eq!(InlineSingleStorage::<u32>::validate_layout(layout(1, 8)), Err(AllocError));
}

#[test]
fn slot_layout_is_the_layout_of_the_type() {
    let store = InlineSingleStorage::<[u64; 2]>::default();
    assert_eq!(store.slot_layout().size(), 16);
    assert_eq!(store.slot_layout().align(), core::mem::align_of::<u64>());
}

#[test]
fn allocate_does_not_track_occupancy() {
    let mut store = InlineSingleStorage::<[u64; 2]>::default();
    let first = store.allocate(layout(16, 8)).unwrap();
    assert_eq!(store.allocate(layout(16, 8)), Ok(SlotHandle));
    store.deallocate(first, layout(16, 8));
    assert_eq!(store.allocate(layout(16, 8)), Ok(SlotHandle));
}

#[test]
fn resolve_is_the_start_of_the_slot() {
    let mut store = InlineSingleStorage::<u64>::default();
    let handle = store.allocate(layout(8, 8)).unwrap();
    assert_eq!(store.resolve(handle), 0);
}

#[test]
fn write_then_read_gives_the_bytes_back() {
    let mut store = InlineSingleStorage::<u64>::default();
    let handle = store.allocate(layout(8, 1)).unwrap();
    let address = store.resolve(handle);
    store.write(address, &[1, 2, 3, 4, 5, 6, 7, 8]);
    assert_eq!(store.read(address, 8), &[1, 2, 3, 4, 5, 6, 7, 8]);
    store.write(address + 2, &[9, 9]);
    assert_eq!(store.read(address, 8), &[1, 2, 9, 9, 5, 6, 7, 8]);
    assert_eq!(store.read(address + 3, 2), &[9, 5]);
    assert_eq!(store.read(address + 8, 0), &[0u8; 0]);
}

#[test]
fn allocate_leaves_the_memory_as_it_was() {
    let mut store = InlineSingleStorage::<u32>::default();
    store.write(0, &[7, 7, 7, 7]);
    let handle = store.allocate(layout(4, 1)).unwrap();
    assert_eq!(store.read(store.resolve(handle), 4), &[7, 7, 7, 7]);
}

#[test]
fn allocate_zeroed_zeroes_exactly_the_size_asked_for() {
    let mut store = InlineSingleStorage::<[u64; 2]>::default();
    store.write(0, &[0xFF; 16]);
    let handle = store.allocate_zeroed(layout(8, 8)).unwrap();
    let address = store.resolve(handle);
    assert_eq!(store.read(address, 8), &[0u8; 8]);
    assert_eq!(store.read(address + 8, 8), &[0xFFu8; 8]);
}

#[test]
fn allocate_zeroed_that_fails_writes_nothing() {
    let mut store = InlineSingleStorage::<u32>::default();
    store.write(0, &[0xFF; 4]);
    assert_eq!(store.allocate_zeroed(layout(8, 4)), Err(AllocError));
    assert_eq!(store.read(0, 4), &[0xFFu8; 4]);
}

#[test]
fn grow_succeeds_while_the_new_layout_fits() {
    let mut store = InlineSingleStorage::<[u8; 16]>::default();
    let handle = store.allocate(layout(4, 1)).unwrap();
    assert_eq!(store.grow(handle, layout(4, 1), layout(8, 1)), Ok(SlotHandle));
    assert_eq!(store.grow(handle, layout(8, 1), layout(16, 1)), Ok(SlotHandle));
    assert_eq!(store.grow(handle, layout(16, 1), layout(16, 1)), Ok(SlotHandle));
}

#[test]
fn grow_fails_when_the_new_layout_does_not_fit() {
    let mut store = InlineSingleStorage::<[u8; 16]>::default();
    let handle = store.allocate(layout(4, 1)).unwrap();
    assert_eq!(store.grow(handle, layout(4, 1), layout(17, 1)), Err(AllocError));
    assert_eq!(store.grow(handle, layout(4, 1), layout(8, 2)), Err(AllocError));
}

#[test]
fn grow_does_not_move_the_block() {
    let mut store = InlineSingleStorage::<[u8; 16]>::default();
    let handle = store.allocate(layout(4, 1)).unwrap();
    let before = store.resolve(handle);
    store.write(before, &[1, 2, 3, 4]);
    let grown = store.grow(handle, layout(4, 1), layout(12, 1)).unwrap();
    assert_eq!(store.resolve(grown), before);
    assert_eq!(store.read(before, 4), &[1, 2, 3, 4]);
}

#[test]
fn grow_zeroed_zeroes_the_tail_and_keeps_the_head() {
    let mut store = InlineSingleStorage::<[u8; 16]>::default();
    store.write(0, &[0xAA; 16]);
    let handle = store.allocate(layout(4, 1)).unwrap();
    let grown = store.grow_zeroed(handle, layout(4, 1), layout(10, 1)).unwrap();
    let address = store.resolve(grown);
    assert_eq!(address, 0);
    assert_eq!(store.read(address, 4), &[0xAAu8; 4]);
    assert_eq!(store.read(address + 4, 6), &[0u8; 6]);
    assert_eq!(store.read(address + 10, 6), &[0xAAu8; 6]);
}

#[test]
fn grow_zeroed_that_fails_writes_nothing() {
    let mut store = InlineSingleStorage::<[u8; 8]>::default();
    store.write(0, &[0xAA; 8]);
    let handle = store.allocate(layout(4, 1)).unwrap();
    assert_eq!(store.grow_zeroed(handle, layout(4, 1), layout(9, 1)), Err(AllocError));
    assert_eq!(store.read(0, 8), &[0xAAu8; 8]);
}

#[test]
fn shrink_always_succeeds_and_keeps_the_head() {
    let mut store = InlineSingleStorage::<[u8; 8]>::default();
    let handle = store.allocate(layout(8, 1)).unwrap();
    store.write(0, &[1, 2, 3, 4, 5, 6, 7, 8]);
    let shrunk = store.shrink(handle, layout(8, 1), layout(3, 1)).unwrap();
    assert_eq!(store.resolve(shrunk), 0);
    assert_eq!(store.read(0, 3), &[1, 2, 3]);
    assert_eq!(store.shrink(shrunk, layout(3, 1), layout(0, 1)), Ok(SlotHandle));
}

#[test]
fn dangling_is_the_one_handle() {
    let store = InlineSingleStorage::<u8>::default();
    assert_eq!(store.dangling(), SlotHandle);
}

#[test]
fn a_slot_for_a_zero_sized_type_accepts_only_empty_layouts() {
    let mut store = InlineSingleStorage::<()>::default();
    assert_eq!(store.allocate(layout(0, 1)), Ok(SlotHandle));
    assert_eq!(store.allocate(layout(1, 1)), Err(AllocError));
}
