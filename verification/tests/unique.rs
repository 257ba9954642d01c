use storage::extension::typed_metadata::{DispatchDescriptor, Dynamic, Thin, TypedMetadata};
use storage::extension::unique::UniqueHandle;
use storage::interface::Storage;
use storage::layout::{AllocError, Layout};
use storage::storage::inline_single_storage::{InlineSingleStorage, SlotHandle};

type Unique<T> = UniqueHandle<T, SlotHandle>;

#[test]
fn unique_handle_holds_a_value_until_it_is_deallocated() {
    let mut store = InlineSingleStorage::<[u64; 2]>::default();
    assert_eq!(store.slot_layout().size(), 16);
    assert_eq!(store.slot_layout().align(), 8);
    let handle = Unique::<u64>::new(0xDEAD_BEEF_CAFE_F00D, &mut store);
    assert_eq!(handle.resolve(&store), 0xDEAD_BEEF_CAFE_F00D);
    handle.deallocate(&mut store);
    let again = Unique::<u64>::try_new(42, &mut store);
    assert!(again.is_ok());
    assert_eq!(again.ok().unwrap().resolve(&store), 42);
    assert!(store.allocate(Layout::from_size_align(16, 8).unwrap()).is_ok());
}

#[test]
fn unique_dangling_can_be_held_and_taken_apart() {
    let store = InlineSingleStorage::<u32>::default();
    let handle = Unique::<u32>::dangling(&store);
    let (raw, metadata) = handle.to_raw_parts();
    assert_eq!(raw, SlotHandle);
    assert_eq!(metadata.get(), Thin);
    let tried = Unique::<u32>::try_dangling(&store);
    assert!(tried.is_ok());
    let slice = UniqueHandle::<[u32], SlotHandle>::dangling_slice(&store);
    assert_eq!(slice.len(), 0);
    assert!(slice.is_empty());
    let tried = UniqueHandle::<[u32], SlotHandle>::try_dangling_slice(&store);
    assert_eq!(tried.ok().unwrap().len(), 0);
}

#[test]
fn unique_try_new_reports_a_type_that_does_not_fit() {
    let mut store = InlineSingleStorage::<u32>::default();
    assert!(matches!(Unique::<u64>::try_new(1, &mut store), Err(AllocError)));
    assert!(matches!(Unique::<u64>::try_allocate(&mut store), Err(AllocError)));
    assert!(matches!(Unique::<u64>::try_allocate_zeroed(&mut store), Err(AllocError)));
    assert!(Unique::<u32>::try_new(1, &mut store).is_ok());
    assert!(Unique::<u32>::try_allocate(&mut store).is_ok());
    assert!(Unique::<u32>::try_allocate_zeroed(&mut store).is_ok());
}

#[test]
fn unique_allocate_leaves_the_memory_and_allocate_zeroed_clears_it() {
    let mut store = InlineSingleStorage::<u32>::default();
    store.write(0, &[0x78, 0x56, 0x34, 0x12]);
    let handle = Unique::<u32>::allocate(&mut store);
    assert_eq!(handle.resolve(&store), 0x12345678);
    handle.deallocate(&mut store);
    let handle = Unique::<u32>::allocate_zeroed(&mut store);
    assert_eq!(handle.resolve(&store), 0);
}

#[test]
fn unique_resolve_mut_replaces_the_value() {
    let mut store = InlineSingleStorage::<u64>::default();
    let mut handle = Unique::<u64>::new(1, &mut store);
    handle.resolve_mut(2, &mut store);
    assert_eq!(handle.resolve(&store), 2);
}

#[test]
fn unique_raw_parts_go_round() {
    let mut store = InlineSingleStorage::<u64>::default();
    let handle = Unique::<u64>::new(0x0123_4567_89AB_CDEF, &mut store);
    let address = handle.resolve_raw(&store);
    let (raw, metadata) = handle.to_raw_parts();
    let again = Unique::<u64>::from_raw_parts(raw, metadata);
    assert_eq!(again.resolve_raw(&store), address);
    assert_eq!(again.resolve(&store), 0x0123_4567_89AB_CDEF);
    let (raw, metadata) = again.to_raw_parts();
    assert_eq!(raw, SlotHandle);
    assert_eq!(metadata.get(), Thin);
}

#[test]
fn unique_coerce_changes_only_the_metadata() {
    let mut store = InlineSingleStorage::<u64>::default();
    let handle = Unique::<u64>::new(5, &mut store);
    let address = handle.resolve_raw(&store);
    let coerced = handle.coerce::<dyn Dynamic>();
    assert_eq!(coerced.resolve_raw(&store), address);
    let (raw, metadata) = coerced.to_raw_parts();
    assert_eq!(raw, SlotHandle);
    assert_eq!(metadata.get(), DispatchDescriptor::of::<u64>());
    let coerced = UniqueHandle::<dyn Dynamic, SlotHandle>::from_raw_parts(raw, metadata);
    coerced.deallocate(&mut store);
    assert!(Unique::<u64>::try_allocate(&mut store).is_ok());
}

#[test]
fn unique_slice_length_follows_allocation_and_growth() {
    let mut store = InlineSingleStorage::<[u32; 8]>::default();
    let mut handle = UniqueHandle::<[u32], SlotHandle>::allocate_slice(3, &mut store);
    assert_eq!(handle.len(), 3);
    assert!(!handle.is_empty());
    handle.grow(6, &mut store);
    assert_eq!(handle.len(), 6);
    handle.grow(6, &mut store);
    assert_eq!(handle.len(), 6);
    assert_eq!(handle.try_grow(9, &mut store), Err(AllocError));
    assert_eq!(handle.len(), 6);
    assert_eq!(handle.try_grow(8, &mut store), Ok(()));
    assert_eq!(handle.len(), 8);
    handle.shrink(0, &mut store);
    assert_eq!(handle.len(), 0);
    assert!(handle.is_empty());
}

#[test]
fn unique_slice_of_no_elements_is_empty() {
    let mut store = InlineSingleStorage::<u64>::default();
    let handle = UniqueHandle::<[u64], SlotHandle>::try_allocate_slice(0, &mut store);
    let handle = handle.ok().unwrap();
    assert_eq!(handle.len(), 0);
    assert!(handle.is_empty());
    assert_eq!(handle.resolve(&store), Vec::<u64>::new());
}

#[test]
fn unique_slice_of_no_elements_still_needs_its_alignment() {
    let mut store = InlineSingleStorage::<u8>::default();
    let handle = UniqueHandle::<[u64], SlotHandle>::try_allocate_slice(0, &mut store);
    assert!(matches!(handle, Err(AllocError)));
    let handle = UniqueHandle::<[u8], SlotHandle>::try_allocate_slice(0, &mut store);
    assert!(handle.is_ok());
}

#[test]
fn unique_slice_allocation_reports_what_does_not_fit() {
    let mut store = InlineSingleStorage::<[u16; 2]>::default();
    type Slice = UniqueHandle<[u16], SlotHandle>;
    assert!(Slice::try_allocate_slice(2, &mut store).is_ok());
    assert!(matches!(Slice::try_allocate_slice(3, &mut store), Err(AllocError)));
    assert!(matches!(Slice::try_allocate_slice(usize::MAX, &mut store), Err(AllocError)));
    assert!(Slice::try_allocate_zeroed_slice(2, &mut store).is_ok());
    assert!(matches!(Slice::try_allocate_zeroed_slice(3, &mut store), Err(AllocError)));
}

#[test]
fn unique_slice_keeps_its_elements_through_growth() {
    let mut store = InlineSingleStorage::<[u8; 8]>::default();
    store.write(0, &[0x55; 8]);
    let mut handle = UniqueHandle::<[u8], SlotHandle>::allocate_zeroed_slice(2, &mut store);
    assert_eq!(handle.resolve(&store), vec![0, 0]);
    handle.resolve_mut(&[1, 2], &mut store);
    handle.grow(4, &mut store);
    assert_eq!(handle.resolve(&store), vec![1, 2, 0x55, 0x55]);
    handle.grow_zeroed(6, &mut store);
    assert_eq!(handle.resolve(&store), vec![1, 2, 0x55, 0x55, 0, 0]);
    assert_eq!(handle.try_grow_zeroed(9, &mut store), Err(AllocError));
    assert_eq!(handle.resolve(&store), vec![1, 2, 0x55, 0x55, 0, 0]);
    assert_eq!(handle.try_grow_zeroed(8, &mut store), Ok(()));
    assert_eq!(handle.resolve(&store), vec![1, 2, 0x55, 0x55, 0, 0, 0, 0]);
    assert_eq!(handle.try_shrink(1, &mut store), Ok(()));
    assert_eq!(handle.resolve(&store), vec![1]);
    let address = handle.resolve_raw(&store);
    assert_eq!(address, 0);
    handle.deallocate(&mut store);
}

#[test]
fn unique_slice_is_rebuilt_from_its_parts() {
    let mut store = InlineSingleStorage::<[u8; 4]>::default();
    let mut handle = UniqueHandle::<[u8], SlotHandle>::allocate_slice(3, &mut store);
    handle.resolve_mut(&[9, 8, 7], &mut store);
    let (raw, metadata) = handle.to_raw_parts();
    assert_eq!(metadata.len(), 3);
    let again = UniqueHandle::<[u8], SlotHandle>::from_raw_parts(raw, TypedMetadata::from_len(3));
    assert_eq!(again.len(), 3);
    assert_eq!(again.resolve(&store), vec![9, 8, 7]);
}

#[test]
fn unique_dynamic_handle_resolves_to_the_bytes_of_the_value() {
    let mut store = InlineSingleStorage::<u16>::default();
    let handle = Unique::<u16>::new(0x0102, &mut store);
    let mut erased = handle.coerce::<dyn Dynamic>();
    assert_eq!(erased.resolve(&store), &[2, 1]);
    erased.resolve_mut(&[4, 3], &mut store);
    assert_eq!(erased.resolve(&store), &[4, 3]);
    let (raw, _) = erased.to_raw_parts();
    let back = Unique::<u16>::from_raw_parts(raw, TypedMetadata::new());
    assert_eq!(back.resolve(&store), 0x0304);
}

#[test]
fn unique_handle_holds_a_value_as_large_as_the_slot() {
    let mut store = InlineSingleStorage::<u128>::default();
    assert_eq!(store.slot_layout().size(), 16);
    let value: u128 = 0xFFEE_DDCC_BBAA_9988_7766_5544_3322_1100;
    let handle = Unique::<u128>::new(value, &mut store);
    assert_eq!(handle.resolve(&store), value);
    assert_eq!(store.read(handle.resolve_raw(&store), 2), &[0x00, 0x11]);
    handle.deallocate(&mut store);
    assert!(Unique::<u128>::try_new(1, &mut store).is_ok());
}
