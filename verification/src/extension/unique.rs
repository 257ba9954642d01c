//! A typed, unique handle.
//!
//! A unique handle is a typed handle that is not shared: nothing here copies it, and
//! whatever ends or changes the allocation takes the handle itself or borrows it
//! exclusively. So at most one unique handle names a given allocation at a time.

use vstd::prelude::*;
use crate::extension::typed::TypedHandle;
use crate::extension::typed_metadata::{Dynamic, Pointee, Thin, TypedMetadata, Unsize};
use crate::interface::{is_zeroed, overwritten, same_reservations, Store, StoreDangling};
use crate::layout::{AllocError, Layout};
use crate::pod::Pod;

verus! {

/// A typed, unique handle.
pub struct UniqueHandle<T: ?Sized + Pointee, H>(TypedHandle<T, H>);

impl<T: ?Sized + Pointee, H> View for UniqueHandle<T, H> {
    type V = TypedHandle<T, H>;

    /// The typed handle that this unique handle owns.
    closed spec fn view(&self) -> TypedHandle<T, H> {
        self.0
    }
}

impl<T, H: Copy> UniqueHandle<T, H> {
    /// Creates a dangling handle: one that can be held, and must never be resolved.
    pub fn dangling<S: StoreDangling<Handle = H>>(store: &S) -> (r: Self)
        requires
            store.wf(),
        ensures
            r@.is_dangling(),
            r@.handle() == store.dangling_handle(),
            r@.metadata() == Thin,
    {
        Self(TypedHandle::dangling(store))
    }

    /// Attempts to create a dangling handle. A store makes its placeholder without
    /// reserving anything, so this never fails.
    pub fn try_dangling<S: StoreDangling<Handle = H>>(store: &S) -> (r: Result<Self, AllocError>)
        requires
            store.wf(),
        ensures
            r is Ok,
            r->Ok_0@.is_dangling(),
            r->Ok_0@.handle() == store.dangling_handle(),
            r->Ok_0@.metadata() == Thin,
    {
        match TypedHandle::try_dangling(store) {
            Ok(handle) => Ok(Self(handle)),
            Err(e) => Err(e),
        }
    }

    /// Creates a new handle, pointing to a `T` that holds `value`.
    pub fn new<S: Store<Handle = H>>(value: T, store: &mut S) -> (r: Self) where T: Pod
        requires
            old(store).wf(),
            old(store).accepts(Layout::for_type::<T>()),
        ensures
            final(store).wf(),
            r@.metadata() == Thin,
            r@.is_valid(*final(store)),
            r@.bytes(*final(store)) == value.image(),
    {
        Self(TypedHandle::new(value, store))
    }

    /// Attempts to create a new handle, pointing to a `T` that holds `value`. Fails, and
    /// leaves the store as it was, where the store does not accept the layout of `T`.
    pub fn try_new<S: Store<Handle = H>>(value: T, store: &mut S) -> (r: Result<
        Self,
        AllocError,
    >) where T: Pod
        requires
            old(store).wf(),
        ensures
            final(store).wf(),
            r is Ok <==> old(store).accepts(Layout::for_type::<T>()),
            r is Ok ==> r->Ok_0@.metadata() == Thin,
            r is Ok ==> r->Ok_0@.is_valid(*final(store)),
            r is Ok ==> r->Ok_0@.bytes(*final(store)) == value.image(),
            r is Err ==> *final(store) == *old(store),
    {
        match TypedHandle::try_new(value, store) {
            Ok(handle) => Ok(Self(handle)),
            Err(e) => Err(e),
        }
    }

    /// Allocates a new handle, with enough space for `T`. The memory is left as it was.
    pub fn allocate<S: Store<Handle = H>>(store: &mut S) -> (r: Self)
        requires
            old(store).wf(),
            old(store).accepts(Layout::for_type::<T>()),
        ensures
            final(store).wf(),
            r@.metadata() == Thin,
            r@.is_valid(*final(store)),
    {
        Self(TypedHandle::allocate(store))
    }

    /// Attempts to allocate a new handle, with enough space for `T`. The memory is left
    /// as it was. Fails, and leaves the store as it was, where the store does not accept
    /// the layout of `T`.
    pub fn try_allocate<S: Store<Handle = H>>(store: &mut S) -> (r: Result<Self, AllocError>)
        requires
            old(store).wf(),
        ensures
            final(store).wf(),
            r is Ok <==> old(store).accepts(Layout::for_type::<T>()),
            r is Ok ==> r->Ok_0@.metadata() == Thin,
            r is Ok ==> r->Ok_0@.is_valid(*final(store)),
            r is Err ==> *final(store) == *old(store),
    {
        match TypedHandle::try_allocate(store) {
            Ok(handle) => Ok(Self(handle)),
            Err(e) => Err(e),
        }
    }

    /// Allocates a new handle, with enough space for `T`. The memory is zeroed out.
    pub fn allocate_zeroed<S: Store<Handle = H>>(store: &mut S) -> (r: Self)
        requires
            old(store).wf(),
            old(store).accepts(Layout::for_type::<T>()),
        ensures
            final(store).wf(),
            r@.metadata() == Thin,
            r@.is_valid(*final(store)),
            is_zeroed(r@.bytes(*final(store))),
    {
        Self(TypedHandle::allocate_zeroed(store))
    }

    /// Attempts to allocate a new handle, with enough space for `T`. The memory is zeroed
    /// out. Fails, and leaves the store as it was, where the store does not accept the
    /// layout of `T`.
    pub fn try_allocate_zeroed<S: Store<Handle = H>>(store: &mut S) -> (r: Result<
        Self,
        AllocError,
    >)
        requires
            old(store).wf(),
        ensures
            final(store).wf(),
            r is Ok <==> old(store).accepts(Layout::for_type::<T>()),
            r is Ok ==> r->Ok_0@.metadata() == Thin,
            r is Ok ==> r->Ok_0@.is_valid(*final(store)),
            r is Ok ==> is_zeroed(r->Ok_0@.bytes(*final(store))),
            r is Err ==> *final(store) == *old(store),
    {
        match TypedHandle::try_allocate_zeroed(store) {
            Ok(handle) => Ok(Self(handle)),
            Err(e) => Err(e),
        }
    }

    /// Resolves the handle to the value it names in `store`.
    pub fn resolve<S: Store<Handle = H>>(&self, store: &S) -> (value: T) where T: Pod
        requires
            store.wf(),
            self@.is_valid(*store),
            T::is_image(self@.bytes(*store)),
        ensures
            value == T::from_image(self@.bytes(*store)),
    {
        self.0.resolve(store)
    }

    /// Resolves the handle for writing: `value` replaces what the handle names in
    /// `store`, and nothing else changes.
    pub fn resolve_mut<S: Store<Handle = H>>(&mut self, value: T, store: &mut S) where T: Pod
        requires
            old(store).wf(),
            old(self)@.is_valid(*old(store)),
        ensures
            final(store).wf(),
            final(self)@ == old(self)@,
            final(self)@.is_valid(*final(store)),
            final(self)@.bytes(*final(store)) == value.image(),
            final(store).memory() == overwritten(
                old(store).memory(),
                old(store).address(old(self)@.handle()) as int,
                value.image(),
            ),
            same_reservations(*old(store), *final(store)),
    {
        self.0.resolve_mut(value, store)
    }
}

impl<T: ?Sized + Pointee, H: Copy> UniqueHandle<T, H> {
    /// Creates a handle from raw parts. The caller vouches that `handle` came from an
    /// allocation and that no copy of it is used from now on.
    pub fn from_raw_parts(handle: H, metadata: TypedMetadata<T>) -> (r: Self)
        ensures
            r@ == TypedHandle::<T, H>::from_parts(handle, metadata@),
            r@.handle() == handle,
            r@.metadata() == metadata@,
            !r@.is_dangling(),
    {
        Self(TypedHandle::from_raw_parts(handle, metadata))
    }

    /// Decomposes the handle into its raw handle and its metadata.
    pub fn to_raw_parts(self) -> (r: (H, TypedMetadata<T>))
        ensures
            r.0 == self@.handle(),
            r.1@ == self@.metadata(),
    {
        self.0.to_raw_parts()
    }

    /// Deallocates the memory associated with the handle.
    pub fn deallocate<S: Store<Handle = H>>(self, store: &mut S)
        requires
            old(store).wf(),
            self@.is_valid(*old(store)),
        ensures
            final(store).wf(),
            !final(store).is_live(self@.handle()),
    {
        self.0.deallocate(store)
    }

    /// Resolves the handle to the address, in the memory of `store`, of what it names.
    pub fn resolve_raw<S: Store<Handle = H>>(&self, store: &S) -> (address: usize)
        requires
            store.wf(),
            self@.is_valid(*store),
        ensures
            address == store.address(self@.handle()),
            address + self@.layout().unwrap().size() <= store.memory().len(),
    {
        self.0.resolve_raw(store)
    }

    /// Coerces the handle into a handle to the less specific type `U`. The store is not
    /// touched: the raw handle stays, the metadata is computed anew.
    pub fn coerce<U: ?Sized + Pointee>(self) -> (r: UniqueHandle<U, H>) where T: Unsize<U>
        ensures
            r@ == self@.coerced::<U>(),
            r@.handle() == self@.handle(),
            r@.metadata() == T::unsized_metadata(self@.metadata()),
            r@.is_dangling() == self@.is_dangling(),
            r@.layout() == self@.layout(),
    {
        UniqueHandle(self.0.coerce())
    }
}

impl<T, H: Copy> UniqueHandle<[T], H> {
    /// Creates a dangling handle for a slice of no elements.
    pub fn dangling_slice<S: StoreDangling<Handle = H>>(store: &S) -> (r: Self)
        requires
            store.wf(),
        ensures
            r@.is_dangling(),
            r@.handle() == store.dangling_handle(),
            r@.len() == 0,
    {
        Self(TypedHandle::dangling_slice(store))
    }

    /// Attempts to create a dangling handle for a slice of no elements. This never
    /// fails.
    pub fn try_dangling_slice<S: StoreDangling<Handle = H>>(store: &S) -> (r: Result<
        Self,
        AllocError,
    >)
        requires
            store.wf(),
        ensures
            r is Ok,
            r->Ok_0@.is_dangling(),
            r->Ok_0@.handle() == store.dangling_handle(),
            r->Ok_0@.len() == 0,
    {
        match TypedHandle::try_dangling_slice(store) {
            Ok(handle) => Ok(Self(handle)),
            Err(e) => Err(e),
        }
    }

    /// Allocates a new handle, with enough space for `size` elements `T`. The memory is
    /// left as it was.
    pub fn allocate_slice<S: Store<Handle = H>>(size: usize, store: &mut S) -> (r: Self)
        requires
            old(store).wf(),
            TypedHandle::<[T], H>::can_allocate(*old(store), size),
        ensures
            final(store).wf(),
            r@.len() == size,
            r@.is_valid(*final(store)),
    {
        Self(TypedHandle::allocate_slice(size, store))
    }

    /// Attempts to allocate a new handle, with enough space for `size` elements `T`. The
    /// memory is left as it was. Fails, and leaves the store as it was, where so many
    /// elements have no layout or the store does not accept it.
    pub fn try_allocate_slice<S: Store<Handle = H>>(size: usize, store: &mut S) -> (r: Result<
        Self,
        AllocError,
    >)
        requires
            old(store).wf(),
        ensures
            final(store).wf(),
            r is Ok <==> TypedHandle::<[T], H>::can_allocate(*old(store), size),
            r is Ok ==> r->Ok_0@.len() == size,
            r is Ok ==> r->Ok_0@.is_valid(*final(store)),
            r is Err ==> *final(store) == *old(store),
    {
        match TypedHandle::try_allocate_slice(size, store) {
            Ok(handle) => Ok(Self(handle)),
            Err(e) => Err(e),
        }
    }

    /// Allocates a new handle, with enough space for `size` elements `T`. The memory is
    /// zeroed out.
    pub fn allocate_zeroed_slice<S: Store<Handle = H>>(size: usize, store: &mut S) -> (r: Self)
        requires
            old(store).wf(),
            TypedHandle::<[T], H>::can_allocate(*old(store), size),
        ensures
            final(store).wf(),
            r@.len() == size,
            r@.is_valid(*final(store)),
            is_zeroed(r@.bytes(*final(store))),
    {
        Self(TypedHandle::allocate_zeroed_slice(size, store))
    }

    /// Attempts to allocate a new handle, with enough space for `size` elements `T`. The
    /// memory is zeroed out. Fails, and leaves the store as it was, where so many
    /// elements have no layout or the store does not accept it.
    pub fn try_allocate_zeroed_slice<S: Store<Handle = H>>(size: usize, store: &mut S) -> (r:
        Result<Self, AllocError>)
        requires
            old(store).wf(),
        ensures
            final(store).wf(),
            r is Ok <==> TypedHandle::<[T], H>::can_allocate(*old(store), size),
            r is Ok ==> r->Ok_0@.len() == size,
            r is Ok ==> r->Ok_0@.is_valid(*final(store)),
            r is Ok ==> is_zeroed(r->Ok_0@.bytes(*final(store))),
            r is Err ==> *final(store) == *old(store),
    {
        match TypedHandle::try_allocate_zeroed_slice(size, store) {
            Ok(handle) => Ok(Self(handle)),
            Err(e) => Err(e),
        }
    }

    /// Resolves the handle to the values of the elements it names in `store`, in order.
    pub fn resolve<S: Store<Handle = H>>(&self, store: &S) -> (values: Vec<T>) where T: Pod
        requires
            store.wf(),
            self@.is_valid(*store),
            self@.holds_elements(*store),
        ensures
            values@.len() == self@.len(),
            forall|i: int|
                0 <= i < self@.len() ==> values@[i] == T::from_image(
                    #[trigger] self@.element_bytes(*store, i),
                ),
    {
        self.0.resolve(store)
    }

    /// Resolves the handle for writing: `values` replace, in order, the elements that
    /// the handle names in `store`, and nothing else changes.
    pub fn resolve_mut<S: Store<Handle = H>>(&mut self, values: &[T], store: &mut S) where T: Pod
        requires
            old(store).wf(),
            old(self)@.is_valid(*old(store)),
            values@.len() == old(self)@.len(),
        ensures
            final(store).wf(),
            final(self)@ == old(self)@,
            final(self)@.is_valid(*final(store)),
            forall|i: int|
                0 <= i < values@.len() ==> #[trigger] final(self)@.element_bytes(
                    *final(store),
                    i,
                ) == values@[i].image(),
            final(store).memory().len() == old(store).memory().len(),
            forall|k: int|
                0 <= k < old(store).memory().len() && !(old(store).address(old(self)@.handle())
                    <= k < old(store).address(old(self)@.handle()) + old(self)@.bytes(
                    *old(store),
                ).len()) ==> final(store).memory()[k] == old(store).memory()[k],
            same_reservations(*old(store), *final(store)),
    {
        self.0.resolve_mut(values, store)
    }

    /// Returns whether the memory area associated to `self` may not contain any element.
    pub fn is_empty(&self) -> (r: bool)
        ensures
            r == (self@.len() == 0),
    {
        self.0.is_empty()
    }

    /// Returns the number of elements the memory area associated to `self` may contain.
    pub fn len(&self) -> (r: usize)
        ensures
            r == self@.len(),
    {
        self.0.len()
    }

    /// Grows the block of memory associated with the handle to `new_size` elements. The
    /// elements that were there are kept; the extra memory is left as it was.
    pub fn grow<S: Store<Handle = H>>(&mut self, new_size: usize, store: &mut S)
        requires
            old(store).wf(),
            old(self)@.is_valid(*old(store)),
            new_size >= old(self)@.len(),
            old(self)@.can_grow(*old(store), new_size),
        ensures
            final(store).wf(),
            final(self)@.len() == new_size,
            final(self)@.is_valid(*final(store)),
            final(self)@.bytes(*final(store)).subrange(
                0,
                old(self)@.bytes(*old(store)).len() as int,
            ) == old(self)@.bytes(*old(store)),
    {
        self.0.grow(new_size, store)
    }

    /// Attempts to grow the block of memory associated with the handle to `new_size`
    /// elements. The elements that were there are kept; the extra memory is left as it
    /// was. Fails, and leaves the handle and the store as they were, where so many
    /// elements have no layout or the store does not accept the request.
    pub fn try_grow<S: Store<Handle = H>>(&mut self, new_size: usize, store: &mut S) -> (r:
        Result<(), AllocError>)
        requires
            old(store).wf(),
            old(self)@.is_valid(*old(store)),
            new_size >= old(self)@.len(),
        ensures
            final(store).wf(),
            r is Ok <==> old(self)@.can_grow(*old(store), new_size),
            r is Ok ==> final(self)@.len() == new_size,
            r is Ok ==> final(self)@.is_valid(*final(store)),
            r is Ok ==> final(self)@.bytes(*final(store)).subrange(
                0,
                old(self)@.bytes(*old(store)).len() as int,
            ) == old(self)@.bytes(*old(store)),
            r is Err ==> final(self)@ == old(self)@ && *final(store) == *old(store),
    {
        self.0.try_grow(new_size, store)
    }

    /// Grows the block of memory associated with the handle to `new_size` elements. The
    /// elements that were there are kept; the extra memory is zeroed.
    pub fn grow_zeroed<S: Store<Handle = H>>(&mut self, new_size: usize, store: &mut S)
        requires
            old(store).wf(),
            old(self)@.is_valid(*old(store)),
            new_size >= old(self)@.len(),
            old(self)@.can_grow(*old(store), new_size),
        ensures
            final(store).wf(),
            final(self)@.len() == new_size,
            final(self)@.is_valid(*final(store)),
            final(self)@.bytes(*final(store)).subrange(
                0,
                old(self)@.bytes(*old(store)).len() as int,
            ) == old(self)@.bytes(*old(store)),
            is_zeroed(
                final(self)@.bytes(*final(store)).subrange(
                    old(self)@.bytes(*old(store)).len() as int,
                    final(self)@.bytes(*final(store)).len() as int,
                ),
            ),
    {
        self.0.grow_zeroed(new_size, store)
    }

    /// Attempts to grow the block of memory associated with the handle to `new_size`
    /// elements. The elements that were there are kept; the extra memory is zeroed.
    /// Fails, and leaves the handle and the store as they were, where so many elements
    /// have no layout or the store does not accept the request.
    pub fn try_grow_zeroed<S: Store<Handle = H>>(&mut self, new_size: usize, store: &mut S) -> (r:
        Result<(), AllocError>)
        requires
            old(store).wf(),
            old(self)@.is_valid(*old(store)),
            new_size >= old(self)@.len(),
        ensures
            final(store).wf(),
            r is Ok <==> old(self)@.can_grow(*old(store), new_size),
            r is Ok ==> final(self)@.len() == new_size,
            r is Ok ==> final(self)@.is_valid(*final(store)),
            r is Ok ==> final(self)@.bytes(*final(store)).subrange(
                0,
                old(self)@.bytes(*old(store)).len() as int,
            ) == old(self)@.bytes(*old(store)),
            r is Ok ==> is_zeroed(
                final(self)@.bytes(*final(store)).subrange(
                    old(self)@.bytes(*old(store)).len() as int,
                    final(self)@.bytes(*final(store)).len() as int,
                ),
            ),
            r is Err ==> final(self)@ == old(self)@ && *final(store) == *old(store),
    {
        self.0.try_grow_zeroed(new_size, store)
    }

    /// Shrinks the block of memory associated with the handle to `new_size` elements,
    /// which are kept.
    pub fn shrink<S: Store<Handle = H>>(&mut self, new_size: usize, store: &mut S)
        requires
            old(store).wf(),
            old(self)@.is_valid(*old(store)),
            new_size <= old(self)@.len(),
            old(self)@.can_shrink(*old(store), new_size),
        ensures
            final(store).wf(),
            final(self)@.len() == new_size,
            final(self)@.is_valid(*final(store)),
            final(self)@.bytes(*final(store)) == old(self)@.bytes(*old(store)).subrange(
                0,
                final(self)@.bytes(*final(store)).len() as int,
            ),
    {
        self.0.shrink(new_size, store)
    }

    /// Attempts to shrink the block of memory associated with the handle to `new_size`
    /// elements, which are kept. Fails, and leaves the handle and the store as they
    /// were, where the store does not accept the request.
    pub fn try_shrink<S: Store<Handle = H>>(&mut self, new_size: usize, store: &mut S) -> (r:
        Result<(), AllocError>)
        requires
            old(store).wf(),
            old(self)@.is_valid(*old(store)),
            new_size <= old(self)@.len(),
        ensures
            final(store).wf(),
            r is Ok <==> old(self)@.can_shrink(*old(store), new_size),
            r is Ok ==> final(self)@.len() == new_size,
            r is Ok ==> final(self)@.is_valid(*final(store)),
            r is Ok ==> final(self)@.bytes(*final(store)) == old(self)@.bytes(
                *old(store),
            ).subrange(0, final(self)@.bytes(*final(store)).len() as int),
            r is Err ==> final(self)@ == old(self)@ && *final(store) == *old(store),
    {
        self.0.try_shrink(new_size, store)
    }
}

impl<H: Copy> UniqueHandle<dyn Dynamic, H> {
    /// Resolves the handle to the bytes of the value it names in `store`. What they mean
    /// is known to whoever knows the concrete type.
    pub fn resolve<'a, S: Store<Handle = H>>(&self, store: &'a S) -> (bytes: &'a [u8])
        requires
            store.wf(),
            self@.is_valid(*store),
        ensures
            bytes@ == self@.bytes(*store),
    {
        self.0.resolve(store)
    }

    /// Resolves the handle for writing: `bytes` replace the value that the handle names
    /// in `store`, and nothing else changes.
    pub fn resolve_mut<S: Store<Handle = H>>(&mut self, bytes: &[u8], store: &mut S)
        requires
            old(store).wf(),
            old(self)@.is_valid(*old(store)),
            bytes@.len() == old(self)@.layout().unwrap().size(),
        ensures
            final(store).wf(),
            final(self)@ == old(self)@,
            final(self)@.is_valid(*final(store)),
            final(self)@.bytes(*final(store)) == bytes@,
            final(store).memory() == overwritten(
                old(store).memory(),
                old(store).address(old(self)@.handle()) as int,
                bytes@,
            ),
            same_reservations(*old(store), *final(store)),
    {
        self.0.resolve_mut(bytes, store)
    }
}

} // verus!
