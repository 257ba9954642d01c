//! A typed handle: a raw handle and the metadata of what it names.
//!
//! A typed handle says where a value of type `T` lives, or will live, if the handle is
//! valid. Whether it is valid is a fact about the store, which every operation that needs
//! it asks of its caller. Nothing is released when a typed handle goes away.

use vstd::prelude::*;
use vstd::layout::size_of;
use crate::extension::typed_metadata::{Dynamic, Pointee, Thin, TypedMetadata, Unsize};
use crate::interface::{
    block, is_zeroed, overwritten, same_reservations, serves, Memory, Store, StoreDangling,
};
use crate::layout::{AllocError, Layout};
use crate::pod::Pod;

verus! {

/// A raw handle of type `H` with the metadata of a `T`.
pub struct TypedHandle<T: ?Sized + Pointee, H> {
    handle: H,
    metadata: TypedMetadata<T>,
    dangling: Ghost<bool>,
}

impl<T: ?Sized + Pointee, H: Copy> Clone for TypedHandle<T, H> {
    /// A second handle to the same place. Which of the two is used is for the caller
    /// to keep track of.
    fn clone(&self) -> (r: Self)
        ensures
            r == *self,
    {
        TypedHandle { handle: self.handle, metadata: self.metadata, dangling: self.dangling }
    }
}

impl<T: ?Sized + Pointee, H: Copy> Copy for TypedHandle<T, H> {

}

impl<T: ?Sized + Pointee, H: Copy> TypedHandle<T, H> {
    /// The raw handle.
    pub closed spec fn spec_handle(&self) -> H {
        self.handle
    }

    /// The metadata.
    pub closed spec fn spec_metadata(&self) -> T::Metadata {
        self.metadata@
    }

    /// Whether this handle is a placeholder: one that was made without an allocation, and
    /// that is never valid.
    pub closed spec fn is_dangling(&self) -> bool {
        self.dangling@
    }

    /// The handle made of a raw handle and metadata.
    pub closed spec fn from_parts(handle: H, metadata: T::Metadata) -> Self {
        TypedHandle { handle, metadata: TypedMetadata::typed(metadata), dangling: Ghost(false) }
    }

    /// The layout of the value that this handle names, where there is one.
    pub open spec fn layout(&self) -> Option<Layout> {
        T::layout_of(self.metadata())
    }

    /// Whether this handle names, in `store`, a live block that can hold its value.
    pub open spec fn is_valid<S: Memory<Handle = H>>(&self, store: S) -> bool {
        &&& !self.is_dangling()
        &&& self.layout() is Some
        &&& serves(store, self.handle(), self.layout().unwrap())
    }

    /// The bytes of the value that this handle names in `store`.
    pub open spec fn bytes<S: Memory<Handle = H>>(&self, store: S) -> Seq<u8> {
        block(store, self.handle()).subrange(0, self.layout().unwrap().size() as int)
    }

    /// This handle, seen as a handle to the less specific type `U`.
    pub closed spec fn coerced<U: ?Sized + Pointee>(&self) -> TypedHandle<U, H> where T: Unsize<U> {
        TypedHandle {
            handle: self.handle,
            metadata: TypedMetadata::typed(T::unsized_metadata(self.metadata@)),
            dangling: self.dangling,
        }
    }

    /// A handle made of parts has those parts, and is no placeholder.
    pub broadcast proof fn lemma_from_parts(handle: H, metadata: T::Metadata)
        ensures
            (#[trigger] Self::from_parts(handle, metadata)).handle() == handle,
            Self::from_parts(handle, metadata).metadata() == metadata,
            !Self::from_parts(handle, metadata).is_dangling(),
    {
        broadcast use TypedMetadata::lemma_typed;

    }

    /// A coerced handle has the raw handle it had, and is a placeholder if and only if
    /// it was one: only the metadata is new, and it describes the same memory.
    pub broadcast proof fn lemma_coerced<U: ?Sized + Pointee>(self) where T: Unsize<U>
        ensures
            (#[trigger] self.coerced::<U>()).handle() == self.handle(),
            self.coerced::<U>().metadata() == T::unsized_metadata(self.metadata()),
            self.coerced::<U>().is_dangling() == self.is_dangling(),
            self.coerced::<U>().layout() == self.layout(),
    {
        broadcast use TypedMetadata::lemma_typed;

        T::lemma_unsize_keeps_layout(self.metadata());
    }

    /// A handle that is coerced is valid in the stores in which it was valid, and names
    /// the same bytes there.
    pub proof fn lemma_coerced_resolves_alike<U: ?Sized + Pointee, S: Memory<Handle = H>>(
        self,
        store: S,
    ) where T: Unsize<U>
        ensures
            self.coerced::<U>().is_valid(store) == self.is_valid(store),
            store.address(self.coerced::<U>().handle()) == store.address(self.handle()),
            self.coerced::<U>().bytes(store) == self.bytes(store),
    {
        self.lemma_coerced::<U>();
    }

    /// A handle that is taken apart and put together again is the handle it was, unless
    /// it was a placeholder; so it is valid in the same stores, and resolves to the same
    /// address with the same metadata.
    pub proof fn lemma_raw_parts_round_trip<S: Memory<Handle = H>>(self, store: S)
        requires
            !self.is_dangling(),
        ensures
            Self::from_parts(self.handle(), self.metadata()) == self,
            Self::from_parts(self.handle(), self.metadata()).is_valid(store) == self.is_valid(
                store,
            ),
            store.address(Self::from_parts(self.handle(), self.metadata()).handle())
                == store.address(self.handle()),
    {
        broadcast use TypedMetadata::lemma_view;

        assert(self.dangling == Ghost(false));
    }

    /// A placeholder is valid in no store: no function that resolves a handle can be
    /// called on it.
    pub proof fn lemma_dangling_never_resolves<S: Memory<Handle = H>>(self, store: S)
        requires
            self.is_dangling(),
        ensures
            !self.is_valid(store),
    {
    }

    /// The raw handle.
    #[verifier::when_used_as_spec(spec_handle)]
    pub fn handle(&self) -> (r: H)
        ensures
            r == self.handle(),
    {
        self.handle
    }

    /// The metadata.
    #[verifier::when_used_as_spec(spec_metadata)]
    pub fn metadata(&self) -> (r: T::Metadata)
        ensures
            r == self.metadata(),
    {
        self.metadata.get()
    }

    /// Creates a handle from raw parts. The caller vouches that `handle` came from an
    /// allocation; whether the result is valid in a store is decided by `is_valid`.
    pub fn from_raw_parts(handle: H, metadata: TypedMetadata<T>) -> (r: Self)
        ensures
            r == Self::from_parts(handle, metadata@),
            r.handle() == handle,
            r.metadata() == metadata@,
            !r.is_dangling(),
    {
        broadcast use TypedHandle::lemma_from_parts, TypedMetadata::lemma_view;

        TypedHandle { handle, metadata, dangling: Ghost(false) }
    }

    /// Decomposes the handle into its raw handle and its metadata.
    pub fn to_raw_parts(self) -> (r: (H, TypedMetadata<T>))
        ensures
            r.0 == self.handle(),
            r.1@ == self.metadata(),
    {
        (self.handle, self.metadata)
    }

    /// Releases the block that the handle names.
    pub fn deallocate<S: Store<Handle = H>>(self, store: &mut S)
        requires
            old(store).wf(),
            self.is_valid(*old(store)),
        ensures
            final(store).wf(),
            !final(store).is_live(self.handle()),
    {
        match self.metadata.layout() {
            Ok(layout) => store.deallocate(self.handle, layout),
            Err(_) => {},
        }
    }

    /// The address, in the memory of `store`, of the value that the handle names.
    pub fn resolve_raw<S: Store<Handle = H>>(&self, store: &S) -> (address: usize)
        requires
            store.wf(),
            self.is_valid(*store),
        ensures
            address == store.address(self.handle()),
            address + self.layout().unwrap().size() <= store.memory().len(),
    {
        store.resolve(self.handle)
    }

    /// Coerces the handle into a handle to the less specific type `U`. The store is not
    /// touched: the raw handle stays, the metadata is computed anew.
    pub fn coerce<U: ?Sized + Pointee>(self) -> (r: TypedHandle<U, H>) where T: Unsize<U>
        ensures
            r == self.coerced::<U>(),
            r.handle() == self.handle(),
            r.metadata() == T::unsized_metadata(self.metadata()),
            r.is_dangling() == self.is_dangling(),
            r.layout() == self.layout(),
    {
        broadcast use TypedMetadata::lemma_typed, TypedMetadata::lemma_view;

        let metadata = self.metadata.coerce::<U>();
        TypedHandle { handle: self.handle, metadata, dangling: self.dangling }
    }
}

impl<T, H: Copy> TypedHandle<T, H> {
    /// Creates a placeholder: a handle that can be held, and must never be resolved.
    pub fn dangling<S: StoreDangling<Handle = H>>(store: &S) -> (r: Self)
        requires
            store.wf(),
        ensures
            r.is_dangling(),
            r.handle() == store.dangling_handle(),
            r.metadata() == Thin,
    {
        broadcast use TypedMetadata::lemma_view;

        TypedHandle { handle: store.dangling(), metadata: TypedMetadata::new(), dangling: Ghost(true) }
    }

    /// Creates a placeholder. A store makes its placeholder without reserving anything,
    /// so this never fails.
    pub fn try_dangling<S: StoreDangling<Handle = H>>(store: &S) -> (r: Result<Self, AllocError>)
        requires
            store.wf(),
        ensures
            r is Ok,
            r->Ok_0.is_dangling(),
            r->Ok_0.handle() == store.dangling_handle(),
            r->Ok_0.metadata() == Thin,
    {
        Ok(Self::dangling(store))
    }

    /// Reserves a block for a `T` in `store` and writes `value` into it.
    pub fn new<S: Store<Handle = H>>(value: T, store: &mut S) -> (r: Self) where T: Pod
        requires
            old(store).wf(),
            old(store).accepts(Layout::for_type::<T>()),
        ensures
            final(store).wf(),
            r.metadata() == Thin,
            r.is_valid(*final(store)),
            r.bytes(*final(store)) == value.image(),
    {
        Self::try_new(value, store).unwrap()
    }

    /// Reserves a block for a `T` in `store` and writes `value` into it, or fails as
    /// the store does.
    pub fn try_new<S: Store<Handle = H>>(value: T, store: &mut S) -> (r: Result<
        Self,
        AllocError,
    >) where T: Pod
        requires
            old(store).wf(),
        ensures
            final(store).wf(),
            r is Ok <==> old(store).accepts(Layout::for_type::<T>()),
            r is Ok ==> r->Ok_0.metadata() == Thin,
            r is Ok ==> r->Ok_0.is_valid(*final(store)),
            r is Ok ==> r->Ok_0.bytes(*final(store)) == value.image(),
            r is Err ==> *final(store) == *old(store),
    {
        store.allocate_typed(value)
    }

    /// Reserves a block for a `T` in `store`. Its bytes hold whatever the memory held.
    pub fn allocate<S: Store<Handle = H>>(store: &mut S) -> (r: Self)
        requires
            old(store).wf(),
            old(store).accepts(Layout::for_type::<T>()),
        ensures
            final(store).wf(),
            r.metadata() == Thin,
            r.is_valid(*final(store)),
    {
        Self::try_allocate(store).unwrap()
    }

    /// Reserves a block for a `T` in `store`, or fails as the store does. Its bytes hold
    /// whatever the memory held.
    pub fn try_allocate<S: Store<Handle = H>>(store: &mut S) -> (r: Result<Self, AllocError>)
        requires
            old(store).wf(),
        ensures
            final(store).wf(),
            r is Ok <==> old(store).accepts(Layout::for_type::<T>()),
            r is Ok ==> r->Ok_0.metadata() == Thin,
            r is Ok ==> r->Ok_0.is_valid(*final(store)),
            r is Err ==> *final(store) == *old(store),
    {
        store.allocate_uninitialized::<T>()
    }

    /// Reserves a block for a `T` in `store`, all of whose bytes are zero.
    pub fn allocate_zeroed<S: Store<Handle = H>>(store: &mut S) -> (r: Self)
        requires
            old(store).wf(),
            old(store).accepts(Layout::for_type::<T>()),
        ensures
            final(store).wf(),
            r.metadata() == Thin,
            r.is_valid(*final(store)),
            is_zeroed(r.bytes(*final(store))),
    {
        Self::try_allocate_zeroed(store).unwrap()
    }

    /// Reserves a block for a `T` in `store`, all of whose bytes are zero, or fails as
    /// the store does.
    pub fn try_allocate_zeroed<S: Store<Handle = H>>(store: &mut S) -> (r: Result<
        Self,
        AllocError,
    >)
        requires
            old(store).wf(),
        ensures
            final(store).wf(),
            r is Ok <==> old(store).accepts(Layout::for_type::<T>()),
            r is Ok ==> r->Ok_0.metadata() == Thin,
            r is Ok ==> r->Ok_0.is_valid(*final(store)),
            r is Ok ==> is_zeroed(r->Ok_0.bytes(*final(store))),
            r is Err ==> *final(store) == *old(store),
    {
        store.allocate_zeroed_typed::<T>()
    }

    /// A handle whose bytes are the image of `value` resolves to `value`: what `new` wrote
    /// and what `resolve_mut` wrote last is what `resolve` gives.
    pub proof fn lemma_resolves_to_what_was_written<S: Memory<Handle = H>>(
        self,
        store: S,
        value: T,
    ) where T: Pod
        requires
            self.bytes(store) == value.image(),
        ensures
            T::is_image(self.bytes(store)),
            T::from_image(self.bytes(store)) == value,
    {
        T::lemma_image(value);
    }

    /// The value that the handle names in `store`.
    pub fn resolve<S: Store<Handle = H>>(&self, store: &S) -> (value: T) where T: Pod
        requires
            store.wf(),
            self.is_valid(*store),
            T::is_image(self.bytes(*store)),
        ensures
            value == T::from_image(self.bytes(*store)),
    {
        store.resolve_typed(self)
    }

    /// Writes `value` over what the handle names in `store`, and changes nothing else.
    pub fn resolve_mut<S: Store<Handle = H>>(&mut self, value: T, store: &mut S) where T: Pod
        requires
            old(store).wf(),
            old(self).is_valid(*old(store)),
        ensures
            final(store).wf(),
            *final(self) == *old(self),
            final(self).is_valid(*final(store)),
            final(self).bytes(*final(store)) == value.image(),
            final(store).memory() == overwritten(
                old(store).memory(),
                old(store).address(old(self).handle()) as int,
                value.image(),
            ),
            same_reservations(*old(store), *final(store)),
    {
        store.resolve_mut_typed(self, value)
    }
}

impl<T, H: Copy> TypedHandle<[T], H> {
    /// The number of elements that the handle stands for.
    pub open spec fn spec_len(&self) -> usize {
        self.metadata()
    }

    /// Whether `store`, as it is, lets this handle grow to `new_size` elements.
    pub open spec fn can_grow<S: Memory<Handle = H>>(&self, store: S, new_size: usize) -> bool {
        &&& Layout::for_array::<T>(new_size) is Some
        &&& store.accepts_grow(
            self.handle(),
            self.layout().unwrap(),
            Layout::for_array::<T>(new_size).unwrap(),
        )
    }

    /// Whether `store`, as it is, lets this handle shrink to `new_size` elements.
    pub open spec fn can_shrink<S: Memory<Handle = H>>(&self, store: S, new_size: usize) -> bool {
        &&& Layout::for_array::<T>(new_size) is Some
        &&& store.accepts_shrink(
            self.handle(),
            self.layout().unwrap(),
            Layout::for_array::<T>(new_size).unwrap(),
        )
    }

    /// Whether `store`, as it is, has room for a slice of `size` elements.
    pub open spec fn can_allocate<S: Memory<Handle = H>>(store: S, size: usize) -> bool {
        &&& Layout::for_array::<T>(size) is Some
        &&& store.accepts(Layout::for_array::<T>(size).unwrap())
    }

    /// Creates a placeholder for a slice of no elements.
    pub fn dangling_slice<S: StoreDangling<Handle = H>>(store: &S) -> (r: Self)
        requires
            store.wf(),
        ensures
            r.is_dangling(),
            r.handle() == store.dangling_handle(),
            r.len() == 0,
    {
        broadcast use TypedMetadata::lemma_view;

        TypedHandle {
            handle: store.dangling(),
            metadata: TypedMetadata::from_len(0),
            dangling: Ghost(true),
        }
    }

    /// Creates a placeholder for a slice of no elements. This never fails.
    pub fn try_dangling_slice<S: StoreDangling<Handle = H>>(store: &S) -> (r: Result<
        Self,
        AllocError,
    >)
        requires
            store.wf(),
        ensures
            r is Ok,
            r->Ok_0.is_dangling(),
            r->Ok_0.handle() == store.dangling_handle(),
            r->Ok_0.len() == 0,
    {
        Ok(Self::dangling_slice(store))
    }

    /// Reserves a block for `size` elements in `store`. Its bytes hold whatever the
    /// memory held.
    pub fn allocate_slice<S: Store<Handle = H>>(size: usize, store: &mut S) -> (r: Self)
        requires
            old(store).wf(),
            Self::can_allocate(*old(store), size),
        ensures
            final(store).wf(),
            r.len() == size,
            r.is_valid(*final(store)),
    {
        Self::try_allocate_slice(size, store).unwrap()
    }

    /// Reserves a block for `size` elements in `store`. Fails, and leaves the store as it
    /// was, where so many elements have no layout or the store does not accept it.
    pub fn try_allocate_slice<S: Store<Handle = H>>(size: usize, store: &mut S) -> (r: Result<
        Self,
        AllocError,
    >)
        requires
            old(store).wf(),
        ensures
            final(store).wf(),
            r is Ok <==> Self::can_allocate(*old(store), size),
            r is Ok ==> r->Ok_0.len() == size,
            r is Ok ==> r->Ok_0.is_valid(*final(store)),
            r is Err ==> *final(store) == *old(store),
    {
        broadcast use TypedHandle::lemma_from_parts;

        let layout = match Layout::array::<T>(size) {
            Ok(layout) => layout,
            Err(e) => {
                return Err(e);
            },
        };
        match store.allocate(layout) {
            Ok(handle) => Ok(Self::from_raw_parts(handle, TypedMetadata::from_len(size))),
            Err(e) => Err(e),
        }
    }

    /// Reserves a block for `size` elements in `store`, all of whose bytes are zero.
    pub fn allocate_zeroed_slice<S: Store<Handle = H>>(size: usize, store: &mut S) -> (r: Self)
        requires
            old(store).wf(),
            Self::can_allocate(*old(store), size),
        ensures
            final(store).wf(),
            r.len() == size,
            r.is_valid(*final(store)),
            is_zeroed(r.bytes(*final(store))),
    {
        Self::try_allocate_zeroed_slice(size, store).unwrap()
    }

    /// Reserves a block for `size` elements in `store`, all of whose bytes are zero.
    /// Fails, and leaves the store as it was, where so many elements have no layout or the
    /// store does not accept it.
    pub fn try_allocate_zeroed_slice<S: Store<Handle = H>>(size: usize, store: &mut S) -> (r:
        Result<Self, AllocError>)
        requires
            old(store).wf(),
        ensures
            final(store).wf(),
            r is Ok <==> Self::can_allocate(*old(store), size),
            r is Ok ==> r->Ok_0.len() == size,
            r is Ok ==> r->Ok_0.is_valid(*final(store)),
            r is Ok ==> is_zeroed(r->Ok_0.bytes(*final(store))),
            r is Err ==> *final(store) == *old(store),
    {
        broadcast use TypedHandle::lemma_from_parts;

        let layout = match Layout::array::<T>(size) {
            Ok(layout) => layout,
            Err(e) => {
                return Err(e);
            },
        };
        match store.allocate_zeroed(layout) {
            Ok(handle) => Ok(Self::from_raw_parts(handle, TypedMetadata::from_len(size))),
            Err(e) => Err(e),
        }
    }

    /// The bytes of the element of index `i`.
    pub open spec fn element_bytes<S: Memory<Handle = H>>(&self, store: S, i: int) -> Seq<u8> {
        self.bytes(store).subrange(i * size_of::<T>(), (i + 1) * size_of::<T>())
    }

    /// Whether each element that the handle stands for holds a value in `store`.
    pub open spec fn holds_elements<S: Memory<Handle = H>>(&self, store: S) -> bool where T: Pod {
        forall|i: int| 0 <= i < self.len() ==> T::is_image(#[trigger] self.element_bytes(store, i))
    }

    /// The values of the elements that the handle names in `store`, in order.
    pub fn resolve<S: Store<Handle = H>>(&self, store: &S) -> (values: Vec<T>) where T: Pod
        requires
            store.wf(),
            self.is_valid(*store),
            self.holds_elements(*store),
        ensures
            values@.len() == self.len(),
            forall|i: int|
                0 <= i < self.len() ==> values@[i] == T::from_image(
                    #[trigger] self.element_bytes(*store, i),
                ),
    {
        broadcast use Layout::lemma_of;

        let len = self.metadata.len();
        let element = Layout::new::<T>().size();
        let base = store.resolve(self.handle);
        let mut values: Vec<T> = Vec::new();
        let mut i: usize = 0;
        while i < len
            invariant
                i <= len,
                len == self.len(),
                element == size_of::<T>(),
                store.wf(),
                self.is_valid(*store),
                self.holds_elements(*store),
                self.layout().unwrap().size() == len * element,
                base == store.address(self.handle()),
                base + store.capacity(self.handle()) <= store.memory().len(),
                base + store.capacity(self.handle()) <= usize::MAX,
                values@.len() == i,
                forall|j: int|
                    0 <= j < i ==> values@[j] == T::from_image(
                        #[trigger] self.element_bytes(*store, j),
                    ),
            decreases len - i,
        {
            proof {
                lemma_element_within(i as int, len as int, element as int);
            }
            let bytes = store.read(base + i * element, element);
            assert(bytes@ =~= self.element_bytes(*store, i as int));
            values.push(T::from_bytes(bytes));
            i = i + 1;
        }
        values
    }

    /// Writes `values` over the elements that the handle names in `store`, in order, and
    /// changes nothing else.
    pub fn resolve_mut<S: Store<Handle = H>>(&mut self, values: &[T], store: &mut S) where T: Pod
        requires
            old(store).wf(),
            old(self).is_valid(*old(store)),
            values@.len() == old(self).len(),
        ensures
            final(store).wf(),
            *final(self) == *old(self),
            final(self).is_valid(*final(store)),
            forall|i: int|
                0 <= i < values@.len() ==> #[trigger] final(self).element_bytes(*final(store), i)
                    == values@[i].image(),
            final(store).memory().len() == old(store).memory().len(),
            forall|k: int|
                0 <= k < old(store).memory().len() && !(old(store).address(old(self).handle()) <= k
                    < old(store).address(old(self).handle()) + old(self).bytes(*old(store)).len())
                    ==> final(store).memory()[k] == old(store).memory()[k],
            same_reservations(*old(store), *final(store)),
    {
        broadcast use Layout::lemma_of;

        let len = self.metadata.len();
        let element = Layout::new::<T>().size();
        let base = store.resolve(self.handle);
        let mut i: usize = 0;
        while i < len
            invariant
                i <= len,
                len == self.len(),
                len == values@.len(),
                *self == *old(self),
                element == size_of::<T>(),
                store.wf(),
                self.is_valid(*store),
                same_reservations(*old(store), *store),
                self.layout().unwrap().size() == len * element,
                base == store.address(self.handle()),
                base + store.capacity(self.handle()) <= store.memory().len(),
                base + store.capacity(self.handle()) <= usize::MAX,
                store.memory().len() == old(store).memory().len(),
                forall|j: int|
                    0 <= j < i ==> #[trigger] self.element_bytes(*store, j) == values@[j].image(),
                forall|k: int|
                    0 <= k < store.memory().len() && !(base <= k < base + i * element)
                        ==> store.memory()[k] == old(store).memory()[k],
            decreases len - i,
        {
            proof {
                lemma_element_within(i as int, len as int, element as int);
                T::lemma_image(values@[i as int]);
            }
            let bytes = values[i].to_bytes();
            let ghost before = *store;
            store.write(base + i * element, bytes.as_slice());
            proof {
                assert(self.element_bytes(*store, i as int) =~= values@[i as int].image());
                assert forall|j: int| 0 <= j < i implies #[trigger] self.element_bytes(*store, j)
                    == values@[j].image() by {
                    lemma_element_within(j, i as int, element as int);
                    assert(self.element_bytes(*store, j) =~= self.element_bytes(before, j));
                }
            }
            i = i + 1;
        }
    }

    /// Whether the handle stands for no elements.
    pub fn is_empty(&self) -> (r: bool)
        ensures
            r == (self.len() == 0),
    {
        self.metadata.len() == 0
    }

    /// The number of elements that the handle stands for.
    #[verifier::when_used_as_spec(spec_len)]
    pub fn len(&self) -> (r: usize)
        ensures
            r == self.len(),
    {
        self.metadata.len()
    }

    /// Grows the block to `new_size` elements. The elements that were there are kept;
    /// the bytes of the new ones hold whatever the memory held.
    pub fn grow<S: Store<Handle = H>>(&mut self, new_size: usize, store: &mut S)
        requires
            old(store).wf(),
            old(self).is_valid(*old(store)),
            new_size >= old(self).len(),
            old(self).can_grow(*old(store), new_size),
        ensures
            final(store).wf(),
            final(self).len() == new_size,
            final(self).is_valid(*final(store)),
            final(self).bytes(*final(store)).subrange(0, old(self).bytes(*old(store)).len() as int)
                == old(self).bytes(*old(store)),
    {
        self.try_grow(new_size, store).unwrap()
    }

    /// Grows the block to `new_size` elements. The elements that were there are kept;
    /// the bytes of the new ones hold whatever the memory held. Fails, and leaves the
    /// handle and the store as they were, where so many elements have no layout or the
    /// store does not accept the request.
    pub fn try_grow<S: Store<Handle = H>>(&mut self, new_size: usize, store: &mut S) -> (r:
        Result<(), AllocError>)
        requires
            old(store).wf(),
            old(self).is_valid(*old(store)),
            new_size >= old(self).len(),
        ensures
            final(store).wf(),
            r is Ok <==> old(self).can_grow(*old(store), new_size),
            r is Ok ==> final(self).len() == new_size,
            r is Ok ==> final(self).is_valid(*final(store)),
            r is Ok ==> final(self).bytes(*final(store)).subrange(
                0,
                old(self).bytes(*old(store)).len() as int,
            ) == old(self).bytes(*old(store)),
            r is Err ==> *final(self) == *old(self) && *final(store) == *old(store),
    {
        broadcast use TypedHandle::lemma_from_parts, TypedMetadata::lemma_view;

        let old_layout = match Layout::array::<T>(self.metadata.len()) {
            Ok(layout) => layout,
            Err(e) => {
                return Err(e);
            },
        };
        let new_layout = match Layout::array::<T>(new_size) {
            Ok(layout) => layout,
            Err(e) => {
                return Err(e);
            },
        };
        proof {
            lemma_sizes_ordered(
                self.metadata@ as int,
                new_size as int,
                size_of::<T>() as int,
            );
        }
        match store.grow(self.handle, old_layout, new_layout) {
            Ok(handle) => {
                self.handle = handle;
                self.metadata = TypedMetadata::from_len(new_size);
                assert(self.bytes(*store).subrange(0, old_layout.size() as int) =~= block(
                    *store,
                    handle,
                ).subrange(0, old_layout.size() as int));
                Ok(())
            },
            Err(e) => Err(e),
        }
    }

    /// Grows the block to `new_size` elements. The elements that were there are kept;
    /// the bytes of the new ones are zero.
    pub fn grow_zeroed<S: Store<Handle = H>>(&mut self, new_size: usize, store: &mut S)
        requires
            old(store).wf(),
            old(self).is_valid(*old(store)),
            new_size >= old(self).len(),
            old(self).can_grow(*old(store), new_size),
        ensures
            final(store).wf(),
            final(self).len() == new_size,
            final(self).is_valid(*final(store)),
            final(self).bytes(*final(store)).subrange(0, old(self).bytes(*old(store)).len() as int)
                == old(self).bytes(*old(store)),
            is_zeroed(
                final(self).bytes(*final(store)).subrange(
                    old(self).bytes(*old(store)).len() as int,
                    final(self).bytes(*final(store)).len() as int,
                ),
            ),
    {
        self.try_grow_zeroed(new_size, store).unwrap()
    }

    /// Grows the block to `new_size` elements. The elements that were there are kept;
    /// the bytes of the new ones are zero. Fails, and leaves the handle and the store as
    /// they were, where so many elements have no layout or the store does not accept the
    /// request.
    pub fn try_grow_zeroed<S: Store<Handle = H>>(&mut self, new_size: usize, store: &mut S) -> (r:
        Result<(), AllocError>)
        requires
            old(store).wf(),
            old(self).is_valid(*old(store)),
            new_size >= old(self).len(),
        ensures
            final(store).wf(),
            r is Ok <==> old(self).can_grow(*old(store), new_size),
            r is Ok ==> final(self).len() == new_size,
            r is Ok ==> final(self).is_valid(*final(store)),
            r is Ok ==> final(self).bytes(*final(store)).subrange(
                0,
                old(self).bytes(*old(store)).len() as int,
            ) == old(self).bytes(*old(store)),
            r is Ok ==> is_zeroed(
                final(self).bytes(*final(store)).subrange(
                    old(self).bytes(*old(store)).len() as int,
                    final(self).bytes(*final(store)).len() as int,
                ),
            ),
            r is Err ==> *final(self) == *old(self) && *final(store) == *old(store),
    {
        broadcast use TypedHandle::lemma_from_parts, TypedMetadata::lemma_view;

        let old_layout = match Layout::array::<T>(self.metadata.len()) {
            Ok(layout) => layout,
            Err(e) => {
                return Err(e);
            },
        };
        let new_layout = match Layout::array::<T>(new_size) {
            Ok(layout) => layout,
            Err(e) => {
                return Err(e);
            },
        };
        proof {
            lemma_sizes_ordered(
                self.metadata@ as int,
                new_size as int,
                size_of::<T>() as int,
            );
        }
        match store.grow_zeroed(self.handle, old_layout, new_layout) {
            Ok(handle) => {
                self.handle = handle;
                self.metadata = TypedMetadata::from_len(new_size);
                assert(self.bytes(*store).subrange(0, old_layout.size() as int) =~= block(
                    *store,
                    handle,
                ).subrange(0, old_layout.size() as int));
                assert(self.bytes(*store).subrange(
                    old_layout.size() as int,
                    new_layout.size() as int,
                ) =~= block(*store, handle).subrange(
                    old_layout.size() as int,
                    new_layout.size() as int,
                ));
                Ok(())
            },
            Err(e) => Err(e),
        }
    }

    /// Shrinks the block to `new_size` elements, which are kept.
    pub fn shrink<S: Store<Handle = H>>(&mut self, new_size: usize, store: &mut S)
        requires
            old(store).wf(),
            old(self).is_valid(*old(store)),
            new_size <= old(self).len(),
            old(self).can_shrink(*old(store), new_size),
        ensures
            final(store).wf(),
            final(self).len() == new_size,
            final(self).is_valid(*final(store)),
            final(self).bytes(*final(store)) == old(self).bytes(*old(store)).subrange(
                0,
                final(self).bytes(*final(store)).len() as int,
            ),
    {
        self.try_shrink(new_size, store).unwrap()
    }

    /// Shrinks the block to `new_size` elements, which are kept. Fails, and leaves the
    /// handle and the store as they were, where the store does not accept the request.
    pub fn try_shrink<S: Store<Handle = H>>(&mut self, new_size: usize, store: &mut S) -> (r:
        Result<(), AllocError>)
        requires
            old(store).wf(),
            old(self).is_valid(*old(store)),
            new_size <= old(self).len(),
        ensures
            final(store).wf(),
            r is Ok <==> old(self).can_shrink(*old(store), new_size),
            r is Ok ==> final(self).len() == new_size,
            r is Ok ==> final(self).is_valid(*final(store)),
            r is Ok ==> final(self).bytes(*final(store)) == old(self).bytes(*old(store)).subrange(
                0,
                final(self).bytes(*final(store)).len() as int,
            ),
            r is Err ==> *final(self) == *old(self) && *final(store) == *old(store),
    {
        broadcast use TypedHandle::lemma_from_parts, TypedMetadata::lemma_view;

        let old_layout = match Layout::array::<T>(self.metadata.len()) {
            Ok(layout) => layout,
            Err(e) => {
                return Err(e);
            },
        };
        let new_layout = match Layout::array::<T>(new_size) {
            Ok(layout) => layout,
            Err(e) => {
                return Err(e);
            },
        };
        proof {
            lemma_sizes_ordered(
                new_size as int,
                self.metadata@ as int,
                size_of::<T>() as int,
            );
        }
        match store.shrink(self.handle, old_layout, new_layout) {
            Ok(handle) => {
                self.handle = handle;
                self.metadata = TypedMetadata::from_len(new_size);
                assert(self.bytes(*store) =~= old(self).bytes(*old(store)).subrange(
                    0,
                    new_layout.size() as int,
                ));
                Ok(())
            },
            Err(e) => Err(e),
        }
    }
}

impl<H: Copy> TypedHandle<dyn Dynamic, H> {
    /// The bytes of the value that the handle names in `store`. What they mean is known
    /// to whoever knows the concrete type.
    pub fn resolve<'a, S: Store<Handle = H>>(&self, store: &'a S) -> (bytes: &'a [u8])
        requires
            store.wf(),
            self.is_valid(*store),
        ensures
            bytes@ == self.bytes(*store),
    {
        let size = self.metadata.get().layout().size();
        let address = store.resolve(self.handle);
        let bytes = store.read(address, size);
        assert(bytes@ =~= self.bytes(*store));
        bytes
    }

    /// Writes `bytes` over the value that the handle names in `store`, and changes nothing
    /// else.
    pub fn resolve_mut<S: Store<Handle = H>>(&mut self, bytes: &[u8], store: &mut S)
        requires
            old(store).wf(),
            old(self).is_valid(*old(store)),
            bytes@.len() == old(self).layout().unwrap().size(),
        ensures
            final(store).wf(),
            *final(self) == *old(self),
            final(self).is_valid(*final(store)),
            final(self).bytes(*final(store)) == bytes@,
            final(store).memory() == overwritten(
                old(store).memory(),
                old(store).address(old(self).handle()) as int,
                bytes@,
            ),
            same_reservations(*old(store), *final(store)),
    {
        let address = store.resolve(self.handle);
        store.write(address, bytes);
        assert(self.bytes(*store) =~= bytes@);
    }
}

/// The element of index `i` of `len` elements ends where the next one starts, and no
/// later than they all end.
proof fn lemma_element_within(i: int, len: int, element: int)
    requires
        0 <= i < len,
        0 <= element,
    ensures
        0 <= i * element,
        i * element + element == (i + 1) * element,
        (i + 1) * element <= len * element,
{
    assert(0 <= i * element && i * element + element == (i + 1) * element && (i + 1) * element
        <= len * element) by (nonlinear_arith)
        requires
            0 <= i < len,
            0 <= element,
    ;
}

/// More elements of one size take no fewer bytes.
proof fn lemma_sizes_ordered(fewer: int, more: int, element: int)
    requires
        0 <= fewer <= more,
        0 <= element,
    ensures
        fewer * element <= more * element,
{
    assert(fewer * element <= more * element) by (nonlinear_arith)
        requires
            0 <= fewer <= more,
            0 <= element,
    ;
}

} // verus!
