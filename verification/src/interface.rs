//! What a store must do.
//!
//! A store owns a run of bytes, its memory. An allocation reserves a block of that
//! memory and names it by a handle; the address of a block is its offset into the
//! memory. A handle means something only to the store that issued it, and only while it
//! is live there.

use vstd::prelude::*;
use crate::extension::typed::TypedHandle;
use crate::extension::typed_metadata::{Pointee, Thin, TypedMetadata};
use crate::layout::{AllocError, Layout};
use crate::pod::Pod;

verus! {

/// Whether every byte of `bytes` is zero.
pub open spec fn is_zeroed(bytes: Seq<u8>) -> bool {
    forall|i: int| 0 <= i < bytes.len() ==> bytes[i] == 0
}

/// `memory` with `bytes` written over it from offset `address` on.
pub open spec fn overwritten(memory: Seq<u8>, address: int, bytes: Seq<u8>) -> Seq<u8> {
    Seq::new(
        memory.len(),
        |i: int|
            if address <= i < address + bytes.len() {
                bytes[i - address]
            } else {
                memory[i]
            },
    )
}

/// A store as contracts see it: the memory it owns, the blocks reserved in it, and the
/// requests it satisfies.
pub trait Memory: Sized {
    /// The name of a block. It carries no meaning outside the store that issued it.
    type Handle: Copy;

    /// The store's own invariant.
    spec fn wf(&self) -> bool;

    /// The bytes that the store owns.
    spec fn memory(&self) -> Seq<u8>;

    /// Whether `handle` names a block of this store right now.
    spec fn is_live(&self, handle: Self::Handle) -> bool;

    /// The offset into `memory` at which the block of `handle` starts.
    spec fn address(&self, handle: Self::Handle) -> nat;

    /// The number of bytes reserved for the block of `handle`.
    spec fn capacity(&self, handle: Self::Handle) -> nat;

    /// Whether the store, as it is, satisfies a request for `layout`.
    spec fn accepts(&self, layout: Layout) -> bool;

    /// Whether the store, as it is, satisfies a request to grow the block of `handle`
    /// from `old_layout` to `new_layout`.
    spec fn accepts_grow(&self, handle: Self::Handle, old_layout: Layout, new_layout: Layout) -> bool;

    /// Whether the store, as it is, satisfies a request to shrink the block of `handle`
    /// from `old_layout` to `new_layout`.
    spec fn accepts_shrink(&self, handle: Self::Handle, old_layout: Layout, new_layout: Layout) -> bool;
}

/// The bytes of the block of `handle` in `store`.
pub open spec fn block<S: Memory>(store: S, handle: S::Handle) -> Seq<u8> {
    store.memory().subrange(
        store.address(handle) as int,
        (store.address(handle) + store.capacity(handle)) as int,
    )
}

/// Whether `handle` names a live block of `store` that can hold a region of `layout`.
pub open spec fn serves<S: Memory>(store: S, handle: S::Handle, layout: Layout) -> bool {
    &&& store.is_live(handle)
    &&& layout.size() <= store.capacity(handle)
    &&& store.address(handle) % (layout.align() as nat) == 0
    &&& store.address(handle) + store.capacity(handle) <= store.memory().len()
}

/// The bytes of `store` from the address of the block of `handle` on, `len` of them.
pub open spec fn bytes_at<S: Memory>(store: S, handle: S::Handle, len: nat) -> Seq<u8> {
    store.memory().subrange(store.address(handle) as int, (store.address(handle) + len) as int)
}

/// The `len` bytes that are read at the address of a block are the first `len` bytes of the
/// block. So where those are zero, zeros are read; and where they are kept from one
/// state of the store to another, the same bytes are read at the block's address in both.
pub proof fn lemma_read_at_address<S: Memory>(store: S, handle: S::Handle, len: nat)
    requires
        store.address(handle) + store.capacity(handle) <= store.memory().len(),
        len <= store.capacity(handle),
    ensures
        bytes_at(store, handle, len) == block(store, handle).subrange(0, len as int),
        is_zeroed(block(store, handle).subrange(0, len as int)) ==> is_zeroed(
            bytes_at(store, handle, len),
        ),
{
    assert(bytes_at(store, handle, len) =~= block(store, handle).subrange(0, len as int));
}

/// Whether two states of a store have the same blocks reserved at the same places, and
/// satisfy the same requests.
pub open spec fn same_reservations<S: Memory>(before: S, after: S) -> bool {
    &&& forall|h: S::Handle| #[trigger] after.is_live(h) == before.is_live(h)
    &&& forall|h: S::Handle| #[trigger] after.address(h) == before.address(h)
    &&& forall|h: S::Handle| #[trigger] after.capacity(h) == before.capacity(h)
    &&& forall|l: Layout| #[trigger] after.accepts(l) == before.accepts(l)
    &&& forall|h: S::Handle, a: Layout, b: Layout| #[trigger]
        after.accepts_grow(h, a, b) == before.accepts_grow(h, a, b)
    &&& forall|h: S::Handle, a: Layout, b: Layout| #[trigger]
        after.accepts_shrink(h, a, b) == before.accepts_shrink(h, a, b)
}

/// The raw, byte-oriented contract of a store.
///
/// Unless an implementation says more, any call that takes the store by `&mut` may end
/// the life of every handle but the one it returns.
pub trait Storage: Memory {
    /// Reserves a block for `layout`. Its bytes hold whatever the memory held.
    fn allocate(&mut self, layout: Layout) -> (r: Result<Self::Handle, AllocError>)
        requires
            old(self).wf(),
        ensures
            final(self).wf(),
            r is Ok <==> old(self).accepts(layout),
            r is Ok ==> serves(*final(self), r->Ok_0, layout),
            r is Err ==> *final(self) == *old(self),
    ;

    /// Reserves a block for `layout` whose first `layout.size()` bytes are zero.
    fn allocate_zeroed(&mut self, layout: Layout) -> (r: Result<Self::Handle, AllocError>)
        requires
            old(self).wf(),
        ensures
            final(self).wf(),
            r is Ok <==> old(self).accepts(layout),
            r is Ok ==> serves(*final(self), r->Ok_0, layout),
            r is Ok ==> is_zeroed(block(*final(self), r->Ok_0).subrange(0, layout.size() as int)),
            r is Err ==> *final(self) == *old(self),
    ;

    /// Releases the block of `handle`, which was reserved for `layout` or for more.
    fn deallocate(&mut self, handle: Self::Handle, layout: Layout)
        requires
            old(self).wf(),
            serves(*old(self), handle, layout),
        ensures
            final(self).wf(),
            !final(self).is_live(handle),
    ;

    /// The address of the block of `handle`.
    fn resolve(&self, handle: Self::Handle) -> (address: usize)
        requires
            self.wf(),
            self.is_live(handle),
        ensures
            address == self.address(handle),
            address + self.capacity(handle) <= self.memory().len(),
            address + self.capacity(handle) <= usize::MAX,
    ;

    /// Makes the block of `handle` large enough for `new_layout`, in place or elsewhere.
    /// The first `old_layout.size()` bytes are kept; the rest hold whatever the memory
    /// held. On failure nothing changes.
    fn grow(&mut self, handle: Self::Handle, old_layout: Layout, new_layout: Layout) -> (r: Result<
        Self::Handle,
        AllocError,
    >)
        requires
            old(self).wf(),
            serves(*old(self), handle, old_layout),
            new_layout.size() >= old_layout.size(),
        ensures
            final(self).wf(),
            r is Ok <==> old(self).accepts_grow(handle, old_layout, new_layout),
            r is Ok ==> serves(*final(self), r->Ok_0, new_layout),
            r is Ok ==> block(*final(self), r->Ok_0).subrange(0, old_layout.size() as int)
                == block(*old(self), handle).subrange(0, old_layout.size() as int),
            r is Err ==> *final(self) == *old(self),
    ;

    /// As `grow`, and the bytes from `old_layout.size()` up to `new_layout.size()` are
    /// zero.
    fn grow_zeroed(&mut self, handle: Self::Handle, old_layout: Layout, new_layout: Layout) -> (r:
        Result<Self::Handle, AllocError>)
        requires
            old(self).wf(),
            serves(*old(self), handle, old_layout),
            new_layout.size() >= old_layout.size(),
        ensures
            final(self).wf(),
            r is Ok <==> old(self).accepts_grow(handle, old_layout, new_layout),
            r is Ok ==> serves(*final(self), r->Ok_0, new_layout),
            r is Ok ==> block(*final(self), r->Ok_0).subrange(0, old_layout.size() as int)
                == block(*old(self), handle).subrange(0, old_layout.size() as int),
            r is Ok ==> is_zeroed(
                block(*final(self), r->Ok_0).subrange(
                    old_layout.size() as int,
                    new_layout.size() as int,
                ),
            ),
            r is Err ==> *final(self) == *old(self),
    ;

    /// Makes the block of `handle` as small as `new_layout`, in place or elsewhere. The
    /// first `new_layout.size()` bytes are kept. On failure nothing changes.
    fn shrink(&mut self, handle: Self::Handle, old_layout: Layout, new_layout: Layout) -> (r:
        Result<Self::Handle, AllocError>)
        requires
            old(self).wf(),
            serves(*old(self), handle, old_layout),
            new_layout.size() <= old_layout.size(),
        ensures
            final(self).wf(),
            r is Ok <==> old(self).accepts_shrink(handle, old_layout, new_layout),
            r is Ok ==> serves(*final(self), r->Ok_0, new_layout),
            r is Ok ==> block(*final(self), r->Ok_0).subrange(0, new_layout.size() as int)
                == block(*old(self), handle).subrange(0, new_layout.size() as int),
            r is Err ==> *final(self) == *old(self),
    ;

    /// The `len` bytes of memory from `address` on.
    fn read(&self, address: usize, len: usize) -> (bytes: &[u8])
        requires
            self.wf(),
            address + len <= self.memory().len(),
        ensures
            bytes@ == self.memory().subrange(address as int, address + len),
    ;

    /// Writes `bytes` into memory from `address` on, and changes nothing else.
    fn write(&mut self, address: usize, bytes: &[u8])
        requires
            old(self).wf(),
            address + bytes@.len() <= old(self).memory().len(),
        ensures
            final(self).wf(),
            final(self).memory() == overwritten(old(self).memory(), address as int, bytes@),
            same_reservations(*old(self), *final(self)),
    ;
}

/// The typed contract of a store: what `Storage` does for layouts, done for values of a
/// type. Every store has it.
pub trait Store: Storage {
    /// Reserves a block for a `T`. Its bytes hold whatever the memory held.
    fn allocate_uninitialized<T>(&mut self) -> (r: Result<TypedHandle<T, Self::Handle>, AllocError>)
        requires
            old(self).wf(),
        ensures
            final(self).wf(),
            r is Ok <==> old(self).accepts(Layout::for_type::<T>()),
            r is Ok ==> r->Ok_0.metadata() == Thin,
            r is Ok ==> r->Ok_0.is_valid(*final(self)),
            r is Err ==> *final(self) == *old(self),
    {
        broadcast use TypedHandle::lemma_from_parts;

        match self.allocate(Layout::new::<T>()) {
            Ok(handle) => Ok(TypedHandle::from_raw_parts(handle, TypedMetadata::new())),
            Err(e) => Err(e),
        }
    }

    /// Reserves a block for a `T`, all of whose bytes are zero.
    fn allocate_zeroed_typed<T>(&mut self) -> (r: Result<TypedHandle<T, Self::Handle>, AllocError>)
        requires
            old(self).wf(),
        ensures
            final(self).wf(),
            r is Ok <==> old(self).accepts(Layout::for_type::<T>()),
            r is Ok ==> r->Ok_0.metadata() == Thin,
            r is Ok ==> r->Ok_0.is_valid(*final(self)),
            r is Ok ==> is_zeroed(r->Ok_0.bytes(*final(self))),
            r is Err ==> *final(self) == *old(self),
    {
        broadcast use TypedHandle::lemma_from_parts;

        match self.allocate_zeroed(Layout::new::<T>()) {
            Ok(handle) => Ok(TypedHandle::from_raw_parts(handle, TypedMetadata::new())),
            Err(e) => Err(e),
        }
    }

    /// Reserves a block for a `T` and writes `value` into it.
    fn allocate_typed<T: Pod>(&mut self, value: T) -> (r: Result<
        TypedHandle<T, Self::Handle>,
        AllocError,
    >)
        requires
            old(self).wf(),
        ensures
            final(self).wf(),
            r is Ok <==> old(self).accepts(Layout::for_type::<T>()),
            r is Ok ==> r->Ok_0.metadata() == Thin,
            r is Ok ==> r->Ok_0.is_valid(*final(self)),
            r is Ok ==> r->Ok_0.bytes(*final(self)) == value.image(),
            r is Err ==> *final(self) == *old(self),
    {
        broadcast use TypedHandle::lemma_from_parts;

        let layout = Layout::new::<T>();
        match self.allocate(layout) {
            Ok(handle) => {
                let address = self.resolve(handle);
                let bytes = value.to_bytes();
                proof {
                    T::lemma_image(value);
                }
                let ghost before = *self;
                self.write(address, bytes.as_slice());
                let r = TypedHandle::from_raw_parts(handle, TypedMetadata::new());
                proof {
                    assert(block(*self, handle) == overwritten(
                        before.memory(),
                        address as int,
                        bytes@,
                    ).subrange(address as int, address + self.capacity(handle)));
                    assert(r.bytes(*self) =~= value.image());
                }
                Ok(r)
            },
            Err(e) => Err(e),
        }
    }

    /// Releases the block that `handle` names.
    fn deallocate_typed<T: ?Sized + Pointee>(&mut self, handle: TypedHandle<T, Self::Handle>)
        requires
            old(self).wf(),
            handle.is_valid(*old(self)),
        ensures
            final(self).wf(),
            !final(self).is_live(handle.handle()),
    {
        let (raw, metadata) = handle.to_raw_parts();
        match metadata.layout() {
            Ok(layout) => self.deallocate(raw, layout),
            Err(_) => {},
        }
    }

    /// The value that `handle` names.
    fn resolve_typed<T: Pod>(&self, handle: &TypedHandle<T, Self::Handle>) -> (value: T)
        requires
            self.wf(),
            handle.is_valid(*self),
            T::is_image(handle.bytes(*self)),
        ensures
            value == T::from_image(handle.bytes(*self)),
    {
        let address = self.resolve(handle.handle());
        let size = Layout::new::<T>().size();
        let bytes = self.read(address, size);
        assert(bytes@ =~= handle.bytes(*self));
        T::from_bytes(bytes)
    }

    /// Writes `value` over what `handle` names, and changes nothing else. The handle is
    /// borrowed exclusively: nothing else reads the value while it is replaced.
    fn resolve_mut_typed<T: Pod>(&mut self, handle: &mut TypedHandle<T, Self::Handle>, value: T)
        requires
            old(self).wf(),
            old(handle).is_valid(*old(self)),
        ensures
            final(self).wf(),
            *final(handle) == *old(handle),
            final(handle).is_valid(*final(self)),
            final(handle).bytes(*final(self)) == value.image(),
            final(self).memory() == overwritten(
                old(self).memory(),
                old(self).address(old(handle).handle()) as int,
                value.image(),
            ),
            same_reservations(*old(self), *final(self)),
    {
        let raw = handle.handle();
        let size = Layout::new::<T>().size();
        let address = self.resolve(raw);
        let bytes = value.to_bytes();
        proof {
            T::lemma_image(value);
        }
        let ghost before = *self;
        self.write(address, bytes.as_slice());
        proof {
            assert(block(*self, raw) == overwritten(
                before.memory(),
                address as int,
                bytes@,
            ).subrange(address as int, address + self.capacity(raw)));
            assert(handle.bytes(*self) =~= value.image());
        }
    }
}

impl<S: Storage> Store for S {

}

/// A store that can hand out a placeholder: a handle that may be held and passed on, and
/// that must never be resolved.
pub trait StoreDangling: Storage {
    /// The placeholder of this store.
    spec fn dangling_handle(&self) -> Self::Handle;

    /// A placeholder handle. Nothing is reserved for it.
    fn dangling(&self) -> (handle: Self::Handle)
        requires
            self.wf(),
        ensures
            handle == self.dangling_handle(),
    ;
}

} // verus!
