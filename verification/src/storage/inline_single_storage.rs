//! A store made of one block, held inside the store itself.
//!
//! The block is as large and as aligned as a value of `T`. It is there as long as the
//! store is, so nothing is ever moved: every request is answered by looking at the
//! layout asked for, and the one handle always resolves to the same address.

use vstd::prelude::*;
use vstd::layout::{align_of, size_of};
use vstd::slice::slice_subrange;
use core::marker::PhantomData;
use crate::interface::{overwritten, serves, Memory, Storage, StoreDangling};
use crate::layout::{AllocError, Layout};

verus! {

/// The handle of an `InlineSingleStorage`. There is one block, so there is nothing to
/// tell apart.
#[derive(Clone, Copy, Debug, PartialEq, Eq, Structural)]
pub struct SlotHandle;

/// A store of one block, sized and aligned as per `T`.
///
/// The store checks that a request fits the block and nothing else: it keeps no record
/// of whether the block is in use. (The record that contracts speak of exists during
/// verification only.)
pub struct InlineSingleStorage<T> {
    bytes: Vec<u8>,
    occupied: Ghost<bool>,
    marker: PhantomData<T>,
}

impl<T> Default for InlineSingleStorage<T> {
    /// A store whose block is not in use. It accepts a value of `T`.
    fn default() -> (r: Self)
        ensures
            r.wf(),
            !r.is_live(SlotHandle),
            Self::slot_fits(Self::slot()),
    {
        let size: usize = Layout::new::<T>().size();
        InlineSingleStorage { bytes: vec![0u8; size], occupied: Ghost(false), marker: PhantomData }
    }
}

impl<T> InlineSingleStorage<T> {
    /// The layout of the block.
    pub open spec fn slot() -> Layout {
        Layout::for_type::<T>()
    }

    /// Whether a region of `layout` fits the block: it is no larger and no more aligned.
    pub open spec fn slot_fits(layout: Layout) -> bool {
        layout.align() <= align_of::<T>() && layout.size() <= size_of::<T>()
    }

    /// The layout of the block.
    pub fn slot_layout(&self) -> (r: Layout)
        ensures
            r == Self::slot(),
            r.size() == size_of::<T>(),
            r.align() == align_of::<T>(),
    {
        Layout::new::<T>()
    }

    /// Accepts `layout` if and only if it fits the block.
    pub fn validate_layout(layout: Layout) -> (r: Result<(), AllocError>)
        ensures
            r is Ok <==> Self::slot_fits(layout),
    {
        let own = Layout::new::<T>();
        if layout.align() <= own.align() && layout.size() <= own.size() {
            Ok(())
        } else {
            Err(AllocError)
        }
    }

    /// The block never moves: whatever was asked of the store between two of its states,
    /// the handle resolves to the same address in both.
    pub proof fn lemma_block_never_moves(before: Self, after: Self, handle: SlotHandle)
        ensures
            before.address(handle) == after.address(handle),
            before.capacity(handle) == after.capacity(handle),
    {
    }

    /// An occupied block serves every layout that fits it.
    proof fn lemma_serves(&self, layout: Layout)
        requires
            self.wf(),
            self.is_live(SlotHandle),
            layout.is_valid(),
            layout.size() <= size_of::<T>(),
        ensures
            serves(*self, SlotHandle, layout),
    {
        layout.lemma_align_positive();
        assert(0nat % (layout.align() as nat) == 0);
    }

    /// Sets the bytes from `from` up to `to` to zero, and no others.
    fn zero_range(&mut self, from: usize, to: usize)
        requires
            from <= to <= old(self).bytes@.len(),
        ensures
            final(self).bytes@.len() == old(self).bytes@.len(),
            final(self).occupied == old(self).occupied,
            forall|i: int| from <= i < to ==> final(self).bytes@[i] == 0,
            forall|i: int|
                0 <= i < from || to <= i < old(self).bytes@.len() ==> final(self).bytes@[i]
                    == old(self).bytes@[i],
    {
        let mut at: usize = from;
        while at < to
            invariant
                from <= at <= to <= self.bytes@.len(),
                self.bytes@.len() == old(self).bytes@.len(),
                self.occupied == old(self).occupied,
                forall|i: int| from <= i < at ==> self.bytes@[i] == 0,
                forall|i: int|
                    0 <= i < from || at <= i < self.bytes@.len() ==> self.bytes@[i]
                        == old(self).bytes@[i],
            decreases to - at,
        {
            self.bytes.set(at, 0u8);
            at = at + 1;
        }
    }
}

impl<T> Memory for InlineSingleStorage<T> {
    type Handle = SlotHandle;

    closed spec fn wf(&self) -> bool {
        self.bytes@.len() == size_of::<T>()
    }

    closed spec fn memory(&self) -> Seq<u8> {
        self.bytes@
    }

    closed spec fn is_live(&self, handle: SlotHandle) -> bool {
        self.occupied@
    }

    open spec fn address(&self, handle: SlotHandle) -> nat {
        0
    }

    open spec fn capacity(&self, handle: SlotHandle) -> nat {
        size_of::<T>()
    }

    open spec fn accepts(&self, layout: Layout) -> bool {
        Self::slot_fits(layout)
    }

    open spec fn accepts_grow(&self, handle: SlotHandle, old_layout: Layout, new_layout: Layout) -> bool {
        Self::slot_fits(new_layout)
    }

    open spec fn accepts_shrink(&self, handle: SlotHandle, old_layout: Layout, new_layout: Layout) -> bool {
        true
    }

}

impl<T> Storage for InlineSingleStorage<T> {
    /// Succeeds if and only if `layout` fits the block. Nothing is written.
    fn allocate(&mut self, layout: Layout) -> (r: Result<SlotHandle, AllocError>)
        ensures
            r is Ok <==> Self::slot_fits(layout),
            final(self).memory() == old(self).memory(),
    {
        match Self::validate_layout(layout) {
            Ok(()) => {
                self.occupied = Ghost(true);
                proof {
                    use_type_invariant(&layout);
                    self.lemma_serves(layout);
                }
                Ok(SlotHandle)
            },
            Err(e) => Err(e),
        }
    }

    /// Succeeds if and only if `layout` fits the block, and then sets its first
    /// `layout.size()` bytes to zero, and no others.
    fn allocate_zeroed(&mut self, layout: Layout) -> (r: Result<SlotHandle, AllocError>)
        ensures
            r is Ok <==> Self::slot_fits(layout),
            r is Ok ==> final(self).memory() == overwritten(
                old(self).memory(),
                0,
                Seq::new(layout.size() as nat, |i: int| 0u8),
            ),
    {
        match Self::validate_layout(layout) {
            Ok(()) => {
                self.zero_range(0, layout.size());
                self.occupied = Ghost(true);
                proof {
                    use_type_invariant(&layout);
                    self.lemma_serves(layout);
                }
                assert(self.bytes@ =~= overwritten(
                    old(self).bytes@,
                    0,
                    Seq::new(layout.size() as nat, |i: int| 0u8),
                ));
                Ok(SlotHandle)
            },
            Err(e) => Err(e),
        }
    }

    /// Does nothing to the block: it lives as long as the store.
    fn deallocate(&mut self, handle: SlotHandle, layout: Layout)
        ensures
            final(self).memory() == old(self).memory(),
    {
        self.occupied = Ghost(false);
    }

    /// The address of the block, whatever it holds.
    fn resolve(&self, handle: SlotHandle) -> (address: usize)
        ensures
            address == 0,
    {
        proof {
            assert(self.bytes@.len() == self.bytes.len());
        }
        0
    }

    /// Succeeds if and only if `new_layout` fits the block. Nothing moves and nothing is
    /// written.
    fn grow(&mut self, handle: SlotHandle, old_layout: Layout, new_layout: Layout) -> (r: Result<
        SlotHandle,
        AllocError,
    >)
        ensures
            r is Ok <==> Self::slot_fits(new_layout),
            final(self).memory() == old(self).memory(),
            r is Ok ==> final(self).address(r->Ok_0) == old(self).address(handle),
    {
        match Self::validate_layout(new_layout) {
            Ok(()) => {
                proof {
                    use_type_invariant(&new_layout);
                    self.lemma_serves(new_layout);
                }
                Ok(SlotHandle)
            },
            Err(e) => Err(e),
        }
    }

    /// Always succeeds. Nothing moves and nothing is written.
    fn shrink(&mut self, handle: SlotHandle, old_layout: Layout, new_layout: Layout) -> (r: Result<
        SlotHandle,
        AllocError,
    >)
        ensures
            r is Ok,
            final(self).memory() == old(self).memory(),
            final(self).address(r->Ok_0) == old(self).address(handle),
    {
        proof {
            use_type_invariant(&new_layout);
            self.lemma_serves(new_layout);
        }
        Ok(SlotHandle)
    }

    /// Succeeds if and only if `new_layout` fits the block, and then sets the bytes from
    /// `old_layout.size()` up to `new_layout.size()` to zero, and no others. Nothing
    /// moves.
    fn grow_zeroed(&mut self, handle: SlotHandle, old_layout: Layout, new_layout: Layout) -> (r:
        Result<SlotHandle, AllocError>)
        ensures
            r is Ok <==> Self::slot_fits(new_layout),
            r is Ok ==> final(self).address(r->Ok_0) == old(self).address(handle),
            r is Ok ==> final(self).memory() == overwritten(
                old(self).memory(),
                old_layout.size() as int,
                Seq::new((new_layout.size() - old_layout.size()) as nat, |i: int| 0u8),
            ),
    {
        match Self::validate_layout(new_layout) {
            Ok(()) => {
                self.zero_range(old_layout.size(), new_layout.size());
                proof {
                    use_type_invariant(&new_layout);
                    self.lemma_serves(new_layout);
                }
                assert(self.bytes@ =~= overwritten(
                    old(self).bytes@,
                    old_layout.size() as int,
                    Seq::new((new_layout.size() - old_layout.size()) as nat, |i: int| 0u8),
                ));
                Ok(SlotHandle)
            },
            Err(e) => Err(e),
        }
    }

    fn read(&self, address: usize, len: usize) -> (bytes: &[u8]) {
        proof {
            assert(self.bytes@.len() == self.bytes.len());
        }
        slice_subrange(self.bytes.as_slice(), address, address + len)
    }

    fn write(&mut self, address: usize, bytes: &[u8]) {
        let mut done: usize = 0;
        while done < bytes.len()
            invariant
                done <= bytes@.len(),
                self.bytes@.len() == self.bytes.len(),
                address + bytes@.len() <= self.bytes@.len(),
                self.bytes@.len() == old(self).bytes@.len(),
                self.occupied == old(self).occupied,
                forall|i: int| 0 <= i < done ==> self.bytes@[address + i] == bytes@[i],
                forall|i: int|
                    0 <= i < address || address + done <= i < self.bytes@.len() ==> self.bytes@[i]
                        == old(self).bytes@[i],
            decreases bytes@.len() - done,
        {
            self.bytes.set(address + done, bytes[done]);
            done = done + 1;
        }
        assert(self.bytes@ =~= overwritten(old(self).bytes@, address as int, bytes@));
    }
}

impl<T> StoreDangling for InlineSingleStorage<T> {
    open spec fn dangling_handle(&self) -> SlotHandle {
        SlotHandle
    }

    fn dangling(&self) -> (handle: SlotHandle) {
        SlotHandle
    }
}

} // verus!
