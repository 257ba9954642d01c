//! What it takes, beyond an address, to read a block as a value of a given type.
//!
//! A type of fixed size needs nothing. A slice needs the number of its elements. A
//! dynamically dispatched value needs a descriptor of the concrete type behind it.

use vstd::prelude::*;
use core::marker::PhantomData;
use crate::layout::{AllocError, Layout};

verus! {

/// The metadata of a type of fixed size: nothing.
#[derive(Clone, Copy, Debug, PartialEq, Eq, Structural)]
pub struct Thin;

/// The metadata of a dynamically dispatched value: what is known of the concrete type
/// behind it. It does not depend on where the value lives.
#[derive(Clone, Copy, Debug, PartialEq, Eq, Structural)]
pub struct DispatchDescriptor {
    layout: Layout,
}

impl DispatchDescriptor {
    /// The descriptor of a concrete type of layout `layout`.
    pub closed spec fn describing(layout: Layout) -> DispatchDescriptor {
        DispatchDescriptor { layout }
    }

    /// The layout of the concrete type.
    pub closed spec fn spec_layout(&self) -> Layout {
        self.layout
    }

    /// A descriptor is the layout it describes.
    pub broadcast proof fn lemma_describing(layout: Layout)
        ensures
            (#[trigger] DispatchDescriptor::describing(layout)).layout() == layout,
    {
    }

    /// The descriptor of the concrete type `T`.
    pub fn of<T>() -> (r: DispatchDescriptor)
        ensures
            r == DispatchDescriptor::describing(Layout::for_type::<T>()),
    {
        DispatchDescriptor { layout: Layout::new::<T>() }
    }

    /// The layout of the concrete type.
    #[verifier::when_used_as_spec(spec_layout)]
    pub fn layout(&self) -> (r: Layout)
        ensures
            r == self.layout(),
    {
        self.layout
    }
}

/// The dynamically dispatched type: a value of some concrete type that only its
/// descriptor knows.
pub trait Dynamic {

}

/// A type whose values can live behind a handle.
pub trait Pointee {
    /// What it takes, beyond an address, to read a block as a `Self`.
    type Metadata: Copy;

    /// The layout of a `Self` of the given metadata, where there is one.
    spec fn layout_of(metadata: Self::Metadata) -> Option<Layout>;

    /// The layout of a `Self` of the given metadata, or an error where there is none.
    fn layout(metadata: Self::Metadata) -> (r: Result<Layout, AllocError>)
        ensures
            r is Ok <==> Self::layout_of(metadata) is Some,
            r is Ok ==> Self::layout_of(metadata) == Some(r->Ok_0),
    ;
}

impl<T> Pointee for T {
    type Metadata = Thin;

    open spec fn layout_of(metadata: Thin) -> Option<Layout> {
        Some(Layout::for_type::<T>())
    }

    fn layout(metadata: Thin) -> (r: Result<Layout, AllocError>) {
        Ok(Layout::new::<T>())
    }
}

impl<T> Pointee for [T] {
    type Metadata = usize;

    open spec fn layout_of(metadata: usize) -> Option<Layout> {
        Layout::for_array::<T>(metadata)
    }

    fn layout(metadata: usize) -> (r: Result<Layout, AllocError>) {
        Layout::array::<T>(metadata)
    }
}

impl Pointee for dyn Dynamic {
    type Metadata = DispatchDescriptor;

    open spec fn layout_of(metadata: DispatchDescriptor) -> Option<Layout> {
        Some(metadata.layout())
    }

    fn layout(metadata: DispatchDescriptor) -> (r: Result<Layout, AllocError>) {
        Ok(metadata.layout())
    }
}

/// A type whose handles can stand in for handles of the less specific type `U`.
pub trait Unsize<U: ?Sized + Pointee>: Pointee {
    /// The metadata of a `U` that is in fact a `Self` of the given metadata.
    spec fn unsized_metadata(metadata: Self::Metadata) -> U::Metadata;

    /// Seen as a `U`, a value needs the memory it needed as a `Self`.
    proof fn lemma_unsize_keeps_layout(metadata: Self::Metadata)
        ensures
            U::layout_of(Self::unsized_metadata(metadata)) == Self::layout_of(metadata),
    ;

    /// The metadata of a `U` that is in fact a `Self` of the given metadata.
    fn unsize(metadata: Self::Metadata) -> (r: U::Metadata)
        ensures
            r == Self::unsized_metadata(metadata),
    ;
}

impl<T> Unsize<dyn Dynamic> for T {
    open spec fn unsized_metadata(metadata: Thin) -> DispatchDescriptor {
        DispatchDescriptor::describing(Layout::for_type::<T>())
    }

    proof fn lemma_unsize_keeps_layout(metadata: Thin) {
        broadcast use DispatchDescriptor::lemma_describing;

    }

    fn unsize(metadata: Thin) -> (r: DispatchDescriptor) {
        DispatchDescriptor::of::<T>()
    }
}

/// The metadata of a `T`, kept apart from metadata of other types.
pub struct TypedMetadata<T: ?Sized + Pointee> {
    metadata: T::Metadata,
    marker: PhantomData<T>,
}

impl<T: ?Sized + Pointee> Clone for TypedMetadata<T> {
    /// The same metadata.
    fn clone(&self) -> (r: Self)
        ensures
            r == *self,
    {
        TypedMetadata { metadata: self.metadata, marker: PhantomData }
    }
}

impl<T: ?Sized + Pointee> Copy for TypedMetadata<T> {

}

impl<T: ?Sized + Pointee> View for TypedMetadata<T> {
    type V = T::Metadata;

    /// The metadata itself.
    closed spec fn view(&self) -> T::Metadata {
        self.metadata
    }
}

impl<T: ?Sized + Pointee> TypedMetadata<T> {
    /// The typed form of `metadata`.
    pub closed spec fn typed(metadata: T::Metadata) -> Self {
        TypedMetadata { metadata, marker: PhantomData }
    }

    /// Typed metadata is the metadata it was made of.
    pub broadcast proof fn lemma_typed(metadata: T::Metadata)
        ensures
            (#[trigger] Self::typed(metadata))@ == metadata,
    {
    }

    /// Typed metadata is made of its metadata.
    pub broadcast proof fn lemma_view(self)
        ensures
            Self::typed(#[trigger] self@) == self,
    {
    }

    /// The typed form of `metadata`.
    pub fn from_metadata(metadata: T::Metadata) -> (r: Self)
        ensures
            r == Self::typed(metadata),
            r@ == metadata,
    {
        TypedMetadata { metadata, marker: PhantomData }
    }

    /// The metadata.
    pub fn get(&self) -> (r: T::Metadata)
        ensures
            r == self@,
    {
        self.metadata
    }

    /// The layout of a `T` of this metadata, or an error where there is none.
    pub fn layout(&self) -> (r: Result<Layout, AllocError>)
        ensures
            r is Ok <==> T::layout_of(self@) is Some,
            r is Ok ==> T::layout_of(self@) == Some(r->Ok_0),
    {
        T::layout(self.metadata)
    }

    /// The metadata of the same value, seen as a `U`.
    pub fn coerce<U: ?Sized + Pointee>(&self) -> (r: TypedMetadata<U>) where T: Unsize<U>
        ensures
            r@ == T::unsized_metadata(self@),
            U::layout_of(r@) == T::layout_of(self@),
    {
        proof {
            T::lemma_unsize_keeps_layout(self.metadata);
        }
        TypedMetadata { metadata: T::unsize(self.metadata), marker: PhantomData }
    }
}

impl<T> TypedMetadata<T> {
    /// The metadata of a type of fixed size.
    pub fn new() -> (r: Self)
        ensures
            r@ == Thin,
    {
        TypedMetadata { metadata: Thin, marker: PhantomData }
    }
}

impl<T> TypedMetadata<[T]> {
    /// The metadata of a slice of `len` elements.
    pub fn from_len(len: usize) -> (r: Self)
        ensures
            r@ == len,
    {
        TypedMetadata { metadata: len, marker: PhantomData }
    }

    /// The metadata of `slice`: the number of its elements.
    pub fn from_slice(slice: &[T]) -> (r: Self)
        ensures
            r@ == slice@.len(),
    {
        TypedMetadata { metadata: slice.len(), marker: PhantomData }
    }

    /// The number of elements.
    pub fn len(&self) -> (r: usize)
        ensures
            r == self@,
    {
        self.metadata
    }
}

} // verus!
