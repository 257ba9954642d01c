//! Values that can live in a store's memory.
//!
//! A store holds bytes. A value of a type that implements `Pod` has a byte image as
//! long as the type is large, and is recovered from that image. The unsigned integers
//! are laid out with their least significant byte first.

use vstd::prelude::*;
use vstd::bytes::{
    lemma_auto_spec_u128_to_from_le_bytes, lemma_auto_spec_u16_to_from_le_bytes,
    lemma_auto_spec_u32_to_from_le_bytes, lemma_auto_spec_u64_to_from_le_bytes,
    spec_u128_from_le_bytes, spec_u128_to_le_bytes, spec_u16_from_le_bytes, spec_u16_to_le_bytes,
    spec_u32_from_le_bytes, spec_u32_to_le_bytes, spec_u64_from_le_bytes, spec_u64_to_le_bytes,
    u128_from_le_bytes, u128_to_le_bytes, u16_from_le_bytes, u16_to_le_bytes, u32_from_le_bytes,
    u32_to_le_bytes, u64_from_le_bytes, u64_to_le_bytes,
};
use vstd::layout::{layout_of_primitives, size_of};

verus! {

/// A type whose values are their bytes.
pub trait Pod: Sized {
    /// The bytes of `self`.
    spec fn image(self) -> Seq<u8>;

    /// Whether `bytes` are the bytes of a value of this type.
    spec fn is_image(bytes: Seq<u8>) -> bool;

    /// The value whose bytes are `bytes`.
    spec fn from_image(bytes: Seq<u8>) -> Self;

    /// A value's image is as long as the type is large, and gives the value back.
    proof fn lemma_image(value: Self)
        ensures
            value.image().len() == size_of::<Self>(),
            Self::is_image(value.image()),
            Self::from_image(value.image()) == value,
    ;

    /// An image is as long as the type is large, and is the image of its value.
    proof fn lemma_from_image(bytes: Seq<u8>)
        requires
            Self::is_image(bytes),
        ensures
            bytes.len() == size_of::<Self>(),
            Self::from_image(bytes).image() == bytes,
    ;

    /// The bytes of `self`.
    fn to_bytes(&self) -> (bytes: Vec<u8>)
        ensures
            bytes@ == self.image(),
    ;

    /// The value whose bytes are `bytes`.
    fn from_bytes(bytes: &[u8]) -> (value: Self)
        requires
            Self::is_image(bytes@),
        ensures
            value == Self::from_image(bytes@),
    ;
}

impl Pod for u8 {
    open spec fn image(self) -> Seq<u8> {
        seq![self]
    }

    open spec fn is_image(bytes: Seq<u8>) -> bool {
        bytes.len() == 1
    }

    open spec fn from_image(bytes: Seq<u8>) -> u8 {
        bytes[0]
    }

    proof fn lemma_image(value: u8) {
        broadcast use layout_of_primitives;

    }

    proof fn lemma_from_image(bytes: Seq<u8>) {
        broadcast use layout_of_primitives;

        assert(seq![bytes[0]] =~= bytes);
    }

    fn to_bytes(&self) -> (bytes: Vec<u8>) {
        vec![*self]
    }

    fn from_bytes(bytes: &[u8]) -> (value: u8) {
        bytes[0]
    }
}

impl Pod for u16 {
    open spec fn image(self) -> Seq<u8> {
        spec_u16_to_le_bytes(self)
    }

    open spec fn is_image(bytes: Seq<u8>) -> bool {
        bytes.len() == 2
    }

    open spec fn from_image(bytes: Seq<u8>) -> u16 {
        spec_u16_from_le_bytes(bytes)
    }

    proof fn lemma_image(value: u16) {
        broadcast use layout_of_primitives;

        lemma_auto_spec_u16_to_from_le_bytes();
    }

    proof fn lemma_from_image(bytes: Seq<u8>) {
        broadcast use layout_of_primitives;

        lemma_auto_spec_u16_to_from_le_bytes();
    }

    fn to_bytes(&self) -> (bytes: Vec<u8>) {
        u16_to_le_bytes(*self)
    }

    fn from_bytes(bytes: &[u8]) -> (value: u16) {
        u16_from_le_bytes(bytes)
    }
}

impl Pod for u32 {
    open spec fn image(self) -> Seq<u8> {
        spec_u32_to_le_bytes(self)
    }

    open spec fn is_image(bytes: Seq<u8>) -> bool {
        bytes.len() == 4
    }

    open spec fn from_image(bytes: Seq<u8>) -> u32 {
        spec_u32_from_le_bytes(bytes)
    }

    proof fn lemma_image(value: u32) {
        broadcast use layout_of_primitives;

        lemma_auto_spec_u32_to_from_le_bytes();
    }

    proof fn lemma_from_image(bytes: Seq<u8>) {
        broadcast use layout_of_primitives;

        lemma_auto_spec_u32_to_from_le_bytes();
    }

    fn to_bytes(&self) -> (bytes: Vec<u8>) {
        u32_to_le_bytes(*self)
    }

    fn from_bytes(bytes: &[u8]) -> (value: u32) {
        u32_from_le_bytes(bytes)
    }
}

impl Pod for u64 {
    open spec fn image(self) -> Seq<u8> {
        spec_u64_to_le_bytes(self)
    }

    open spec fn is_image(bytes: Seq<u8>) -> bool {
        bytes.len() == 8
    }

    open spec fn from_image(bytes: Seq<u8>) -> u64 {
        spec_u64_from_le_bytes(bytes)
    }

    proof fn lemma_image(value: u64) {
        broadcast use layout_of_primitives;

        lemma_auto_spec_u64_to_from_le_bytes();
    }

    proof fn lemma_from_image(bytes: Seq<u8>) {
        broadcast use layout_of_primitives;

        lemma_auto_spec_u64_to_from_le_bytes();
    }

    fn to_bytes(&self) -> (bytes: Vec<u8>) {
        u64_to_le_bytes(*self)
    }

    fn from_bytes(bytes: &[u8]) -> (value: u64) {
        u64_from_le_bytes(bytes)
    }
}

impl Pod for u128 {
    open spec fn image(self) -> Seq<u8> {
        spec_u128_to_le_bytes(self)
    }

    open spec fn is_image(bytes: Seq<u8>) -> bool {
        bytes.len() == 16
    }

    open spec fn from_image(bytes: Seq<u8>) -> u128 {
        spec_u128_from_le_bytes(bytes)
    }

    proof fn lemma_image(value: u128) {
        broadcast use layout_of_primitives;

        lemma_auto_spec_u128_to_from_le_bytes();
    }

    proof fn lemma_from_image(bytes: Seq<u8>) {
        broadcast use layout_of_primitives;

        lemma_auto_spec_u128_to_from_le_bytes();
    }

    fn to_bytes(&self) -> (bytes: Vec<u8>) {
        u128_to_le_bytes(*self)
    }

    fn from_bytes(bytes: &[u8]) -> (value: u128) {
        u128_from_le_bytes(bytes)
    }
}

} // verus!
