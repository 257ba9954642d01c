//! Typed handles, built on any store.

pub mod typed_metadata;
pub mod typed;
pub mod unique;
