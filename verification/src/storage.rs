//! Stores.

pub mod inline_single_storage;
