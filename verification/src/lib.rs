//! Handle-based memory allocation.
//!
//! A container that wants memory does not hold a pointer: it holds a handle issued by a
//! backing store, and only the store can turn that handle into an address. The module
//! `interface` states what a store must do, `storage` holds a store made of one inline
//! block, and `extension` builds typed and uniquely owned handles on top of any store.
//!
//! Memory is modelled as the bytes a store owns; an address is an offset into them, and
//! every precondition that a pointer-based interface would leave to the caller's care is
//! a `requires` clause here.

pub mod layout;
pub mod interface;
pub mod storage;
pub mod pod;
pub mod extension;
