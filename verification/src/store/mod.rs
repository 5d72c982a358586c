//! State of in-flight HSM actions.
//!
//! Three things hold of every store: a known cookie is never silently
//! overwritten, progress never goes backwards, and a finished action stays
//! finished.

pub mod action_store;
pub mod error;
pub mod mem;
pub mod row;

pub use action_store::ActionStore;
pub use error::{StoreError, StoreResult};
pub use mem::MemStore;
