//! What holds of the operations as a whole: what a call does, told in terms of what
//! goes in and what comes out, and how two calls hang together.
//!
//! A law speaks of a call by `call_ensures`, that is of whatever the operation
//! promises to its callers.

pub mod records;
pub mod reports;
pub mod dispatching;
pub mod listing;
pub mod cmdline;
pub mod options;
pub mod messages;
pub mod recovering;
pub mod objects;
pub mod columns;
pub mod kernel;
pub mod settings;
pub mod scheduling;
pub mod queries;
pub mod texts;
pub mod output;
pub mod values;
pub mod mocks;
pub mod failing;
