//! The Lustre HSM userspace interface: constants, records, and their conversion
//! to and from the domain types.

pub mod consts;
pub mod conv;
pub mod sys;
