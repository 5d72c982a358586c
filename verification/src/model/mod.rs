//! Domain types: file identifiers, actions and their state, archive objects.

pub mod action;
pub mod backend;
pub mod errno;
pub mod fid;
pub mod payload;
pub mod time;
pub mod xattr;

pub use action::{Action, ActionKind, ActionRecord, AgentId, ArState, Cookie, Extent};
pub use backend::{ArchiveId, BackendObject};
pub use errno::HsmErrno;
pub use fid::{Fid, FidParseError};
pub use time::{Span, Timestamp};
