//! What a copytool does with the coordinator's requests: reading action lists,
//! and the life cycle of an action from begin to end.

pub mod error;
pub mod layout;
pub mod lifecycle;
pub mod live;
pub mod mock;
pub mod wire;

pub use error::{HsmError, Result};
pub use lifecycle::{ActionHandle, EndStatus, HasCookieLifecycle, ReceivedAction};
pub use mock::MockCopytool;
