//! What a data mover is handed, how it reports progress and failure, and how a
//! plugin process answers the daemon.

pub mod ctx;
pub mod error;
pub mod inflight;
pub mod progress;
pub mod run;

pub use ctx::{ActionCtx, ActionCtxBuilder};
pub use error::{MoverError, MoverResult};
pub use progress::{ProgressConfig, ProgressEvent, ProgressReporter};
