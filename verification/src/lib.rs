//! Verified core of a Lustre HSM copytool daemon.

pub mod ctl;
pub mod daemon;
pub mod laws;
pub mod llapi;
pub mod model;
pub mod proto;
pub mod scheduler;
pub mod sdk;
pub mod store;
pub mod text;
pub mod uapi;
