//! The daemon's decisions: what to dispatch, what to make of a report, what to
//! recover after a restart, and what to tell the control tool.

pub mod agent;
pub mod cli;
pub mod config;
pub mod control;
pub mod disconnect;
pub mod dispatch;
pub mod error;
pub mod grpc;
pub mod ingest;
pub mod inproc;
pub mod mock_actions;
pub mod paths;
pub mod pending;
pub mod recovery;
pub mod status;
pub mod xattr_store;
