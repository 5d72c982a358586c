//! Which agents are online, and which of them runs which queued action next.

pub mod agent;
pub mod fifo;
pub mod share;
pub mod strategy;

pub use agent::{AgentInfo, AgentRegistry};
pub use fifo::FifoPerKind;
pub use strategy::{Assignment, Scheduler};
