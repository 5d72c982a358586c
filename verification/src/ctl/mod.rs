//! The control tool: its command line, and what it prints.

pub mod args;
pub mod hash;
pub mod render;
