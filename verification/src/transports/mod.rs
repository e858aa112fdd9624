//! The ways to reach a node.

pub mod http;
pub mod ipc;
pub mod ws;
