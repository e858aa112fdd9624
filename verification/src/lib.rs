//! The logic of JSON-RPC 2.0 transports between a client and its node: how requests are numbered
//! and serialised, how responses find their requests and notifications their subscriptions, and
//! what follows when something goes wrong. Sockets, channels and timing are left to the caller.
use vstd::prelude::*;

pub mod address;
pub mod api;
pub mod channels;
pub mod error;
pub mod helpers;
pub mod ids;
pub mod json;
pub mod laws;
pub mod rpc;
pub mod subscriptions;
pub mod text;
pub mod transports;

verus! {

/// Tells the calls of one transport apart.
pub type RequestId = usize;

} // verus!
