//! Routing, coordination and relay logic of a sidecar proxy that balances TCP
//! connections over a changing set of inference-server backends.

use vstd::prelude::*;

pub mod controller;
pub mod dispatcher;
pub mod endpoints;
pub mod hardware;
pub mod interval;
pub mod keys;
pub mod message;
pub mod metrics;
pub mod relay;
pub mod server;
pub mod string_map;
pub mod watcher;

pub use crate::message::Message;

verus! {

/// Prefix under which every annotation key of this system lives.
pub const ANNOT_PREFIX: &'static str = "tritonservices.prueba.ucm.es";

/// Number of events the dispatcher's channel holds before producers wait.
pub const CHANNEL_CAPACITY: usize = 32;

} // verus!
