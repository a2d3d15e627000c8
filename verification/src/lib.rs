//! A tiny actor framework: the verified core of an actor's mailbox (its three queues, its
//! capacity and backpressure, broadcasting and reference counting) and of the states of
//! sending and receiving messages.

use vstd::prelude::*;

pub mod broadcast_future;
pub mod envelope;
pub mod error;
pub mod inbox;
pub mod instrumentation;
pub mod refcount;
pub mod send_future;

pub use broadcast_future::BroadcastFuture;
pub use error::Error;
pub use send_future::{ActorNamedSending, SendFuture};
