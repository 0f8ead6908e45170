//! Client-side logic for exchanging dynamically-typed messages with a local
//! broker over an IPC channel: the object model, a bump arena for results,
//! the subscription registry, the callback bridge and the operation facade.
//!
//! The channel itself is reached by the embedding program: the facade
//! produces [`ipc::Request`] values, and the channel's statuses and payloads
//! come back through the `*_done` methods of [`Sdk`], the event decoders of
//! [`bridge`] and the [`Registry`].

pub mod arena;
pub mod bridge;
pub mod error;
pub mod ipc;
pub mod object;
pub mod subscription;

pub use arena::{Arena, Span};
pub use bridge::{IpcError, SubscribeToTopicPayload};
pub use error::Error;
pub use ipc::{Qos, Request, Sdk, Timestamp};
pub use object::{Kv, Value};
pub use subscription::{Registry, Subscription};
