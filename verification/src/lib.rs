//! A publish/subscribe broker core for server-sent event streams.

pub mod broker;
pub mod client;
pub mod codec;
pub mod credential;
pub mod dispatch;
pub mod error;
pub mod json;
pub mod registry;
pub mod router;
