//! Verified core of a message-passing networking library: length-prefixed
//! packet framing, message naming, control and notification types, and the
//! client-side bookkeeping for subscriptions, component data, mutations,
//! requests and cached queries.

pub mod bytes;
pub mod frame;
pub mod names;
pub mod text;
pub mod control;
pub mod subscriptions;
pub mod tracking;
pub mod store;
pub mod routing;
pub mod sync_error;
pub mod network;
pub mod client;
pub mod query;
pub mod query_cache;
pub mod devtools;
