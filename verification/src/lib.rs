//! Verified core of a chat media relay.
//!
//! The library classifies an inbound chat-platform update, resolves the best
//! attachment it carries, drives the platform's two-call file retrieval
//! protocol, encodes the retrieved payload for a downstream processing
//! service (url-encoded form post or multipart upload), and relays exactly
//! one reply per media update. All network traffic stays outside: callers
//! perform the HTTP calls that the state machines here ask for and feed the
//! responses back in as plain values.

pub mod update;
pub mod resolver;
pub mod urlencode;
pub mod submit;
pub mod fetch;
pub mod dispatch;
pub mod multipart;
