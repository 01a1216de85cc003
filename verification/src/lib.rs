//! Verified core of a chat-assistant pipeline.
//!
//! An incoming conversational message is turned into a request against a
//! streaming text-generation backend, and the incrementally arriving answer
//! is rendered back into one or more outbound chat messages under a hard
//! per-message size limit.
//!
//! The crate holds the pure, verified logic: stripping bot mentions from
//! message text, linearizing a reply chain into conversational turns,
//! decoding the backend's streaming wire protocol, framing the outbound
//! request body, and deciding when buffered reply text is flushed as a new
//! message or as an edit of the current one. All transport and chat-surface
//! I/O stays outside, driven through the state machines defined here.

pub mod chat;
pub mod context;
pub mod decode;
pub mod mention;
pub mod render;
pub mod request;
pub mod strutil;
