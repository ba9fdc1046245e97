//! Injoint: a room-based real-time fan-out engine.
//!
//! Clients create and join rooms; each room owns one reducer, applies the
//! actions of its members one at a time, and every member observes the
//! resulting state transitions in order. This crate holds the verified core:
//! the client and room registries, the message state machine, the audience of
//! every outbound response, and the JSON framing of responses.
pub mod client;
pub mod json;
pub mod response;
pub mod message;
pub mod room;
pub mod dispatcher;
pub mod broadcaster;
pub mod joint;
pub mod naming;
pub mod utils;
