//! Client library for a login-manager's session-negotiation protocol.
//!
//! The library is organised in layers, lowest first:
//! - [`proto`]: the request and response messages of the wire protocol.
//! - [`json`]: the textual encoding of those messages, with proofs that
//!   decoding inverts encoding.
//! - [`frame`]: the length-prefixed byte framing around the textual encoding.
//! - [`transport`] and [`mock`]: the capability set for exchanging one
//!   request against one response, and an in-memory implementation of it.
//! - [`state`] and [`client`]: the typed session lifecycle built on top of a
//!   transport.
//! - [`session_builder`]: the one-answer-per-step workflow with its log of
//!   answered questions.
//! - [`sessions`] and [`args`]: launchable-session descriptors and the
//!   configuration handed in by the surrounding program.

pub mod args;
pub mod client;
pub mod frame;
pub mod json;
pub mod mock;
pub mod proto;
pub mod session_builder;
pub mod sessions;
pub mod state;
pub mod transport;
