//! The states of the session lifecycle.
//!
//! Each value is the datum a state carries; the client in `client` pairs one
//! of these with the transport it owns. A consumed state value cannot be
//! reused: every transition takes its client by value and returns a new one.

use vstd::prelude::*;

use crate::proto::{AuthMessageType, ErrorType};

verus! {

/// No session is under negotiation.
#[derive(Debug)]
pub struct Empty;

/// One authentication message awaits exactly one answer.
#[derive(Debug)]
pub struct NeedAuthResponse {
    pub auth_message_type: AuthMessageType,
    pub auth_message: String,
}

/// Authentication is complete; the session awaits its launch command.
#[derive(Debug)]
pub struct SessionCreated;

/// The session was handed off; no further operation is legal.
#[derive(Debug)]
pub struct SessionStarted;

/// The daemon reported an error and may still believe a session is pending;
/// the only way forward is an explicit cancellation.
#[derive(Debug)]
pub struct ErrorEncountered {
    pub error_type: ErrorType,
    pub description: String,
}

} // verus!
