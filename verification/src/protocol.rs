//! Frames and signals exchanged with a connected client, and the state
//! machine's error type.

use vstd::prelude::*;

use crate::notification::Notification;

verus! {

/// A server-originated signal injected into a connection's inbound channel.
#[derive(Debug)]
pub enum ServerNotification {
    /// Ask the connection to page stored messages to the client.
    CheckStorage,
    /// Deliver a notification directly to the connected client.
    Notification(Notification),
    /// Ask the connection to terminate as if the client had closed.
    Disconnect,
}

/// An outbound frame emitted towards the client's transport.
#[derive(Debug)]
pub enum ServerMessage {
    Notification(Notification),
}

/// Errors of the per-connection state machine.
#[derive(Debug)]
pub enum SMError {
    /// A `Disconnect` signal: the session must terminate cleanly.
    GhostDisconnect,
    /// An internal invariant was violated; the connection is closed.
    Internal(String),
    /// The stored-message quota was crossed; the user's queue was dropped
    /// and the connection is terminated with an overflow close code.
    MessageLimitExceeded,
}

/// One entry of a client `ack` frame.
#[derive(Debug)]
pub struct AckEntry {
    pub channel_id: String,
    pub version: String,
}

} // verus!
