//! IPC networking stack for a peer-to-peer application node.
//!
//! The crate couples an in-process application to an out-of-process peer
//! daemon over a local message-passing socket.  It provides the wire
//! protocol (a tagged sum over binary, opaque-JSON, ping and pong frames
//! with its MessagePack framing), the IPC client worker that sustains the
//! connection with heartbeats and receive timeouts, the typed protocol
//! wrapper lifting untyped JSON control frames into a command sum, the
//! handshake-driving net worker, and the application-facing facade.
//!
//! Everything time-dependent takes the current time in milliseconds as an
//! argument, so the whole stack is a deterministic state machine; the host
//! program supplies the clock, the background thread and the callbacks.

use vstd::prelude::*;

pub mod protocol;
pub mod wire;
pub mod json;
pub mod protocol_wrapper;
pub mod socket;
pub mod ipc_client;
pub mod net_connection;
pub mod ipc_net_worker;
pub mod p2p_network;

verus! {

/// The error sum for the whole networking stack.
#[derive(Debug, Clone, PartialEq, Eq)]
pub enum NetError {
    /// A configuration value was rejected; carries the full message.
    ConfigError(String),
    /// The server did not answer within the 3000 ms bring-up window.
    ConnectInitTimeout,
    /// No inbound frame arrived within the 2000 ms receive window.
    IpcTimeout,
    /// A frame could not be decoded; carries a description.
    DecodeError(String),
}

pub type NetResult<T> = Result<T, NetError>;

impl NetError {
    /// The model of the human-readable message carried by this error.
    pub open spec fn message_view(self) -> Seq<char> {
        match self {
            NetError::ConfigError(m) => m@,
            NetError::ConnectInitTimeout => "connection init timeout"@,
            NetError::IpcTimeout => "ipc connection timeout"@,
            NetError::DecodeError(m) => m@,
        }
    }

    /// The human-readable message for this error.
    pub fn message(&self) -> (r: String)
        ensures
            r@ == self.message_view(),
    {
        match self {
            NetError::ConfigError(m) => m.clone(),
            NetError::ConnectInitTimeout => "connection init timeout".to_owned(),
            NetError::IpcTimeout => "ipc connection timeout".to_owned(),
            NetError::DecodeError(m) => m.clone(),
        }
    }
}

} // verus!
