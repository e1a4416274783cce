//! Errors of the transport layer.
//!
//! Errors that come from outside the library (I/O, identifier parsing) are
//! carried as their messages.

use vstd::prelude::*;
use vstd::string::StringExecFns;
use crate::session::{SessionId, uuid_text};
use crate::session_state::{SessionState, spec_state_name};
use crate::text::{decimal, push_decimal};
use crate::transport_type::TransportType;

verus! {

/// Unified transport layer errors.
#[derive(Debug, Clone, PartialEq, Eq)]
pub enum Error {
    /// Generic domain error
    Domain(String),
    /// Backend is not available on this platform
    BackendNotAvailable(TransportType),
    /// Invalid state transition attempted
    InvalidStateTransition { from: SessionState, to: SessionState },
    /// Session is not in active state
    SessionNotActive,
    /// Session with given ID not found
    SessionNotFound(SessionId),
    /// Generic adapter error
    Adapter(String),
    /// Backend type doesn't match adapter
    InvalidBackendType,
    /// Connection establishment failed
    ConnectionFailed(String),
    /// Send operation failed
    SendFailed(String),
    /// Receive operation failed
    ReceiveFailed(String),
    /// Out of memory (io_uring buffers, etc.)
    OutOfMemory,
    /// Queue is full (submission queue, etc.)
    QueueFull,
    /// No completion available
    NoCompletion,
    /// Standard I/O error, by its message
    Io(String),
    /// Invalid network address
    InvalidAddress(String),
    /// No active connection
    NoConnection,
    /// Network connection error
    Connection(String),
    /// Operation timed out
    Timeout(String),
    /// Resource exhausted (bandwidth, connections, etc.)
    ResourceExhausted(String),
    /// Protocol-level error
    Protocol(String),
    /// Message serialization/deserialization failed
    Serialization(String),
    /// Invalid message format or content
    InvalidMessage(String),
    /// Protocol version mismatch
    UnsupportedVersion { expected: u8, actual: u8 },
    /// Checksum validation failed
    ChecksumMismatch,
    /// Invalid input provided
    InvalidInput(String),
    /// File transfer error
    Transfer(String),
    /// TLS/SSL error
    Tls(String),
    /// Authentication failed
    Authentication(String),
    /// Configuration error
    Configuration(String),
    /// Feature not supported
    NotSupported(String),
    /// Invalid kernel version for io_uring
    InvalidKernelVersion,
    /// DPDK initialization failed
    DpdkInit(String),
    /// UUID parsing error, by its message
    Uuid(String),
    /// Generic transport error
    Other(String),
}

/// The name of a transport type as its debug form prints it.
pub open spec fn transport_debug_name(t: TransportType) -> Seq<char> {
    match t {
        TransportType::IoUring => "IoUring"@,
        TransportType::Dpdk => "Dpdk"@,
        TransportType::Quic => "Quic"@,
        TransportType::Tcp => "Tcp"@,
    }
}

fn transport_debug_str(t: TransportType) -> (s: &'static str)
    ensures
        s@ == transport_debug_name(t),
{
    match t {
        TransportType::IoUring => "IoUring",
        TransportType::Dpdk => "Dpdk",
        TransportType::Quic => "Quic",
        TransportType::Tcp => "Tcp",
    }
}

/// The display text of an error.
pub open spec fn error_text(e: Error) -> Seq<char> {
    match e {
        Error::Domain(m) => "Domain error: "@ + m@,
        Error::BackendNotAvailable(t) => "Backend not available: "@ + transport_debug_name(t),
        Error::InvalidStateTransition { from, to } => "Invalid state transition from "@ + spec_state_name(from)
            + " to "@ + spec_state_name(to),
        Error::SessionNotActive => "Session not active"@,
        Error::SessionNotFound(id) => "Session not found: "@ + uuid_text(id.0),
        Error::Adapter(m) => "Adapter error: "@ + m@,
        Error::InvalidBackendType => "Invalid backend type for adapter"@,
        Error::ConnectionFailed(m) => "Connection failed: "@ + m@,
        Error::SendFailed(m) => "Send failed: "@ + m@,
        Error::ReceiveFailed(m) => "Receive failed: "@ + m@,
        Error::OutOfMemory => "Out of memory"@,
        Error::QueueFull => "Queue full"@,
        Error::NoCompletion => "No completion"@,
        Error::Io(m) => "I/O error: "@ + m@,
        Error::InvalidAddress(m) => "Invalid address: "@ + m@,
        Error::NoConnection => "No connection"@,
        Error::Connection(m) => "Connection error: "@ + m@,
        Error::Timeout(m) => "Timeout: "@ + m@,
        Error::ResourceExhausted(m) => "Resource exhausted: "@ + m@,
        Error::Protocol(m) => "Protocol error: "@ + m@,
        Error::Serialization(m) => "Serialization error: "@ + m@,
        Error::InvalidMessage(m) => "Invalid message: "@ + m@,
        Error::UnsupportedVersion { expected, actual } => "Unsupported version: expected "@ + decimal(
            expected as nat,
        ) + ", got "@ + decimal(actual as nat),
        Error::ChecksumMismatch => "Checksum mismatch"@,
        Error::InvalidInput(m) => "Invalid input: "@ + m@,
        Error::Transfer(m) => "Transfer error: "@ + m@,
        Error::Tls(m) => "TLS error: "@ + m@,
        Error::Authentication(m) => "Authentication failed: "@ + m@,
        Error::Configuration(m) => "Configuration error: "@ + m@,
        Error::NotSupported(m) => "Not supported: "@ + m@,
        Error::InvalidKernelVersion => "Invalid kernel version"@,
        Error::DpdkInit(m) => "DPDK initialization failed: "@ + m@,
        Error::Uuid(m) => "UUID error: "@ + m@,
        Error::Other(m) => "Transport error: "@ + m@,
    }
}

fn prefixed(prefix: &str, m: &String) -> (s: String)
    ensures
        s@ == prefix@ + m@,
{
    let mut s = String::from_str(prefix);
    s.append(m.as_str());
    s
}

impl Error {
    /// The error's display text.
    pub fn to_string(&self) -> (s: String)
        ensures
            s@ == error_text(*self),
    {
        match self {
            Error::Domain(m) => prefixed("Domain error: ", m),
            Error::BackendNotAvailable(t) => {
                let mut s = String::from_str("Backend not available: ");
                s.append(transport_debug_str(*t));
                s
            },
            Error::InvalidStateTransition { from, to } => {
                let mut s = String::from_str("Invalid state transition from ");
                let f = from.to_string();
                s.append(f.as_str());
                s.append(" to ");
                let t = to.to_string();
                s.append(t.as_str());
                s
            },
            Error::SessionNotActive => String::from_str("Session not active"),
            Error::SessionNotFound(id) => {
                let mut s = String::from_str("Session not found: ");
                let t = id.to_string();
                s.append(t.as_str());
                s
            },
            Error::Adapter(m) => prefixed("Adapter error: ", m),
            Error::InvalidBackendType => String::from_str("Invalid backend type for adapter"),
            Error::ConnectionFailed(m) => prefixed("Connection failed: ", m),
            Error::SendFailed(m) => prefixed("Send failed: ", m),
            Error::ReceiveFailed(m) => prefixed("Receive failed: ", m),
            Error::OutOfMemory => String::from_str("Out of memory"),
            Error::QueueFull => String::from_str("Queue full"),
            Error::NoCompletion => String::from_str("No completion"),
            Error::Io(m) => prefixed("I/O error: ", m),
            Error::InvalidAddress(m) => prefixed("Invalid address: ", m),
            Error::NoConnection => String::from_str("No connection"),
            Error::Connection(m) => prefixed("Connection error: ", m),
            Error::Timeout(m) => prefixed("Timeout: ", m),
            Error::ResourceExhausted(m) => prefixed("Resource exhausted: ", m),
            Error::Protocol(m) => prefixed("Protocol error: ", m),
            Error::Serialization(m) => prefixed("Serialization error: ", m),
            Error::InvalidMessage(m) => prefixed("Invalid message: ", m),
            Error::UnsupportedVersion { expected, actual } => {
                let mut s = String::from_str("Unsupported version: expected ");
                push_decimal(&mut s, *expected as u64);
                s.append(", got ");
                push_decimal(&mut s, *actual as u64);
                s
            },
            Error::ChecksumMismatch => String::from_str("Checksum mismatch"),
            Error::InvalidInput(m) => prefixed("Invalid input: ", m),
            Error::Transfer(m) => prefixed("Transfer error: ", m),
            Error::Tls(m) => prefixed("TLS error: ", m),
            Error::Authentication(m) => prefixed("Authentication failed: ", m),
            Error::Configuration(m) => prefixed("Configuration error: ", m),
            Error::NotSupported(m) => prefixed("Not supported: ", m),
            Error::InvalidKernelVersion => String::from_str("Invalid kernel version"),
            Error::DpdkInit(m) => prefixed("DPDK initialization failed: ", m),
            Error::Uuid(m) => prefixed("UUID error: ", m),
            Error::Other(m) => prefixed("Transport error: ", m),
        }
    }
}

} // verus!
