//! Transport layer for high-throughput peer-to-peer file transfer.
//!
//! The crate holds the decision logic of the transport: session lifecycle
//! rules, backend capabilities and selection, wire framing, forward error
//! correction, buffer pooling and the tuning formulas. Everything here is
//! verified; the I/O around it lives outside the crate.

pub mod clock;
pub mod session_state;
pub mod text;
pub mod transport_type;
pub mod backend_capabilities;
pub mod messages;
pub mod codec;
pub mod connection;
pub mod gf256;
pub mod erasure;
pub mod fec;
pub mod fec_manager;
pub mod buffer_pool;
pub mod storage_io;
pub mod net_tuning;
pub mod parallel_streams;
pub mod backend_selector;
pub mod backend_monitor;
pub mod fallback_manager;
pub mod transfer_flow;
pub mod adaptive_tuning;
pub mod transport_stats;
pub mod error;
pub mod session;
pub mod backend_factory;
pub mod transport_manager;
pub mod digest;
pub mod resume;
pub mod parallel;
