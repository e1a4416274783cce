//! Which transport backends this build can construct.
//!
//! This build carries the TCP backend only: QUIC and io_uring need their
//! optional backends compiled in, and DPDK has no backend at all.

use vstd::prelude::*;
use vstd::string::StringExecFns;
use crate::error::Error;
use crate::transport_type::TransportType;

verus! {

/// The transport types this build can construct.
pub fn buildable_transports() -> (v: Vec<TransportType>)
    ensures
        v@ == seq![TransportType::Tcp],
{
    let mut out = Vec::new();
    out.push(TransportType::Tcp);
    out
}

/// Why a backend cannot be built, for each transport type this build does
/// not construct.
pub open spec fn unbuildable_reason(t: TransportType) -> Seq<char> {
    match t {
        TransportType::Quic => "QUIC backend requested but the `quic` cargo feature is disabled"@,
        TransportType::IoUring => "io_uring backend is only available on Linux with the `io_uring` cargo feature enabled"@,
        _ => "DPDK backend is not implemented in this build (requires specialized hardware and is not suitable for cloud deployments)"@,
    }
}

/// Decide whether a backend of this type can be built: TCP can; the others
/// fail with a configuration error that says why.
pub fn check_buildable(transport_type: TransportType) -> (r: Result<TransportType, Error>)
    ensures
        transport_type == TransportType::Tcp ==> r == Ok::<TransportType, Error>(TransportType::Tcp),
        transport_type != TransportType::Tcp ==> (r matches Err(Error::Configuration(m)) && m@ == unbuildable_reason(
            transport_type,
        )),
{
    match transport_type {
        TransportType::Tcp => Ok(TransportType::Tcp),
        TransportType::Quic => Err(
            Error::Configuration(String::from_str("QUIC backend requested but the `quic` cargo feature is disabled")),
        ),
        TransportType::IoUring => Err(
            Error::Configuration(
                String::from_str(
                    "io_uring backend is only available on Linux with the `io_uring` cargo feature enabled",
                ),
            ),
        ),
        TransportType::Dpdk => Err(
            Error::Configuration(
                String::from_str(
                    "DPDK backend is not implemented in this build (requires specialized hardware and is not suitable for cloud deployments)",
                ),
            ),
        ),
    }
}

} // verus!
