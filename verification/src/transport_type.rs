//! Transport backend types.

use vstd::prelude::*;
use crate::text::{chars_of, nth_field, nth_field_range, nth_word, nth_word_range, parse_u32, spec_parse_u32};

verus! {

/// Transport backend types.
#[derive(Debug, Clone, Copy, PartialEq, Eq, Hash, Structural)]
pub enum TransportType {
    /// io_uring - Linux kernel bypass (8-25 GB/s)
    IoUring,
    /// DPDK - Data Plane Development Kit (10 GB/s)
    Dpdk,
    /// QUIC - Modern UDP-based protocol (1 GB/s)
    Quic,
    /// TCP - Standard reliable transport (120 MB/s)
    Tcp,
}

/// What the host tells about itself, gathered by the caller: the facts on
/// which backend availability depends.
#[derive(Debug, Clone)]
pub struct SystemProbe {
    /// The program runs on Linux.
    pub is_linux: bool,
    /// `/proc/sys/kernel/io_uring_disabled` exists.
    pub io_uring_sysctl_present: bool,
    /// Contents of `/proc/version`, when it could be read.
    pub proc_version: Option<String>,
    /// The `RTE_SDK` environment variable is set.
    pub rte_sdk_set: bool,
    /// `/dev/uio0` exists.
    pub uio_device_present: bool,
}

/// Kernel version `(major, minor, patch)` read from the text of
/// `/proc/version`: its third whitespace-separated word, split at `'.'`,
/// must have at least three fields, the first three of which parse as `u32`.
pub open spec fn spec_kernel_version(v: Seq<char>) -> Option<(u32, u32, u32)> {
    match nth_word(v, 2) {
        None => None,
        Some(w) => match (nth_field(w, 0), nth_field(w, 1), nth_field(w, 2)) {
            (Some(a), Some(b), Some(c)) => match (
                spec_parse_u32(a),
                spec_parse_u32(b),
                spec_parse_u32(c),
            ) {
                (Some(x), Some(y), Some(z)) => Some((x, y, z)),
                _ => None,
            },
            _ => None,
        },
    }
}

/// io_uring is usable: Linux, the io_uring sysctl exists, and the kernel
/// version reads as 5.1 or later.
pub open spec fn spec_io_uring_available(p: SystemProbe) -> bool {
    &&& p.is_linux
    &&& p.io_uring_sysctl_present
    &&& match p.proc_version {
        Some(v) => match spec_kernel_version(v@) {
            Some((major, minor, _)) => major > 5 || (major == 5 && minor >= 1),
            None => false,
        },
        None => false,
    }
}

/// DPDK is usable: `RTE_SDK` is set and `/dev/uio0` exists.
pub open spec fn spec_dpdk_available(p: SystemProbe) -> bool {
    p.rte_sdk_set && p.uio_device_present
}

/// Availability of a backend on the probed host.
pub open spec fn spec_is_available(t: TransportType, p: SystemProbe) -> bool {
    match t {
        TransportType::IoUring => spec_io_uring_available(p),
        TransportType::Dpdk => spec_dpdk_available(p),
        TransportType::Quic => true,
        TransportType::Tcp => true,
    }
}

/// Maximum theoretical throughput in bytes/second.
pub open spec fn spec_max_throughput(t: TransportType) -> u64 {
    match t {
        TransportType::IoUring => 8_000_000_000,
        TransportType::Dpdk => 10_000_000_000,
        TransportType::Quic => 1_000_000_000,
        TransportType::Tcp => 120_000_000,
    }
}

/// Selection priority (higher is preferred).
pub open spec fn spec_priority(t: TransportType) -> u8 {
    match t {
        TransportType::IoUring => 90,
        TransportType::Dpdk => 100,
        TransportType::Quic => 70,
        TransportType::Tcp => 50,
    }
}

/// The backends in their declaration order.
pub open spec fn all_backends() -> Seq<TransportType> {
    seq![TransportType::IoUring, TransportType::Dpdk, TransportType::Quic, TransportType::Tcp]
}

/// The backends, in declaration order, that are available on the probed host.
pub open spec fn spec_available_backends(p: SystemProbe) -> Seq<TransportType> {
    all_backends().filter(|t: TransportType| spec_is_available(t, p))
}

/// Display name of a backend.
pub open spec fn spec_transport_name(t: TransportType) -> Seq<char> {
    match t {
        TransportType::IoUring => "io_uring"@,
        TransportType::Dpdk => "DPDK"@,
        TransportType::Quic => "QUIC"@,
        TransportType::Tcp => "TCP"@,
    }
}

impl TransportType {
    /// Check if this backend is available on the probed system.
    pub fn is_available(&self, probe: &SystemProbe) -> (r: bool)
        ensures
            r == spec_is_available(*self, *probe),
    {
        match self {
            TransportType::IoUring => Self::check_io_uring_available(probe),
            TransportType::Dpdk => Self::check_dpdk_available(probe),
            TransportType::Quic => true,
            TransportType::Tcp => true,
        }
    }

    /// Get maximum theoretical throughput in bytes/second.
    pub fn max_throughput(&self) -> (r: u64)
        ensures
            r == spec_max_throughput(*self),
    {
        match self {
            TransportType::IoUring => 8_000_000_000,
            TransportType::Dpdk => 10_000_000_000,
            TransportType::Quic => 1_000_000_000,
            TransportType::Tcp => 120_000_000,
        }
    }

    /// Get priority for backend selection (higher = preferred).
    pub fn priority(&self) -> (r: u8)
        ensures
            r == spec_priority(*self),
    {
        match self {
            TransportType::IoUring => 90,
            TransportType::Dpdk => 100,
            TransportType::Quic => 70,
            TransportType::Tcp => 50,
        }
    }

    /// Check if backend requires special hardware.
    pub fn requires_special_hardware(&self) -> (r: bool)
        ensures
            r == (*self == TransportType::Dpdk),
    {
        matches!(self, TransportType::Dpdk)
    }

    /// Check if backend supports zero-copy.
    pub fn supports_zero_copy(&self) -> (r: bool)
        ensures
            r == (*self == TransportType::IoUring || *self == TransportType::Dpdk),
    {
        matches!(self, TransportType::IoUring | TransportType::Dpdk)
    }

    /// Check if backend supports parallel streams.
    pub fn supports_parallel_streams(&self) -> (r: bool)
        ensures
            r == (*self == TransportType::Quic),
    {
        matches!(self, TransportType::Quic)
    }

    /// Get all backends available on the probed system, in declaration order.
    pub fn available_backends(probe: &SystemProbe) -> (r: Vec<TransportType>)
        ensures
            r@ == spec_available_backends(*probe),
    {
        let all = vec![TransportType::IoUring, TransportType::Dpdk, TransportType::Quic, TransportType::Tcp];
        let ghost pred = |t: TransportType| spec_is_available(t, *probe);
        let mut out: Vec<TransportType> = Vec::new();
        let mut i: usize = 0;
        assert(all@ == all_backends());
        while i < all.len()
            invariant
                i <= all@.len(),
                all@ == all_backends(),
                pred == (|t: TransportType| spec_is_available(t, *probe)),
                out@ == all@.take(i as int).filter(pred),
            decreases all@.len() - i,
        {
            reveal_with_fuel(Seq::<_>::filter, 1);
            let t = all[i];
            assert(all@.take(i + 1).drop_last() =~= all@.take(i as int));
            assert(all@.take(i + 1).last() == t);
            if t.is_available(probe) {
                out.push(t);
            }
            i = i + 1;
        }
        assert(all@.take(all@.len() as int) =~= all@);
        out
    }

    /// Check if io_uring is available.
    pub fn check_io_uring_available(probe: &SystemProbe) -> (r: bool)
        ensures
            r == spec_io_uring_available(*probe),
    {
        if !probe.is_linux || !probe.io_uring_sysctl_present {
            return false;
        }
        match &probe.proc_version {
            None => false,
            Some(v) => match Self::get_kernel_version(v.as_str()) {
                Some((major, minor, _)) => major > 5 || (major == 5 && minor >= 1),
                None => false,
            },
        }
    }

    /// Check if DPDK is available.
    pub fn check_dpdk_available(probe: &SystemProbe) -> (r: bool)
        ensures
            r == spec_dpdk_available(*probe),
    {
        probe.rte_sdk_set && probe.uio_device_present
    }

    /// Kernel version read from the text of `/proc/version`.
    pub fn get_kernel_version(version: &str) -> (r: Option<(u32, u32, u32)>)
        ensures
            r == spec_kernel_version(version@),
    {
        let chars = chars_of(version);
        let (b, e) = match nth_word_range(&chars, 2) {
            None => return None,
            Some(r) => r,
        };
        let ghost w = chars@.subrange(b as int, e as int);
        assert(w =~= w.subrange(0, w.len() as int));
        let f0 = nth_field_range(&chars, b, e, 0);
        let f1 = nth_field_range(&chars, b, e, 1);
        let f2 = nth_field_range(&chars, b, e, 2);
        match (f0, f1, f2) {
            (Some((b0, e0)), Some((b1, e1)), Some((b2, e2))) => {
                let major = parse_u32(&chars, b0, e0);
                let minor = parse_u32(&chars, b1, e1);
                let patch = parse_u32(&chars, b2, e2);
                match (major, minor, patch) {
                    (Some(x), Some(y), Some(z)) => Some((x, y, z)),
                    _ => None,
                }
            },
            _ => None,
        }
    }

    /// The backend's display name.
    pub fn to_string(&self) -> (s: String)
        ensures
            s@ == spec_transport_name(*self),
    {
        match self {
            TransportType::IoUring => "io_uring".to_string(),
            TransportType::Dpdk => "DPDK".to_string(),
            TransportType::Quic => "QUIC".to_string(),
            TransportType::Tcp => "TCP".to_string(),
        }
    }
}

/// TCP and QUIC are available on every host.
pub proof fn lemma_tcp_and_quic_always_available(p: SystemProbe)
    ensures
        spec_is_available(TransportType::Tcp, p),
        spec_is_available(TransportType::Quic, p),
        spec_available_backends(p).contains(TransportType::Tcp),
{
    reveal_with_fuel(Seq::<_>::filter, 5);
    let s = spec_available_backends(p);
    assert(s.len() >= 1);
    assert(s.last() == TransportType::Tcp);
    assert(s[s.len() - 1] == TransportType::Tcp);
}

/// Priorities order the backends strictly: DPDK above io_uring above QUIC
/// above TCP.
pub proof fn lemma_priority_order()
    ensures
        spec_priority(TransportType::Dpdk) > spec_priority(TransportType::IoUring),
        spec_priority(TransportType::IoUring) > spec_priority(TransportType::Quic),
        spec_priority(TransportType::Quic) > spec_priority(TransportType::Tcp),
{
}

} // verus!
