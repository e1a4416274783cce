//! Network tuning figures: MTU sizes, bandwidth-delay-product buffer and
//! window sizes, and the QUIC transport configuration.

use vstd::prelude::*;

verus! {

/// MTU (Maximum Transmission Unit) sizes.
#[derive(Debug, Clone, Copy, PartialEq, Eq, Structural)]
pub enum MtuSize {
    /// Standard Ethernet (1500 bytes)
    Standard,
    /// Jumbo frames (9000 bytes) - for 10GbE networks
    Jumbo,
    /// Custom MTU size
    Custom(u16),
}

/// The MTU in bytes.
pub open spec fn spec_mtu_bytes(m: MtuSize) -> u16 {
    match m {
        MtuSize::Standard => 1500,
        MtuSize::Jumbo => 9000,
        MtuSize::Custom(size) => size,
    }
}

impl MtuSize {
    /// Get the MTU value in bytes.
    pub fn as_bytes(&self) -> (r: u16)
        ensures
            r == spec_mtu_bytes(*self),
    {
        match self {
            MtuSize::Standard => 1500,
            MtuSize::Jumbo => 9000,
            MtuSize::Custom(size) => *size,
        }
    }

    /// Optimal buffer size for this MTU: the MTU less 60 bytes of TCP/IP
    /// headers, or the MTU itself when it is 60 bytes or less.
    pub fn optimal_buffer_size(&self) -> (r: usize)
        ensures
            r == (if spec_mtu_bytes(*self) > 60 {
                spec_mtu_bytes(*self) - 60
            } else {
                spec_mtu_bytes(*self) as int
            }),
    {
        let mtu = self.as_bytes() as usize;
        if mtu > 60 {
            mtu - 60
        } else {
            mtu
        }
    }

    /// The MTU class of a path MTU reported by the socket (`None` when the
    /// query failed): 9000 and above is jumbo, 1500 and above standard,
    /// other positive values custom; no positive report means standard.
    pub fn from_discovered(mtu: Option<i32>) -> (r: MtuSize)
        ensures
            r == (match mtu {
                Some(m) => if m <= 0 {
                    MtuSize::Standard
                } else if m >= 9000 {
                    MtuSize::Jumbo
                } else if m >= 1500 {
                    MtuSize::Standard
                } else {
                    MtuSize::Custom(m as u16)
                },
                None => MtuSize::Standard,
            }),
    {
        match mtu {
            Some(m) => {
                if m <= 0 {
                    MtuSize::Standard
                } else if m >= 9000 {
                    MtuSize::Jumbo
                } else if m >= 1500 {
                    MtuSize::Standard
                } else {
                    MtuSize::Custom(m as u16)
                }
            },
            None => MtuSize::Standard,
        }
    }
}

/// Bandwidth-delay product in bytes, `(bandwidth / 8) * rtt / 1000`,
/// clamped to `[1 MB, 64 MB]`.
pub open spec fn spec_bdp_window(bandwidth_bps: u64, rtt_ms: u64) -> u64 {
    let bdp = (bandwidth_bps / 8) * rtt_ms / 1000;
    if bdp < 1048576 {
        1048576
    } else if bdp > 67108864 {
        67108864
    } else {
        bdp as u64
    }
}

/// The product in the BDP formula fits in 64 bits.
pub open spec fn bdp_fits(bandwidth_bps: u64, rtt_ms: u64) -> bool {
    (bandwidth_bps / 8) * rtt_ms <= u64::MAX
}

fn bdp_window(bandwidth_bps: u64, rtt_ms: u64) -> (r: u64)
    requires
        bdp_fits(bandwidth_bps, rtt_ms),
    ensures
        r == spec_bdp_window(bandwidth_bps, rtt_ms),
{
    let bdp = (bandwidth_bps / 8) * rtt_ms / 1000;
    if bdp < 1048576 {
        1048576
    } else if bdp > 67108864 {
        67108864
    } else {
        bdp
    }
}

/// TCP socket buffer size from the bandwidth-delay product.
pub fn calculate_buffer_size(estimated_bandwidth_bps: u64, estimated_rtt_ms: u64) -> (r: usize)
    requires
        bdp_fits(estimated_bandwidth_bps, estimated_rtt_ms),
    ensures
        r == spec_bdp_window(estimated_bandwidth_bps, estimated_rtt_ms),
{
    bdp_window(estimated_bandwidth_bps, estimated_rtt_ms) as usize
}

/// QUIC initial window from the bandwidth-delay product.
pub fn calculate_quic_window_size(estimated_bandwidth_bps: u64, estimated_rtt_ms: u64) -> (r: u64)
    requires
        bdp_fits(estimated_bandwidth_bps, estimated_rtt_ms),
    ensures
        r == spec_bdp_window(estimated_bandwidth_bps, estimated_rtt_ms),
{
    bdp_window(estimated_bandwidth_bps, estimated_rtt_ms)
}

/// The window always lies within `[1 MB, 64 MB]`.
pub proof fn lemma_bdp_window_bounds(bandwidth_bps: u64, rtt_ms: u64)
    ensures
        1048576 <= spec_bdp_window(bandwidth_bps, rtt_ms) <= 67108864,
{
}

/// Congestion control algorithms.
#[derive(Debug, Clone, Copy, PartialEq, Eq, Structural)]
pub enum CongestionControlAlgorithm {
    /// Reno
    Reno,
    /// CUBIC
    Cubic,
    /// BBR (Bottleneck Bandwidth and RTT)
    Bbr,
}

/// QUIC transport backend configuration.
#[derive(Debug, Clone, Copy, PartialEq, Eq, Structural)]
pub struct QuicConfig {
    /// Maximum concurrent streams
    pub max_concurrent_streams: u64,
    /// Keep-alive interval in seconds
    pub keep_alive_interval: u64,
    /// Maximum idle timeout in seconds
    pub max_idle_timeout: u64,
    /// Initial congestion window size
    pub initial_window: u64,
    /// Maximum datagram size
    pub max_datagram_size: usize,
    /// Handshake timeout in seconds
    pub handshake_timeout_secs: u64,
    /// Enable connection migration
    pub enable_migration: bool,
    /// Congestion control algorithm
    pub cc_algorithm: CongestionControlAlgorithm,
}

/// The configuration shared by the presets: 100 streams, 5 s keep-alive,
/// migration and BBR, with the given window, idle timeout, datagram size and
/// handshake timeout.
pub open spec fn quic_preset(window: u64, idle: u64, datagram: usize, handshake: u64) -> QuicConfig {
    QuicConfig {
        max_concurrent_streams: 100,
        keep_alive_interval: 5,
        max_idle_timeout: idle,
        initial_window: window,
        max_datagram_size: datagram,
        handshake_timeout_secs: handshake,
        enable_migration: true,
        cc_algorithm: CongestionControlAlgorithm::Bbr,
    }
}

impl QuicConfig {
    /// Tuned for high-speed, low-latency links (10 Gbps, 10 ms RTT).
    pub fn high_speed() -> (c: Self)
        ensures
            c == quic_preset(spec_bdp_window(10_000_000_000, 10), 30, 8940, 10),
    {
        let window = calculate_quic_window_size(10_000_000_000, 10);
        QuicConfig {
            max_concurrent_streams: 100,
            keep_alive_interval: 5,
            max_idle_timeout: 30,
            initial_window: window,
            max_datagram_size: 8940,
            handshake_timeout_secs: 10,
            enable_migration: true,
            cc_algorithm: CongestionControlAlgorithm::Bbr,
        }
    }

    /// Tuned for high-latency links (1 Gbps, 300 ms RTT).
    pub fn high_latency() -> (c: Self)
        ensures
            c == quic_preset(spec_bdp_window(1_000_000_000, 300), 60, 1350, 30),
    {
        let window = calculate_quic_window_size(1_000_000_000, 300);
        QuicConfig {
            max_concurrent_streams: 100,
            keep_alive_interval: 5,
            max_idle_timeout: 60,
            initial_window: window,
            max_datagram_size: 1350,
            handshake_timeout_secs: 30,
            enable_migration: true,
            cc_algorithm: CongestionControlAlgorithm::Bbr,
        }
    }

    /// Configuration for a given bandwidth and RTT.
    pub fn custom(bandwidth_bps: u64, rtt_ms: u64) -> (c: Self)
        requires
            bdp_fits(bandwidth_bps, rtt_ms),
        ensures
            c == quic_preset(spec_bdp_window(bandwidth_bps, rtt_ms), 30, 8940, 10),
    {
        let window = calculate_quic_window_size(bandwidth_bps, rtt_ms);
        QuicConfig {
            max_concurrent_streams: 100,
            keep_alive_interval: 5,
            max_idle_timeout: 30,
            initial_window: window,
            max_datagram_size: 8940,
            handshake_timeout_secs: 10,
            enable_migration: true,
            cc_algorithm: CongestionControlAlgorithm::Bbr,
        }
    }

    /// Jumbo datagrams (8940 bytes) on or off (1350 bytes).
    pub fn with_jumbo_frames(self, enable: bool) -> (c: Self)
        ensures
            c == (QuicConfig { max_datagram_size: if enable { 8940 } else { 1350 }, ..self }),
    {
        let mut c = self;
        c.max_datagram_size = if enable { 8940 } else { 1350 };
        c
    }
}

impl Default for QuicConfig {
    /// Tuned for 10 Gbps and 100 ms RTT, with jumbo datagrams.
    fn default() -> (c: Self)
        ensures
            c == quic_preset(spec_bdp_window(10_000_000_000, 100), 30, 8940, 10),
    {
        let window = calculate_quic_window_size(10_000_000_000, 100);
        QuicConfig {
            max_concurrent_streams: 100,
            keep_alive_interval: 5,
            max_idle_timeout: 30,
            initial_window: window,
            max_datagram_size: 8940,
            handshake_timeout_secs: 10,
            enable_migration: true,
            cc_algorithm: CongestionControlAlgorithm::Bbr,
        }
    }
}

/// The preset windows: 64 MB for the default, 12.5 MB for high speed and
/// 37.5 MB for high latency.
pub proof fn lemma_preset_windows()
    ensures
        spec_bdp_window(10_000_000_000, 100) == 67108864,
        spec_bdp_window(10_000_000_000, 10) == 12_500_000,
        spec_bdp_window(1_000_000_000, 300) == 37_500_000,
{
}

} // verus!
