use qltp_transport::net_tuning::{
    calculate_buffer_size, calculate_quic_window_size, CongestionControlAlgorithm, MtuSize, QuicConfig,
};

#[test]
fn mtu_sizes_and_buffers() {
    assert_eq!(MtuSize::Standard.as_bytes(), 1500);
    assert_eq!(MtuSize::Jumbo.as_bytes(), 9000);
    assert_eq!(MtuSize::Custom(1400).as_bytes(), 1400);
    assert_eq!(MtuSize::Standard.optimal_buffer_size(), 1440);
    assert_eq!(MtuSize::Jumbo.optimal_buffer_size(), 8940);
    assert_eq!(MtuSize::Custom(40).optimal_buffer_size(), 40);
}

#[test]
fn discovered_mtu_classes() {
    assert_eq!(MtuSize::from_discovered(Some(9000)), MtuSize::Jumbo);
    assert_eq!(MtuSize::from_discovered(Some(1500)), MtuSize::Standard);
    assert_eq!(MtuSize::from_discovered(Some(1280)), MtuSize::Custom(1280));
    assert_eq!(MtuSize::from_discovered(Some(0)), MtuSize::Standard);
    assert_eq!(MtuSize::from_discovered(None), MtuSize::Standard);
}

#[test]
fn bdp_buffer_is_clamped() {
    // 10 Gbps x 10 ms = 12.5 MB
    assert_eq!(calculate_buffer_size(10_000_000_000, 10), 12_500_000);
    // tiny product is raised to 1 MB
    assert_eq!(calculate_buffer_size(1_000_000, 1), 1_048_576);
    // large product is capped at 64 MB
    assert_eq!(calculate_buffer_size(10_000_000_000, 1000), 67_108_864);
    assert_eq!(calculate_quic_window_size(1_000_000_000, 300), 37_500_000);
}

#[test]
fn quic_presets() {
    let d = QuicConfig::default();
    assert_eq!(d.initial_window, 67_108_864);
    assert_eq!(d.max_datagram_size, 8940);
    assert_eq!(d.max_concurrent_streams, 100);
    assert_eq!(d.cc_algorithm, CongestionControlAlgorithm::Bbr);
    let hs = QuicConfig::high_speed();
    assert_eq!(hs.initial_window, 12_500_000);
    assert_eq!(hs.max_idle_timeout, 30);
    let hl = QuicConfig::high_latency();
    assert_eq!(hl.initial_window, 37_500_000);
    assert_eq!(hl.max_datagram_size, 1350);
    assert_eq!(hl.handshake_timeout_secs, 30);
    let c = QuicConfig::custom(1_000_000_000, 100).with_jumbo_frames(false);
    assert_eq!(c.initial_window, 12_500_000);
    assert_eq!(c.max_datagram_size, 1350);
    assert_eq!(c.with_jumbo_frames(true).max_datagram_size, 8940);
}
