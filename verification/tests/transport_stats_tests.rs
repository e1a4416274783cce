use qltp_transport::transport_stats::TransportStats;

#[test]
fn transport_stats_test_record_operations() {
    let mut stats = TransportStats::new();
    stats.record_send(1000);
    assert_eq!(stats.bytes_sent, 1000);
    assert_eq!(stats.bytes_transferred, 1000);
    assert_eq!(stats.packets_sent, 1);
    stats.record_receive(2000);
    assert_eq!(stats.bytes_received, 2000);
    assert_eq!(stats.bytes_transferred, 3000);
    assert_eq!(stats.packets_received, 1);
}

#[test]
fn test_transport_stats() {
    let mut stats = TransportStats::new();
    stats.record_send(1000);
    stats.record_receive(2000);
    assert_eq!(stats.bytes_sent, 1000);
    assert_eq!(stats.bytes_received, 2000);
    assert_eq!(stats.bytes_transferred, 3000);
}

#[test]
fn test_is_healthy() {
    let mut stats = TransportStats::new();
    stats.packets_sent = 1000;
    stats.packets_received = 1000;
    stats.packets_lost = 5; // 0.25% loss
    stats.errors = 1; // 0.05% error rate
    assert!(stats.is_healthy());
    stats.packets_lost = 50; // 2.5% loss
    assert!(!stats.is_healthy());
}

#[test]
fn test_merge_stats() {
    let mut stats1 = TransportStats::new();
    stats1.bytes_sent = 1000;
    stats1.packets_sent = 10;
    stats1.throughput_bps = 1_000_000;
    let mut stats2 = TransportStats::new();
    stats2.bytes_sent = 2000;
    stats2.packets_sent = 20;
    stats2.throughput_bps = 2_000_000;
    stats1.merge(&stats2);
    assert_eq!(stats1.bytes_sent, 3000);
    assert_eq!(stats1.packets_sent, 30);
    assert_eq!(stats1.throughput_bps, 1_500_000);
}

#[test]
fn empty_stats_are_healthy_and_merge_as_identity() {
    let mut s = TransportStats::new();
    assert!(s.is_healthy());
    s.record_send(10);
    s.update_rtt(40);
    s.update_cpu_usage(3_000);
    let before = s;
    s.merge(&TransportStats::new());
    assert_eq!(s, before);
    s.record_error();
    assert!(!s.is_healthy());
}

#[test]
fn merge_averages_latest_figures() {
    let mut a = TransportStats::new();
    a.update_rtt(10);
    a.update_cpu_usage(2_000);
    let mut b = TransportStats::new();
    b.update_rtt(31);
    b.update_cpu_usage(4_001);
    a.merge(&b);
    assert_eq!(a.rtt_ms, 20);
    assert_eq!(a.cpu_usage_centipercent, 3_000);
}
