use qltp_transport::backend_monitor::{BackendMetrics, BackendMonitor, HealthStatus, MonitorConfig};
use qltp_transport::transport_type::TransportType;
use std::time::Duration;

fn ns(d: Duration) -> u128 {
    d.as_nanos()
}

#[test]
fn test_health_status_display() {
    assert_eq!(HealthStatus::Healthy.to_string(), "Healthy");
    assert_eq!(HealthStatus::Degraded.to_string(), "Degraded");
    assert_eq!(HealthStatus::Unhealthy.to_string(), "Unhealthy");
    assert_eq!(HealthStatus::Unknown.to_string(), "Unknown");
}

#[test]
fn test_backend_metrics_new() {
    let metrics = BackendMetrics::new(TransportType::Tcp);
    assert_eq!(metrics.transport_type, TransportType::Tcp);
    assert_eq!(metrics.bytes_sent, 0);
    assert_eq!(metrics.bytes_received, 0);
    assert_eq!(metrics.successful_operations, 0);
    assert_eq!(metrics.failed_operations, 0);
}

#[test]
fn test_metrics_record_send() {
    let mut metrics = BackendMetrics::new(TransportType::Tcp);
    metrics.record_send(1000, ns(Duration::from_millis(10)));
    assert_eq!(metrics.bytes_sent, 1000);
    assert_eq!(metrics.successful_operations, 1);
    assert!(metrics.avg_latency_us > 0);
}

#[test]
fn latency_average_and_throughput() {
    let mut m = BackendMetrics::new(TransportType::Quic);
    m.record_send(1000, ns(Duration::from_millis(10)));
    assert_eq!(m.avg_latency_us, 10_000);
    assert_eq!(m.peak_latency_us, 10_000);
    assert_eq!(m.current_throughput_bps, 100_000);
    m.record_receive(500, ns(Duration::from_millis(20)));
    assert_eq!(m.avg_latency_us, 11_000);
    assert_eq!(m.peak_latency_us, 20_000);
    assert_eq!(m.current_throughput_bps, 25_000);
    assert_eq!(m.peak_throughput_bps, 100_000);
    m.record_failure();
    assert_eq!(m.total_operations(), 3);
    // a zero duration leaves throughput alone
    m.record_send(10, 0);
    assert_eq!(m.current_throughput_bps, 25_000);
}

#[test]
fn test_monitor_creation() {
    let monitor = BackendMonitor::new(MonitorConfig::default());
    let summary = monitor.get_summary();
    assert_eq!(summary.total_backends, 0);
}

#[test]
fn test_register_backend() {
    let mut monitor = BackendMonitor::new(MonitorConfig::default());
    monitor.register_backend(TransportType::Tcp);
    let summary = monitor.get_summary();
    assert_eq!(summary.total_backends, 1);
}

#[test]
fn backend_monitor_test_record_operations() {
    let mut monitor = BackendMonitor::new(MonitorConfig::default());
    monitor.register_backend(TransportType::Tcp);
    monitor.record_send(TransportType::Tcp, 1000, ns(Duration::from_millis(10)));
    monitor.record_receive(TransportType::Tcp, 500, ns(Duration::from_millis(5)));
    let metrics = monitor.get_metrics(TransportType::Tcp).unwrap();
    assert_eq!(metrics.bytes_sent, 1000);
    assert_eq!(metrics.bytes_received, 500);
    assert_eq!(metrics.successful_operations, 2);
}

#[test]
fn test_health_check() {
    let mut monitor = BackendMonitor::new(MonitorConfig::default());
    monitor.register_backend(TransportType::Tcp);
    for _ in 0..10 {
        monitor.record_send(TransportType::Tcp, 100, ns(Duration::from_millis(1)));
    }
    let result = monitor.health_check(TransportType::Tcp);
    assert_eq!(result.status, HealthStatus::Healthy);
    assert!(result.error.is_none());
    assert!(monitor.is_healthy(TransportType::Tcp));
}

#[test]
fn test_unhealthy_detection() {
    let mut monitor = BackendMonitor::new(MonitorConfig::default());
    monitor.register_backend(TransportType::Tcp);
    for _ in 0..10 {
        monitor.record_failure(TransportType::Tcp);
    }
    monitor.record_send(TransportType::Tcp, 100, ns(Duration::from_millis(1)));
    let result = monitor.health_check(TransportType::Tcp);
    assert_eq!(result.status, HealthStatus::Unhealthy);
    assert_eq!(result.error.as_deref(), Some("Success rate: 9.1%, Failed: 10/11"));
}

#[test]
fn test_reset_metrics() {
    let mut monitor = BackendMonitor::new(MonitorConfig::default());
    monitor.register_backend(TransportType::Tcp);
    monitor.record_send(TransportType::Tcp, 1000, ns(Duration::from_millis(10)));
    monitor.reset_metrics(TransportType::Tcp);
    let metrics = monitor.get_metrics(TransportType::Tcp).unwrap();
    assert_eq!(metrics.bytes_sent, 0);
    assert_eq!(metrics.successful_operations, 0);
}

#[test]
fn degraded_between_thresholds() {
    let mut monitor = BackendMonitor::new(MonitorConfig::default());
    monitor.register_backend(TransportType::Quic);
    for _ in 0..7 {
        monitor.record_send(TransportType::Quic, 1, 1_000);
    }
    for _ in 0..3 {
        monitor.record_failure(TransportType::Quic);
    }
    let r = monitor.health_check(TransportType::Quic);
    assert_eq!(r.status, HealthStatus::Degraded);
    assert_eq!(r.error.as_deref(), Some("Success rate: 70.0%, Failed: 3/10"));
    assert!(!monitor.is_healthy(TransportType::Quic));
    assert_eq!(monitor.get_health(TransportType::Quic).unwrap().status, HealthStatus::Degraded);
}

#[test]
fn unregistered_backend_is_unknown() {
    let mut monitor = BackendMonitor::new(MonitorConfig::default());
    let r = monitor.health_check(TransportType::Dpdk);
    assert_eq!(r.status, HealthStatus::Unknown);
    assert_eq!(r.error.as_deref(), Some("Backend not registered"));
    assert!(monitor.get_metrics(TransportType::Dpdk).is_none());
    monitor.record_send(TransportType::Dpdk, 5, 5);
    assert!(monitor.get_metrics(TransportType::Dpdk).is_none());
}

#[test]
fn summary_counts_and_totals() {
    let mut monitor = BackendMonitor::new(MonitorConfig::default());
    monitor.register_backend(TransportType::Tcp);
    monitor.register_backend(TransportType::Quic);
    monitor.register_backend(TransportType::Tcp);
    monitor.record_send(TransportType::Tcp, 100, 1_000);
    monitor.record_receive(TransportType::Quic, 50, 1_000);
    monitor.record_failure(TransportType::Quic);
    monitor.health_check(TransportType::Tcp);
    monitor.health_check(TransportType::Quic);
    let s = monitor.get_summary();
    assert_eq!(s.total_backends, 2);
    assert_eq!(s.healthy_backends, 1);
    assert_eq!(s.degraded_backends, 1);
    assert_eq!(s.unhealthy_backends, 0);
    assert_eq!(s.total_bytes_sent, 100);
    assert_eq!(s.total_bytes_received, 50);
    assert_eq!(s.total_operations, 3);
    assert_eq!(monitor.get_all_metrics().len(), 2);
    assert_eq!(monitor.get_all_health().len(), 2);
}

#[test]
fn monitor_config_defaults_and_update() {
    let c = MonitorConfig::default();
    assert!(c.enable_health_checks);
    assert_eq!(c.health_check_interval, Duration::from_secs(30));
    assert_eq!(c.metrics_interval, Duration::from_secs(5));
    assert_eq!(c.unhealthy_threshold_permille, 500);
    assert_eq!(c.degraded_threshold_permille, 200);
    let mut monitor = BackendMonitor::new(c);
    let strict = MonitorConfig { degraded_threshold_permille: 0, ..c };
    monitor.set_config(strict);
    assert_eq!(monitor.config().degraded_threshold_permille, 0);
}

#[test]
fn health_check_result_is_kept_for_its_backend() {
    let mut monitor = BackendMonitor::new(MonitorConfig::default());
    monitor.register_backend(TransportType::Tcp);
    monitor.register_backend(TransportType::Quic);
    for _ in 0..10 {
        monitor.record_failure(TransportType::Tcp);
    }
    let result = monitor.health_check(TransportType::Tcp);
    let kept = monitor.get_health(TransportType::Tcp).unwrap();
    assert_eq!(kept.status, result.status);
    assert_eq!(kept.error, result.error);
    assert!(!monitor.is_healthy(TransportType::Tcp));
    // a registered backend starts with an unknown status, which the check
    // on another backend leaves alone
    assert_eq!(monitor.get_health(TransportType::Quic).unwrap().status, HealthStatus::Unknown);
}
