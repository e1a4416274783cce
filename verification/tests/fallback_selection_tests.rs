use qltp_transport::backend_capabilities::{BackendCapabilities, Platform};
use qltp_transport::backend_selector::{BackendSelector, SelectionCriteria};
use qltp_transport::transport_type::{SystemProbe, TransportType};

fn host() -> (Platform, SystemProbe) {
    let platform = Platform::from_host(
        "linux".to_string(),
        "x86_64".to_string(),
        8,
        Some("Linux version 6.5.0-14-generic (buildd@lcy02) #14 SMP"),
    );
    let probe = SystemProbe {
        is_linux: true,
        io_uring_sysctl_present: true,
        proc_version: Some("Linux version 6.5.0 (buildd@lcy02) #14 SMP".to_string()),
        rte_sdk_set: false,
        uio_device_present: false,
    };
    (platform, probe)
}

fn selector() -> BackendSelector {
    let (platform, probe) = host();
    BackendSelector::new(platform, probe)
}

#[test]
fn test_fallback_chain_generation() {
    let selection = selector().select_optimal(&SelectionCriteria::default()).unwrap();
    assert!(!selection.fallbacks.is_empty());
    assert!(!selection.fallbacks.contains(&selection.transport_type));
    for fallback in &selection.fallbacks {
        let caps = BackendCapabilities::for_transport(*fallback);
        assert!(caps.max_throughput_bps > 0);
    }
}

#[test]
fn test_fallback_order_by_performance() {
    let criteria = SelectionCriteria { min_throughput_bps: Some(1_000_000_000), ..Default::default() };
    let selection = selector().select_optimal(&criteria).unwrap();
    assert!(selection.capabilities.max_throughput_bps >= 1_000_000_000);
    if selection.fallbacks.len() >= 2 {
        let first = BackendCapabilities::for_transport(selection.fallbacks[0]);
        let second = BackendCapabilities::for_transport(selection.fallbacks[1]);
        assert!(first.max_throughput_bps >= second.max_throughput_bps);
    }
}

#[test]
fn test_fallback_includes_tcp_as_last_resort() {
    let selection = selector().select_optimal(&SelectionCriteria::default()).unwrap();
    if selection.transport_type != TransportType::Tcp {
        assert!(selection.fallbacks.contains(&TransportType::Tcp));
    }
}

#[test]
fn test_fallback_respects_platform_constraints() {
    let (platform, _) = host();
    let selection = selector().select_optimal(&SelectionCriteria::default()).unwrap();
    for fallback in &selection.fallbacks {
        assert!(BackendCapabilities::for_transport(*fallback).is_available(&platform));
    }
}

#[test]
fn test_fallback_with_high_throughput_requirement() {
    let criteria = SelectionCriteria { min_throughput_bps: Some(500_000_000), ..Default::default() };
    let selection = selector().select_optimal(&criteria).unwrap();
    assert!(selection.capabilities.max_throughput_bps >= 500_000_000);
}

#[test]
fn test_fallback_with_zero_copy_preference() {
    let criteria = SelectionCriteria { prefer_zero_copy: true, ..Default::default() };
    let selection = selector().select_optimal(&criteria).unwrap();
    if selection.transport_type == TransportType::IoUring {
        assert!(selection.capabilities.supports_zero_copy);
        assert!(
            selection.fallbacks.contains(&TransportType::Quic) || selection.fallbacks.contains(&TransportType::Tcp)
        );
    }
}

#[test]
fn test_fallback_with_budget_constraint() {
    let criteria = SelectionCriteria { max_hardware_cost_usd: Some(50), ..Default::default() };
    let selection = selector().select_optimal(&criteria).unwrap();
    assert!(selection.capabilities.hardware_cost_usd <= 50);
    for fallback in &selection.fallbacks {
        assert!(BackendCapabilities::for_transport(*fallback).hardware_cost_usd <= 50);
    }
}

#[test]
fn test_fallback_chain_completeness() {
    let s = selector();
    let available = s.list_available_backends();
    let selection = s.select_optimal(&SelectionCriteria::default()).unwrap();
    assert!(1 + selection.fallbacks.len() <= available.len());
}

#[test]
fn test_fallback_no_duplicates() {
    let selection = selector().select_optimal(&SelectionCriteria::default()).unwrap();
    let mut seen = std::collections::HashSet::new();
    for fallback in &selection.fallbacks {
        assert!(seen.insert(*fallback), "Duplicate fallback found: {:?}", fallback);
    }
}

#[test]
fn test_fallback_with_special_hardware_disabled() {
    let criteria = SelectionCriteria { allow_special_hardware: false, ..Default::default() };
    let selection = selector().select_optimal(&criteria).unwrap();
    assert!(!selection.capabilities.requires_special_hardware);
    for fallback in &selection.fallbacks {
        assert!(!BackendCapabilities::for_transport(*fallback).requires_special_hardware);
    }
}

#[test]
fn test_fallback_preserves_cross_platform_options() {
    let selection = selector().select_optimal(&SelectionCriteria::default()).unwrap();
    let has_cross_platform = selection.transport_type == TransportType::Tcp
        || selection.transport_type == TransportType::Quic
        || selection.fallbacks.contains(&TransportType::Tcp)
        || selection.fallbacks.contains(&TransportType::Quic);
    assert!(has_cross_platform);
}

#[test]
fn test_fallback_reason_clarity() {
    let criteria = SelectionCriteria { min_throughput_bps: Some(1_000_000_000), ..Default::default() };
    let selection = selector().select_optimal(&criteria).unwrap();
    assert!(!selection.reason.is_empty());
    assert!(selection.reason.len() > 20);
}

#[test]
fn test_fallback_with_latency_constraint() {
    let criteria = SelectionCriteria { max_latency_ms: Some(10), ..Default::default() };
    let selection = selector().select_optimal(&criteria).unwrap();
    assert!(!selection.fallbacks.is_empty());
}
