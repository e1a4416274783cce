use qltp_transport::backend_capabilities::{BackendCapabilities, Platform};
use qltp_transport::backend_selector::{BackendSelector, SelectionCriteria, SelectionError};
use qltp_transport::transport_type::{SystemProbe, TransportType};

fn linux_platform(cores: usize) -> Platform {
    Platform::from_host(
        "linux".to_string(),
        "x86_64".to_string(),
        cores,
        Some("Linux version 6.5.0-14-generic (buildd@lcy02) #14 SMP"),
    )
}

fn linux_probe() -> SystemProbe {
    SystemProbe {
        is_linux: true,
        io_uring_sysctl_present: true,
        proc_version: Some("Linux version 6.5.0 (buildd@lcy02) #14 SMP".to_string()),
        rte_sdk_set: false,
        uio_device_present: false,
    }
}

fn selector() -> BackendSelector {
    BackendSelector::new(linux_platform(8), linux_probe())
}

#[test]
fn test_selector_creation() {
    let selector = selector();
    assert!(!selector.platform().os.is_empty());
}

#[test]
fn test_default_criteria() {
    let criteria = SelectionCriteria::default();
    assert!(criteria.prefer_zero_copy);
    assert!(!criteria.allow_special_hardware);
    assert_eq!(criteria.max_hardware_cost_usd, Some(500));
}

#[test]
fn test_selection_with_default_criteria() {
    let selector = selector();
    let criteria = SelectionCriteria::default();
    let result = selector.select_optimal(&criteria);
    assert!(result.is_ok());
    let selection = result.unwrap();
    assert!(!selection.reason.is_empty());
    assert!(!selection.fallbacks.is_empty());
}

#[test]
fn test_selection_with_high_throughput_requirement() {
    let selector = selector();
    let criteria = SelectionCriteria { min_throughput_bps: Some(5_000_000_000), ..Default::default() };
    let result = selector.select_optimal(&criteria);
    if let Ok(selection) = result {
        assert!(matches!(selection.transport_type, TransportType::IoUring | TransportType::Dpdk));
    }
}

#[test]
fn test_preferred_transport() {
    let selector = selector();
    let criteria = SelectionCriteria { preferred_transport: Some(TransportType::Tcp), ..Default::default() };
    let result = selector.select_optimal(&criteria);
    assert!(result.is_ok());
    let selection = result.unwrap();
    assert_eq!(selection.transport_type, TransportType::Tcp);
}

#[test]
fn backend_selector_test_list_available_backends() {
    let selector = selector();
    let available = selector.list_available_backends();
    assert!(!available.is_empty());
    assert!(available.iter().any(|(t, _)| *t == TransportType::Tcp));
}

#[test]
fn backend_selector_test_fallback_chain() {
    let selector = selector();
    let fallbacks = selector.get_fallback_chain(TransportType::IoUring);
    assert!(!fallbacks.contains(&TransportType::IoUring));
    if fallbacks.len() >= 2 {
        let first_caps = BackendCapabilities::for_transport(fallbacks[0]);
        let second_caps = BackendCapabilities::for_transport(fallbacks[1]);
        assert!(first_caps.max_throughput_bps >= second_caps.max_throughput_bps);
    }
}

#[test]
fn test_score_calculation() {
    let selector = selector();
    let criteria = SelectionCriteria::default();
    let io_uring_score = selector.calculate_score(TransportType::IoUring, &criteria);
    let tcp_score = selector.calculate_score(TransportType::Tcp, &criteria);
    assert!(io_uring_score > tcp_score);
}

#[test]
fn test_meets_criteria() {
    let selector = selector();
    let criteria = SelectionCriteria { min_throughput_bps: Some(5_000_000_000), ..Default::default() };
    let io_uring_caps = BackendCapabilities::for_transport(TransportType::IoUring);
    let tcp_caps = BackendCapabilities::for_transport(TransportType::Tcp);
    assert!(selector.meets_criteria(&io_uring_caps, &criteria));
    assert!(!selector.meets_criteria(&tcp_caps, &criteria));
}

#[test]
fn test_special_hardware_filtering() {
    let selector = selector();
    let criteria = SelectionCriteria { allow_special_hardware: false, ..Default::default() };
    let dpdk_caps = BackendCapabilities::for_transport(TransportType::Dpdk);
    assert!(!selector.meets_criteria(&dpdk_caps, &criteria));
    let criteria_with_hw = SelectionCriteria { allow_special_hardware: true, ..Default::default() };
    let meets_hw_criteria = selector.meets_criteria(&dpdk_caps, &criteria_with_hw);
    if dpdk_caps.is_available(selector.platform()) {
        assert!(meets_hw_criteria);
    } else {
        assert!(!meets_hw_criteria);
    }
}

#[test]
fn default_selection_ranks_by_score_with_fallbacks_fastest_first() {
    let selection = selector().select_optimal(&SelectionCriteria::default()).unwrap();
    assert_eq!(selection.transport_type, TransportType::IoUring);
    assert_eq!(selection.fallbacks, vec![TransportType::Quic, TransportType::Tcp]);
    assert_eq!(selection.reason, "Optimal performance for platform, zero-copy support, kernel bypass");
    assert_eq!(selection.capabilities.transport_type, TransportType::IoUring);
}

#[test]
fn exact_scores_in_thousandths() {
    let s = selector();
    let c = SelectionCriteria::default();
    assert_eq!(s.calculate_score(TransportType::IoUring, &c), 100_000);
    assert_eq!(s.calculate_score(TransportType::Tcp, &c), 45_750);
    assert_eq!(s.calculate_score(TransportType::Quic, &c), 42_200);
    let zero_budget = SelectionCriteria { max_hardware_cost_usd: Some(0), ..Default::default() };
    assert_eq!(s.calculate_score(TransportType::Tcp, &zero_budget), 0);
}

#[test]
fn reason_reports_throughput_margin() {
    let s = selector();
    let c = SelectionCriteria { min_throughput_bps: Some(5_000_000_000), ..Default::default() };
    let selection = s.select_optimal(&c).unwrap();
    assert_eq!(selection.transport_type, TransportType::IoUring);
    assert!(selection.fallbacks.is_empty());
    assert_eq!(
        selection.reason,
        "Optimal performance for platform, zero-copy support, kernel bypass, 4.0x required throughput"
    );
    let r = s.get_selection_reason(TransportType::Quic, 50_000, &SelectionCriteria {
        min_throughput_bps: Some(300_000_000),
        ..Default::default()
    });
    assert_eq!(r, "Best available option, 4.7x required throughput");
}

#[test]
fn preferred_backend_gets_its_fallback_chain() {
    let s = selector();
    let c = SelectionCriteria { preferred_transport: Some(TransportType::Tcp), ..Default::default() };
    let selection = s.select_optimal(&c).unwrap();
    assert_eq!(selection.reason, "User-specified preferred transport");
    assert_eq!(selection.fallbacks, vec![TransportType::IoUring, TransportType::Quic]);
    assert!(s.try_select_preferred(TransportType::Dpdk, &c).is_none());
}

#[test]
fn nothing_meets_impossible_criteria() {
    let s = selector();
    let c = SelectionCriteria { min_throughput_bps: Some(u64::MAX), ..Default::default() };
    assert_eq!(s.select_optimal(&c).unwrap_err(), SelectionError::NoBackendsAvailable);
    assert!(s.get_available_backends(&c).is_empty());
}

#[test]
fn small_host_falls_back_to_quic_and_tcp() {
    let s = BackendSelector::new(linux_platform(2), linux_probe());
    let listed: Vec<TransportType> = s.list_available_backends().into_iter().map(|(t, _)| t).collect();
    assert_eq!(listed, vec![TransportType::Quic, TransportType::Tcp]);
    assert!(s.is_optimized_for_platform(TransportType::Quic));
    assert!(!s.is_optimized_for_platform(TransportType::Dpdk));
    assert!(s.is_optimized_for_platform(TransportType::IoUring));
}
