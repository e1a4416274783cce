use qltp_transport::backend_capabilities::{BackendCapabilities, Platform};
use qltp_transport::backend_selector::{BackendSelector, SelectionCriteria};
use qltp_transport::session::SessionConfig;
use qltp_transport::transport_type::{SystemProbe, TransportType};

fn linux_host() -> Platform {
    Platform::from_host(
        "linux".to_string(),
        "x86_64".to_string(),
        8,
        Some("Linux version 6.5.0-14-generic (buildd@lcy02) #14 SMP"),
    )
}

fn linux_probe() -> SystemProbe {
    SystemProbe {
        is_linux: true,
        io_uring_sysctl_present: true,
        proc_version: Some("Linux version 6.5.0 (buildd@lcy02) #14 SMP".to_string()),
        rte_sdk_set: false,
        uio_device_present: false,
    }
}

fn create_test_selector() -> BackendSelector {
    BackendSelector::new(linux_host(), linux_probe())
}

fn create_test_config() -> SessionConfig {
    SessionConfig {
        transport_type: TransportType::Tcp,
        local_addr: "0.0.0.0:0".to_string(),
        remote_addr: "127.0.0.1:8080".to_string(),
        max_transfer_size: 10_000_000_000,
        connection_timeout_secs: 30,
        enable_compression: true,
        enable_encryption: true,
    }
}

#[test]
fn test_backend_selection_tcp() {
    let criteria = SelectionCriteria { preferred_transport: Some(TransportType::Tcp), ..Default::default() };
    let selection = create_test_selector().select_optimal(&criteria).unwrap();
    assert_eq!(selection.transport_type, TransportType::Tcp);
    assert!(!selection.reason.is_empty());
}

#[test]
fn test_backend_selection_quic() {
    let criteria = SelectionCriteria { preferred_transport: Some(TransportType::Quic), ..Default::default() };
    let selection = create_test_selector().select_optimal(&criteria).unwrap();
    assert_eq!(selection.transport_type, TransportType::Quic);
}

#[test]
fn test_backend_selection_high_throughput() {
    let criteria = SelectionCriteria { min_throughput_bps: Some(1_000_000_000), ..Default::default() };
    let selection = create_test_selector().select_optimal(&criteria).unwrap();
    assert!(selection.transport_type == TransportType::Quic || selection.transport_type == TransportType::IoUring);
}

#[test]
fn test_backend_selection_zero_copy() {
    let criteria = SelectionCriteria { prefer_zero_copy: true, ..Default::default() };
    let selection = create_test_selector().select_optimal(&criteria).unwrap();
    if selection.transport_type == TransportType::IoUring {
        assert!(selection.capabilities.supports_zero_copy);
    }
}

#[test]
fn integration_tests_test_list_available_backends() {
    let backends = create_test_selector().list_available_backends();
    assert!(backends.len() >= 2);
    assert!(backends.iter().any(|(t, _)| *t == TransportType::Tcp));
    assert!(backends.iter().any(|(t, _)| *t == TransportType::Quic));
}

#[test]
fn test_backend_capabilities_tcp() {
    let caps = BackendCapabilities::for_transport(TransportType::Tcp);
    assert_eq!(caps.transport_type, TransportType::Tcp);
    assert_eq!(caps.max_throughput_bps, 250_000_000);
    assert!(caps.supports_zero_copy);
    assert!(!caps.uses_kernel_bypass);
    assert!(!caps.requires_special_hardware);
}

#[test]
fn test_backend_availability() {
    let platform = linux_host();
    assert!(BackendCapabilities::for_transport(TransportType::Tcp).is_available(&platform));
    assert!(BackendCapabilities::for_transport(TransportType::Quic).is_available(&platform));
    let io_uring_caps = BackendCapabilities::for_transport(TransportType::IoUring);
    if platform.os == "linux" && platform.supports_io_uring() {
        assert!(io_uring_caps.is_available(&platform));
    }
}

#[test]
fn test_session_config_creation() {
    let config = create_test_config();
    assert_eq!(config.transport_type, TransportType::Tcp);
    assert_eq!(config.max_transfer_size, 10_000_000_000);
    assert_eq!(config.connection_timeout_secs, 30);
    assert!(config.enable_compression);
    assert!(config.enable_encryption);
}

#[test]
fn test_auto_selection_with_criteria() {
    let selector = create_test_selector();
    let criteria_sets = vec![
        SelectionCriteria { min_throughput_bps: Some(100_000_000), ..Default::default() },
        SelectionCriteria { max_latency_ms: Some(10), ..Default::default() },
        SelectionCriteria { prefer_zero_copy: true, ..Default::default() },
        SelectionCriteria { allow_special_hardware: false, ..Default::default() },
    ];
    for criteria in criteria_sets {
        let result = selector.select_optimal(&criteria);
        assert!(result.is_ok());
        let selection = result.unwrap();
        assert!(!selection.reason.is_empty());
        assert!(!selection.fallbacks.is_empty());
    }
}

#[test]
fn integration_tests_test_fallback_chain() {
    let selection = create_test_selector().select_optimal(&SelectionCriteria::default()).unwrap();
    assert!(!selection.fallbacks.is_empty());
    assert!(!selection.fallbacks.contains(&selection.transport_type));
}

#[test]
fn test_performance_tiers() {
    assert_eq!(BackendCapabilities::for_transport(TransportType::Tcp).performance_tier(), "Basic");
    assert_eq!(BackendCapabilities::for_transport(TransportType::Quic).performance_tier(), "Professional");
    assert_eq!(BackendCapabilities::for_transport(TransportType::IoUring).performance_tier(), "Enterprise");
}

#[test]
fn test_hardware_cost_estimates() {
    assert_eq!(BackendCapabilities::for_transport(TransportType::Tcp).hardware_cost_usd, 20);
    assert_eq!(BackendCapabilities::for_transport(TransportType::Quic).hardware_cost_usd, 50);
    assert_eq!(BackendCapabilities::for_transport(TransportType::IoUring).hardware_cost_usd, 300);
    assert_eq!(BackendCapabilities::for_transport(TransportType::Dpdk).hardware_cost_usd, 2000);
}

#[test]
fn test_platform_resource_check() {
    assert!(linux_host().has_sufficient_resources());
}

#[test]
fn test_io_uring_platform_support() {
    let platform = linux_host();
    if platform.os == "linux" {
        let supports = platform.supports_io_uring();
        if let Some(ref kernel) = platform.kernel_version {
            if let Some(major) = kernel.split('.').next().and_then(|s| s.parse::<u32>().ok()) {
                if major >= 5 {
                    assert!(supports);
                }
            }
        }
    } else {
        assert!(!platform.supports_io_uring());
    }
}

#[test]
fn test_dpdk_platform_support() {
    let platform = linux_host();
    let expected_support = matches!(platform.os.as_str(), "linux" | "freebsd" | "windows");
    assert_eq!(platform.supports_dpdk(), expected_support);
}

#[test]
fn test_selection_with_budget_constraint() {
    let criteria = SelectionCriteria { max_hardware_cost_usd: Some(100), ..Default::default() };
    let selection = create_test_selector().select_optimal(&criteria).unwrap();
    assert!(selection.transport_type == TransportType::Tcp || selection.transport_type == TransportType::Quic);
    assert!(selection.capabilities.hardware_cost_usd <= 100);
}

#[test]
fn test_selection_with_high_budget() {
    let criteria = SelectionCriteria {
        max_hardware_cost_usd: Some(5000),
        allow_special_hardware: true,
        min_throughput_bps: Some(1_000_000_000),
        ..Default::default()
    };
    let selection = create_test_selector().select_optimal(&criteria).unwrap();
    assert!(selection.capabilities.max_throughput_bps >= 1_000_000_000);
}
