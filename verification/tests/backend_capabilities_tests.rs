use qltp_transport::backend_capabilities::{BackendCapabilities, Platform};
use qltp_transport::transport_type::TransportType;

fn linux_host(cores: usize) -> Platform {
    Platform::from_host(
        "linux".to_string(),
        "x86_64".to_string(),
        cores,
        Some("Linux version 6.5.0-14-generic (buildd@lcy02) #14 SMP"),
    )
}

#[test]
fn backend_capabilities_test_io_uring_capabilities() {
    let caps = BackendCapabilities::for_transport(TransportType::IoUring);
    assert_eq!(caps.max_throughput_bps, 20_000_000_000);
    assert!(caps.supports_zero_copy);
    assert!(caps.uses_kernel_bypass);
    assert!(!caps.requires_special_hardware);
    assert_eq!(caps.performance_tier(), "Enterprise");
}

#[test]
fn test_dpdk_capabilities() {
    let caps = BackendCapabilities::for_transport(TransportType::Dpdk);
    assert_eq!(caps.max_throughput_bps, 10_000_000_000);
    assert!(caps.requires_special_hardware);
    assert_eq!(caps.performance_tier(), "Enterprise");
}

#[test]
fn test_availability_check() {
    let caps = BackendCapabilities::for_transport(TransportType::Tcp);
    let platform = linux_host(8);
    assert!(caps.is_available(&platform));
}

#[test]
fn test_backend_capabilities() {
    let caps = BackendCapabilities::for_transport(TransportType::IoUring);
    assert_eq!(caps.max_throughput_bps, 20_000_000_000);
    assert!(caps.supports_zero_copy);
    assert!(caps.uses_kernel_bypass);
    assert!(!caps.requires_special_hardware);
}

#[test]
fn performance_tiers() {
    assert_eq!(BackendCapabilities::for_transport(TransportType::Quic).performance_tier(), "Professional");
    assert_eq!(BackendCapabilities::for_transport(TransportType::Tcp).performance_tier(), "Basic");
}

#[test]
fn platform_from_host_reads_kernel_release() {
    let p = linux_host(8);
    assert_eq!(p.os, "linux");
    assert_eq!(p.arch, "x86_64");
    assert_eq!(p.kernel_version, Some("6.5.0-14-generic".to_string()));
    assert_eq!(p.os_version, "unknown");
    assert_eq!(p.total_ram_bytes, 8_000_000_000);
    assert_eq!(Platform::kernel_release("only two"), None);
}

#[test]
fn io_uring_platform_support() {
    assert!(linux_host(8).supports_io_uring());
    let old = Platform::from_host("linux".to_string(), "x86_64".to_string(), 8, Some("Linux version 4.19.0 x"));
    assert!(!old.supports_io_uring());
    let five_zero = Platform::from_host("linux".to_string(), "x86_64".to_string(), 8, Some("Linux version 5.0.0 x"));
    assert!(!five_zero.supports_io_uring());
    let five_ten = Platform::from_host("linux".to_string(), "x86_64".to_string(), 8, Some("Linux version 5.10.0 x"));
    assert!(five_ten.supports_io_uring());
    let six = Platform::from_host("linux".to_string(), "x86_64".to_string(), 8, Some("Linux version 6.0.0 x"));
    assert!(six.supports_io_uring());
    let mac = Platform::from_host("macos".to_string(), "aarch64".to_string(), 8, None);
    assert!(!mac.supports_io_uring());
    assert!(!mac.supports_dpdk());
    assert!(linux_host(2).supports_dpdk());
}

#[test]
fn availability_needs_resources_and_platform() {
    let small = linux_host(2);
    assert!(!BackendCapabilities::for_transport(TransportType::IoUring).is_available(&small));
    assert!(BackendCapabilities::for_transport(TransportType::IoUring).is_available(&linux_host(4)));
    // 16 GB of RAM needed, the platform reports 8 GB
    assert!(!BackendCapabilities::for_transport(TransportType::Dpdk).is_available(&linux_host(16)));
    let mac = Platform::from_host("macos".to_string(), "aarch64".to_string(), 8, None);
    assert!(BackendCapabilities::for_transport(TransportType::Quic).is_available(&mac));
    assert!(!BackendCapabilities::for_transport(TransportType::IoUring).is_available(&mac));
}

#[test]
fn resources_check() {
    assert!(linux_host(4).has_sufficient_resources());
    assert!(!linux_host(3).has_sufficient_resources());
}
