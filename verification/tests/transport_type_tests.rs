use qltp_transport::transport_type::{SystemProbe, TransportType};

fn plain_linux_probe() -> SystemProbe {
    SystemProbe {
        is_linux: true,
        io_uring_sysctl_present: true,
        proc_version: Some("Linux version 6.5.0-14-generic (buildd@lcy02) #14 SMP".to_string()),
        rte_sdk_set: false,
        uio_device_present: false,
    }
}

fn bare_probe() -> SystemProbe {
    SystemProbe {
        is_linux: false,
        io_uring_sysctl_present: false,
        proc_version: None,
        rte_sdk_set: false,
        uio_device_present: false,
    }
}

#[test]
fn test_transport_type_throughput() {
    assert_eq!(TransportType::IoUring.max_throughput(), 8_000_000_000);
    assert_eq!(TransportType::Dpdk.max_throughput(), 10_000_000_000);
    assert_eq!(TransportType::Quic.max_throughput(), 1_000_000_000);
    assert_eq!(TransportType::Tcp.max_throughput(), 120_000_000);
}

#[test]
fn test_transport_type_priority() {
    assert!(TransportType::Dpdk.priority() > TransportType::IoUring.priority());
    assert!(TransportType::IoUring.priority() > TransportType::Quic.priority());
    assert!(TransportType::Quic.priority() > TransportType::Tcp.priority());
}

#[test]
fn test_transport_type_availability() {
    // TCP and QUIC should always be available
    for probe in [plain_linux_probe(), bare_probe()] {
        assert!(TransportType::Tcp.is_available(&probe));
        assert!(TransportType::Quic.is_available(&probe));
    }
}

#[test]
fn test_special_hardware_requirement() {
    assert!(TransportType::Dpdk.requires_special_hardware());
    assert!(!TransportType::IoUring.requires_special_hardware());
    assert!(!TransportType::Quic.requires_special_hardware());
    assert!(!TransportType::Tcp.requires_special_hardware());
}

#[test]
fn test_zero_copy_support() {
    assert!(TransportType::IoUring.supports_zero_copy());
    assert!(TransportType::Dpdk.supports_zero_copy());
    assert!(!TransportType::Quic.supports_zero_copy());
    assert!(!TransportType::Tcp.supports_zero_copy());
}

#[test]
fn test_transport_type_display() {
    assert_eq!(TransportType::Tcp.to_string(), "TCP");
    assert_eq!(TransportType::Quic.to_string(), "QUIC");
    assert_eq!(TransportType::IoUring.to_string(), "io_uring");
    assert_eq!(TransportType::Dpdk.to_string(), "DPDK");
}

#[test]
fn parallel_streams_only_on_quic() {
    assert!(TransportType::Quic.supports_parallel_streams());
    assert!(!TransportType::Tcp.supports_parallel_streams());
    assert!(!TransportType::IoUring.supports_parallel_streams());
    assert!(!TransportType::Dpdk.supports_parallel_streams());
}

#[test]
fn kernel_version_is_read_from_the_third_word() {
    assert_eq!(
        TransportType::get_kernel_version("Linux version 6.5.0-14-generic (x) #1"),
        None
    );
    assert_eq!(TransportType::get_kernel_version("Linux version 5.15.2 (x)"), Some((5, 15, 2)));
    assert_eq!(TransportType::get_kernel_version("Linux version"), None);
    assert_eq!(TransportType::get_kernel_version("Linux version 5.15"), None);
}

#[test]
fn io_uring_needs_kernel_five_one() {
    let mut probe = plain_linux_probe();
    probe.proc_version = Some("Linux version 5.15.2 (gcc)".to_string());
    assert!(TransportType::check_io_uring_available(&probe));
    probe.proc_version = Some("Linux version 5.0.1 (gcc)".to_string());
    assert!(!TransportType::check_io_uring_available(&probe));
    probe.proc_version = Some("Linux version 4.19.3 (gcc)".to_string());
    assert!(!TransportType::check_io_uring_available(&probe));
    probe.proc_version = Some("Linux version 6.0.0 (gcc)".to_string());
    assert!(TransportType::check_io_uring_available(&probe));
    probe.proc_version = Some("Linux version 5.1.0 (gcc)".to_string());
    assert!(TransportType::check_io_uring_available(&probe));
    probe.io_uring_sysctl_present = false;
    probe.proc_version = Some("Linux version 5.15.2 (gcc)".to_string());
    assert!(!TransportType::check_io_uring_available(&probe));
}

#[test]
fn dpdk_needs_sdk_and_uio() {
    let mut probe = bare_probe();
    assert!(!TransportType::check_dpdk_available(&probe));
    probe.rte_sdk_set = true;
    assert!(!TransportType::check_dpdk_available(&probe));
    probe.uio_device_present = true;
    assert!(TransportType::check_dpdk_available(&probe));
}

#[test]
fn available_backends_keep_declaration_order() {
    assert_eq!(
        TransportType::available_backends(&bare_probe()),
        vec![TransportType::Quic, TransportType::Tcp]
    );
    let mut probe = plain_linux_probe();
    probe.proc_version = Some("Linux version 6.1.2 (gcc)".to_string());
    probe.rte_sdk_set = true;
    probe.uio_device_present = true;
    assert_eq!(
        TransportType::available_backends(&probe),
        vec![TransportType::IoUring, TransportType::Dpdk, TransportType::Quic, TransportType::Tcp]
    );
}
