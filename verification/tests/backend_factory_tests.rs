use qltp_transport::backend_factory::{buildable_transports, check_buildable};
use qltp_transport::error::Error;
use qltp_transport::transport_type::TransportType;

#[test]
fn tcp_is_always_buildable() {
    assert!(buildable_transports().contains(&TransportType::Tcp));
    assert!(check_buildable(TransportType::Tcp).is_ok());
}

#[test]
fn dpdk_is_never_buildable() {
    assert!(!buildable_transports().contains(&TransportType::Dpdk));
    assert!(check_buildable(TransportType::Dpdk).is_err());
}

#[test]
fn io_uring_outside_linux_is_an_error() {
    assert!(check_buildable(TransportType::IoUring).is_err());
}

#[test]
fn unbuildable_reasons() {
    assert_eq!(
        check_buildable(TransportType::Quic),
        Err(Error::Configuration("QUIC backend requested but the `quic` cargo feature is disabled".to_string()))
    );
    assert_eq!(buildable_transports(), vec![TransportType::Tcp]);
}
