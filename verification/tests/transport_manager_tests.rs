use qltp_transport::backend_capabilities::Platform;
use qltp_transport::error::Error;
use qltp_transport::session::{SessionConfig, SessionId};
use qltp_transport::session_state::SessionState;
use qltp_transport::transport_manager::{ManagerState, TransportManagerConfig};
use qltp_transport::transport_type::TransportType;

fn host() -> Platform {
    Platform::from_host("linux".to_string(), "x86_64".to_string(), 8, Some("Linux version 6.5.0 x"))
}

#[test]
fn test_manager_creation() {
    let config = TransportManagerConfig::default();
    let manager = ManagerState::new(config, host());
    assert!(!manager.platform().os.is_empty());
}

#[test]
fn test_manager_without_backend() {
    let manager = ManagerState::new(TransportManagerConfig::default(), host());
    let result = manager.admit_session();
    assert_eq!(result, Err(Error::Configuration("Backend not initialized".to_string())));
}

#[test]
fn test_session_count() {
    let manager = ManagerState::new(TransportManagerConfig::default(), host());
    assert_eq!(manager.active_session_count(), 0);
}

#[test]
fn test_manager_config_defaults() {
    let c = TransportManagerConfig::default();
    assert!(c.preferred_transport.is_none());
    assert!(c.auto_select_backend);
    assert_eq!(c.max_concurrent_sessions, 100);
    assert!(c.enable_monitoring);
}

#[test]
fn session_lifecycle_through_the_manager() {
    let mut m = ManagerState::new(TransportManagerConfig::default(), host());
    m.set_backend(Some(TransportType::Tcp), true);
    m.monitor_mut().register_backend(TransportType::Tcp);
    assert!(m.admit_session().is_ok());
    let id = SessionId::from_uuid(7);
    m.add_session(id, SessionConfig::default());
    assert_eq!(m.get_session_state(id).unwrap(), SessionState::Initializing);
    m.start_session(id).unwrap();
    m.record_send(id, 100, 1_000_000);
    m.record_receive(id, 50, 1_000_000);
    m.record_failure();
    let stats = m.get_session_stats(id).unwrap();
    assert_eq!((stats.bytes_sent, stats.bytes_received, stats.bytes_transferred), (100, 50, 150));
    let metrics = m.monitor().get_metrics(TransportType::Tcp).unwrap();
    assert_eq!(metrics.successful_operations, 2);
    assert_eq!(metrics.failed_operations, 1);
    m.pause_session(id).unwrap();
    assert_eq!(m.get_session(id).unwrap().state(), SessionState::Paused);
    m.resume_session(id).unwrap();
    assert_eq!(m.list_sessions(), vec![id]);
    m.stop_session(id).unwrap();
    assert_eq!(m.active_session_count(), 0);
    assert_eq!(m.get_session_state(id), Err(Error::Domain("Session not found".to_string())));
}

#[test]
fn session_limit_and_aggregates() {
    let config = TransportManagerConfig { max_concurrent_sessions: 2, ..Default::default() };
    let mut m = ManagerState::new(config, host());
    m.set_backend(None, true);
    let a = SessionId::from_uuid(1);
    let b = SessionId::from_uuid(2);
    m.add_session(a, SessionConfig::default());
    m.add_session(b, SessionConfig::default());
    assert_eq!(
        m.admit_session(),
        Err(Error::Configuration("Maximum concurrent sessions reached".to_string()))
    );
    m.record_send(a, 10, 0);
    m.record_send(b, 20, 0);
    let total = m.get_transport_stats();
    assert_eq!(total.bytes_sent, 30);
    assert_eq!(total.packets_sent, 2);
    assert_eq!(total.bytes_transferred, 30);
    // starting an unknown session is refused
    assert_eq!(m.start_session(SessionId::from_uuid(9)), Err(Error::Domain("Session not found".to_string())));
    // stopping an unstarted session removes it and reports the refused completion
    assert!(m.stop_session(a).is_err());
    assert_eq!(m.active_session_count(), 1);
    m.clear_sessions();
    assert_eq!(m.active_session_count(), 0);
    assert!(m.current_backend_type().is_none());
}

#[test]
fn record_failure_counts_for_the_monitored_backend() {
    let mut m = ManagerState::new(TransportManagerConfig::default(), host());
    m.record_failure();
    assert!(m.monitor().get_metrics(TransportType::Tcp).is_none());
    m.monitor_mut().register_backend(TransportType::Tcp);
    m.set_backend(Some(TransportType::Tcp), true);
    m.record_failure();
    m.record_failure();
    let metrics = m.monitor().get_metrics(TransportType::Tcp).unwrap();
    assert_eq!(metrics.failed_operations, 2);
    assert_eq!(metrics.successful_operations, 0);
}

#[test]
fn record_send_and_receive_count_for_session_and_backend() {
    let mut m = ManagerState::new(TransportManagerConfig::default(), host());
    m.monitor_mut().register_backend(TransportType::Tcp);
    m.set_backend(Some(TransportType::Tcp), true);
    let a = SessionId::from_uuid(1);
    let b = SessionId::from_uuid(2);
    m.add_session(a, SessionConfig::default());
    m.add_session(b, SessionConfig::default());
    m.record_send(a, 100, 2_000_000);
    m.record_receive(a, 40, 1_000_000);
    let metrics = m.monitor().get_metrics(TransportType::Tcp).unwrap();
    assert_eq!((metrics.bytes_sent, metrics.bytes_received, metrics.successful_operations), (100, 40, 2));
    let sa = m.get_session_stats(a).unwrap();
    assert_eq!((sa.bytes_sent, sa.bytes_received, sa.bytes_transferred), (100, 40, 140));
    let sb = m.get_session_stats(b).unwrap();
    assert_eq!((sb.bytes_sent, sb.bytes_received, sb.packets_sent), (0, 0, 0));
}
