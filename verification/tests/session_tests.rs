use qltp_transport::error::Error;
use qltp_transport::session::{SessionConfig, SessionId, TransportSession};
use qltp_transport::session_state::SessionState;
use qltp_transport::transport_stats::TransportStats;
use qltp_transport::transport_type::TransportType;

#[test]
fn test_session_id_creation() {
    let id1 = SessionId::new();
    let id2 = SessionId::new();
    assert_ne!(id1, id2);
}

#[test]
fn test_session_id_uniqueness() {
    let id1 = SessionId::new();
    let id2 = SessionId::new();
    assert_ne!(id1, id2);
}

#[test]
fn test_session_id_string_conversion() {
    let id = SessionId::new();
    let s = id.to_string();
    let parsed = SessionId::from_string(&s).unwrap();
    assert_eq!(id, parsed);
}

#[test]
fn session_id_text_layout() {
    let id = SessionId::from_uuid(0x550e8400_e29b_41d4_a716_446655440000);
    assert_eq!(id.to_string(), "550e8400-e29b-41d4-a716-446655440000");
    assert_eq!(*id.as_uuid(), 0x550e8400_e29b_41d4_a716_446655440000);
    assert_eq!(SessionId::from_uuid(0).to_string(), "00000000-0000-0000-0000-000000000000");
    assert!(matches!(SessionId::from_string("not-a-uuid"), Err(Error::Uuid(_))));
    assert_eq!(
        SessionId::from_string("550E8400E29B41D4A716446655440000").unwrap(),
        id
    );
}

#[test]
fn test_session_creation() {
    let config = SessionConfig::default();
    let session = TransportSession::new(config);
    assert_eq!(session.state(), SessionState::Initializing);
    assert!(!session.is_active());
    assert!(!session.is_completed());
}

#[test]
fn session_test_session_state_transitions() {
    let config = SessionConfig::default();
    let mut session = TransportSession::new(config);
    session.start().unwrap();
    assert!(session.is_active());
    session.pause().unwrap();
    assert_eq!(session.state(), SessionState::Paused);
    session.resume().unwrap();
    assert!(session.is_active());
    session.complete().unwrap();
    assert!(session.is_completed());
    assert!(session.is_terminal());
    assert!(session.completed_at().is_some());
}

#[test]
fn test_session_failure() {
    let config = SessionConfig::default();
    let mut session = TransportSession::new(config);
    session.start().unwrap();
    session.fail("Connection lost".to_string()).unwrap();
    assert!(session.has_failed());
    assert_eq!(session.error_message(), Some("Connection lost"));
}

#[test]
fn test_session_statistics() {
    let config = SessionConfig::default();
    let mut session = TransportSession::new(config);
    session.record_send(1000);
    session.record_receive(2000);
    assert_eq!(session.stats().bytes_sent, 1000);
    assert_eq!(session.stats().bytes_received, 2000);
    assert_eq!(session.stats().bytes_transferred, 3000);
}

#[test]
fn test_session_health_check() {
    let config = SessionConfig::default();
    let mut session = TransportSession::new(config);
    session.start().unwrap();
    session.record_send(1000);
    assert!(session.is_healthy());
    for _ in 0..100 {
        session.record_error();
    }
    assert!(!session.is_healthy());
}

#[test]
fn refused_transitions_change_nothing() {
    let mut session = TransportSession::new(SessionConfig::default());
    let err = session.complete().unwrap_err();
    assert_eq!(
        err,
        Error::InvalidStateTransition { from: SessionState::Initializing, to: SessionState::Completed }
    );
    assert_eq!(session.state(), SessionState::Initializing);
    assert!(session.completed_at().is_none());
    session.start().unwrap();
    session.complete().unwrap();
    assert!(session.start().is_err());
    // a failure message is kept even when the transition is refused
    assert!(session.fail("late".to_string()).is_err());
    assert_eq!(session.error_message(), Some("late"));
    assert_eq!(session.state(), SessionState::Completed);
}

#[test]
fn session_config_defaults() {
    let c = SessionConfig::default();
    assert_eq!(c.transport_type, TransportType::Tcp);
    assert_eq!(c.local_addr, "0.0.0.0:0");
    assert_eq!(c.remote_addr, "127.0.0.1:8080");
    assert_eq!(c.max_transfer_size, 10_000_000_000);
    assert_eq!(c.connection_timeout_secs, 30);
    assert!(c.enable_compression && c.enable_encryption);
    let s = TransportSession::new(c);
    assert_eq!(s.config().remote_addr, "127.0.0.1:8080");
    assert!(s.duration() >= 0);
    assert!(s.updated_at() >= s.created_at());
}

#[test]
fn metrics_update_caps_cpu() {
    let mut s = TransportSession::new(SessionConfig::default());
    s.update_metrics(12, 1_000_000, 25_000);
    let st: &TransportStats = s.stats();
    assert_eq!(st.rtt_ms, 12);
    assert_eq!(st.throughput_bps, 1_000_000);
    assert_eq!(st.cpu_usage_centipercent, 10_000);
    s.record_packet_loss();
    assert_eq!(s.stats().packets_lost, 1);
}

#[test]
fn stats_mut_updates_only_the_statistics() {
    let mut session = TransportSession::new(SessionConfig::default());
    let state = session.state();
    session.stats_mut().record_send(42);
    assert_eq!(session.stats().bytes_sent, 42);
    assert_eq!(session.stats().packets_sent, 1);
    assert_eq!(session.state(), state);
}

#[test]
fn completion_time_is_set_exactly_in_terminal_states() {
    let mut session = TransportSession::new(SessionConfig::default());
    assert!(session.completed_at().is_none());
    session.start().unwrap();
    session.pause().unwrap();
    assert!(session.completed_at().is_none());
    session.complete().unwrap();
    let done = session.completed_at();
    assert!(done.is_some());
    assert!(session.created_at() >= 0);
    // a refused failure keeps the state and the completion time
    assert!(session.fail("late".to_string()).is_err());
    assert_eq!(session.state(), SessionState::Completed);
    assert_eq!(session.completed_at(), done);
    assert_eq!(session.error_message(), Some("late"));
}
