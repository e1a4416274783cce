use qltp_transport::error::Error;
use qltp_transport::session::SessionId;
use qltp_transport::session_state::SessionState;
use qltp_transport::transport_type::TransportType;

#[test]
fn test_error_display() {
    let err = Error::Protocol("test error".to_string());
    assert_eq!(err.to_string(), "Protocol error: test error");
}

#[test]
fn test_version_mismatch_error() {
    let err = Error::UnsupportedVersion { expected: 1, actual: 2 };
    assert_eq!(err.to_string(), "Unsupported version: expected 1, got 2");
}

#[test]
fn test_state_transition_error() {
    let err = Error::InvalidStateTransition { from: SessionState::Initializing, to: SessionState::Completed };
    assert!(err.to_string().contains("Invalid state transition"));
}

#[test]
fn error_texts_of_other_variants() {
    assert_eq!(
        Error::InvalidStateTransition { from: SessionState::Initializing, to: SessionState::Completed }.to_string(),
        "Invalid state transition from Initializing to Completed"
    );
    assert_eq!(Error::BackendNotAvailable(TransportType::IoUring).to_string(), "Backend not available: IoUring");
    assert_eq!(Error::SessionNotActive.to_string(), "Session not active");
    assert_eq!(Error::ChecksumMismatch.to_string(), "Checksum mismatch");
    assert_eq!(Error::Configuration("x".to_string()).to_string(), "Configuration error: x");
    assert_eq!(
        Error::UnsupportedVersion { expected: 255, actual: 0 }.to_string(),
        "Unsupported version: expected 255, got 0"
    );
    let id = SessionId::from_uuid(0x0123_4567_89ab_cdef_0123_4567_89ab_cdef);
    assert_eq!(
        Error::SessionNotFound(id).to_string(),
        "Session not found: 01234567-89ab-cdef-0123-456789abcdef"
    );
}
