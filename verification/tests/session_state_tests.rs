use qltp_transport::session_state::SessionState;

#[test]
fn test_valid_state_transitions() {
    assert!(SessionState::Initializing.can_transition_to(SessionState::Active));
    assert!(SessionState::Active.can_transition_to(SessionState::Paused));
    assert!(SessionState::Paused.can_transition_to(SessionState::Active));
    assert!(SessionState::Active.can_transition_to(SessionState::Completed));
}

#[test]
fn test_invalid_state_transitions() {
    assert!(!SessionState::Completed.can_transition_to(SessionState::Active));
    assert!(!SessionState::Failed.can_transition_to(SessionState::Active));
    assert!(!SessionState::Initializing.can_transition_to(SessionState::Completed));
}

#[test]
fn test_terminal_states() {
    assert!(SessionState::Completed.is_terminal());
    assert!(SessionState::Failed.is_terminal());
    assert!(!SessionState::Active.is_terminal());
    assert!(!SessionState::Initializing.is_terminal());
}

#[test]
fn test_can_transfer() {
    assert!(SessionState::Active.can_transfer());
    assert!(!SessionState::Initializing.can_transfer());
    assert!(!SessionState::Paused.can_transfer());
    assert!(!SessionState::Completed.can_transfer());
}

#[test]
fn lib_test_session_state_transitions() {
    let state = SessionState::Initializing;
    assert!(state.can_transition_to(SessionState::Active));
    assert!(!state.can_transition_to(SessionState::Completed));
}

#[test]
fn terminal_states_admit_no_transition() {
    let all = [
        SessionState::Initializing,
        SessionState::Active,
        SessionState::Paused,
        SessionState::Completed,
        SessionState::Failed,
    ];
    for target in all {
        assert!(!SessionState::Completed.can_transition_to(target));
        assert!(!SessionState::Failed.can_transition_to(target));
    }
}

#[test]
fn live_states_may_stay_or_fail() {
    for s in [SessionState::Initializing, SessionState::Active, SessionState::Paused] {
        assert!(s.can_transition_to(s));
        assert!(s.can_transition_to(SessionState::Failed));
        assert!(!s.can_transition_to(SessionState::Initializing) || s == SessionState::Initializing);
    }
}

#[test]
fn session_state_names() {
    assert_eq!(SessionState::Active.to_string(), "Active");
    assert_eq!(SessionState::Failed.to_string(), "Failed");
}
