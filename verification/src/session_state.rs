//! Lifecycle state of a transport session.

use vstd::prelude::*;

verus! {

/// Session lifecycle states.
#[derive(Debug, Clone, Copy, PartialEq, Eq, Hash, Structural)]
pub enum SessionState {
    /// Session is being initialized
    Initializing,
    /// Session is active and ready for transfers
    Active,
    /// Session is temporarily paused
    Paused,
    /// Session completed successfully
    Completed,
    /// Session failed with an error
    Failed,
}

/// The transition relation of the session lifecycle.
///
/// Terminal states admit no transition at all; every other state may stay
/// where it is, and the remaining edges are
/// Initializing -> {Active, Failed}, Active -> {Paused, Completed, Failed},
/// Paused -> {Active, Completed, Failed}.
pub open spec fn spec_can_transition(from: SessionState, to: SessionState) -> bool {
    match from {
        SessionState::Initializing => to == SessionState::Initializing || to == SessionState::Active
            || to == SessionState::Failed,
        SessionState::Active => to != SessionState::Initializing,
        SessionState::Paused => to != SessionState::Initializing,
        SessionState::Completed => false,
        SessionState::Failed => false,
    }
}

/// Whether a state ends the lifecycle.
pub open spec fn spec_is_terminal(s: SessionState) -> bool {
    s == SessionState::Completed || s == SessionState::Failed
}

impl SessionState {
    /// Check if transition to another state is valid.
    pub fn can_transition_to(&self, target: SessionState) -> (r: bool)
        ensures
            r == spec_can_transition(*self, target),
    {
        match (self, target) {
            (SessionState::Initializing, SessionState::Active) => true,
            (SessionState::Initializing, SessionState::Failed) => true,
            (SessionState::Active, SessionState::Paused) => true,
            (SessionState::Active, SessionState::Completed) => true,
            (SessionState::Active, SessionState::Failed) => true,
            (SessionState::Paused, SessionState::Active) => true,
            (SessionState::Paused, SessionState::Failed) => true,
            (SessionState::Paused, SessionState::Completed) => true,
            (SessionState::Completed, _) => false,
            (SessionState::Failed, _) => false,
            (a, b) => *a == b,
        }
    }

    /// Check if this is a terminal state.
    pub fn is_terminal(&self) -> (r: bool)
        ensures
            r == spec_is_terminal(*self),
    {
        matches!(self, SessionState::Completed | SessionState::Failed)
    }

    /// Check if session can send/receive data.
    pub fn can_transfer(&self) -> (r: bool)
        ensures
            r == (*self == SessionState::Active),
    {
        matches!(self, SessionState::Active)
    }

    /// The state's display name.
    pub fn to_string(&self) -> (s: String)
        ensures
            s@ == spec_state_name(*self),
    {
        match self {
            SessionState::Initializing => "Initializing".to_string(),
            SessionState::Active => "Active".to_string(),
            SessionState::Paused => "Paused".to_string(),
            SessionState::Completed => "Completed".to_string(),
            SessionState::Failed => "Failed".to_string(),
        }
    }
}

/// The display name of a state.
pub open spec fn spec_state_name(s: SessionState) -> Seq<char> {
    match s {
        SessionState::Initializing => "Initializing"@,
        SessionState::Active => "Active"@,
        SessionState::Paused => "Paused"@,
        SessionState::Completed => "Completed"@,
        SessionState::Failed => "Failed"@,
    }
}

/// Terminal states are absorbing: no transition leaves them, not even to
/// themselves.
pub proof fn lemma_terminal_states_are_final(s: SessionState, t: SessionState)
    requires
        spec_is_terminal(s),
    ensures
        !spec_can_transition(s, t),
{
}

/// A live (non-terminal) state may always stay where it is, and may always
/// fail.
pub proof fn lemma_live_states_may_stay_or_fail(s: SessionState)
    requires
        !spec_is_terminal(s),
    ensures
        spec_can_transition(s, s),
        spec_can_transition(s, SessionState::Failed),
{
}

/// No transition ever leads back into `Initializing` from another state.
pub proof fn lemma_initializing_is_never_reentered(s: SessionState)
    requires
        s != SessionState::Initializing,
    ensures
        !spec_can_transition(s, SessionState::Initializing),
{
}

/// Only a started session can pause or complete: from `Initializing` the
/// lifecycle goes only to `Active` or `Failed` (or stays put); pausing needs
/// an active session, and completing an active or paused one.
pub proof fn lemma_pause_and_complete_need_a_started_session(s: SessionState)
    ensures
        spec_can_transition(s, SessionState::Paused) <==> (s == SessionState::Active || s == SessionState::Paused),
        spec_can_transition(s, SessionState::Completed) <==> (s == SessionState::Active || s == SessionState::Paused),
        spec_can_transition(SessionState::Initializing, s) <==> (s == SessionState::Initializing || s
            == SessionState::Active || s == SessionState::Failed),
{
}

/// Becoming active needs a live, non-terminal state; failing is possible
/// from every live state and from no terminal one.
pub proof fn lemma_activation_and_failure_sources(s: SessionState)
    ensures
        spec_can_transition(s, SessionState::Active) <==> !spec_is_terminal(s),
        spec_can_transition(s, SessionState::Failed) <==> !spec_is_terminal(s),
        spec_can_transition(SessionState::Active, s) <==> s != SessionState::Initializing,
        spec_can_transition(SessionState::Paused, s) <==> s != SessionState::Initializing,
{
}

} // verus!
