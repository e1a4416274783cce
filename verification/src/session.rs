//! Transport sessions: an identifier, a configuration, a lifecycle state
//! that only moves along the allowed transitions, and the session's
//! statistics.
//!
//! Times are milliseconds since the Unix epoch, read from the system clock.

use vstd::prelude::*;
use vstd::string::StringExecFns;
use crate::clock::unix_now_millis;
use crate::error::Error;
use crate::session_state::{SessionState, spec_can_transition, spec_is_terminal};
use crate::transport_stats::{TransportStats, spec_stats_healthy, zero_stats};
use crate::transport_type::TransportType;

verus! {

/// Lowercase hexadecimal digit of `n` (0 to 15).
pub open spec fn hex_char(n: int) -> char {
    if n < 10 {
        (48 + n) as char
    } else {
        (87 + n) as char
    }
}

/// The `k`-th hexadecimal digit of `id`, from the most significant.
pub open spec fn hex_digit_of(id: u128, k: int) -> int {
    ((id >> ((124 - 4 * k) as u128)) & 15u128) as int
}

/// The hyphenated text of an identifier: its 32 hexadecimal digits, most
/// significant first, in groups of 8, 4, 4, 4 and 12 joined by `'-'`.
pub open spec fn uuid_text(id: u128) -> Seq<char> {
    Seq::new(
        36,
        |i: int|
            if i == 8 || i == 13 || i == 18 || i == 23 {
                '-'
            } else {
                hex_char(
                    hex_digit_of(
                        id,
                        i - (if i > 23 {
                            4int
                        } else if i > 18 {
                            3int
                        } else if i > 13 {
                            2int
                        } else if i > 8 {
                            1int
                        } else {
                            0int
                        }),
                    ),
                )
            },
    )
}

/// The identifier `uuid::Uuid::parse_str` reads from a text, if any.
pub uninterp spec fn uuid_parse(s: Seq<char>) -> Option<u128>;

/// A fresh random identifier.
///
/// Trusted: calls `uuid::Uuid::new_v4`; the value is random, so nothing is
/// stated of it.
#[verifier::external_body]
pub(crate) fn random_uuid() -> (id: u128) {
    uuid::Uuid::new_v4().as_u128()
}

/// The hyphenated text of an identifier.
///
/// Trusted: calls `Uuid::from_u128` and `to_string`, which the `uuid`
/// crate formats as 32 lowercase hexadecimal digits of the big-endian
/// value in groups of 8-4-4-4-12 (`format_hyphenated`).
#[verifier::external_body]
fn uuid_to_string(id: u128) -> (s: String)
    ensures
        s@ == uuid_text(id),
{
    uuid::Uuid::from_u128(id).to_string()
}

/// Reads an identifier from a text.
///
/// Trusted: calls `uuid::Uuid::parse_str`; what it accepts is named
/// `uuid_parse`. Its documentation promises that every format the crate
/// generates parses back, so the hyphenated text of an identifier gives
/// that identifier. The error message is left unstated.
#[verifier::external_body]
fn uuid_from_str(s: &str) -> (r: Result<u128, String>)
    ensures
        r matches Ok(v) ==> uuid_parse(s@) == Some(v) && (forall|id: u128| s@ == uuid_text(id) ==> v == id),
        r is Err ==> uuid_parse(s@) is None && (forall|id: u128| s@ != uuid_text(id)),
{
    match uuid::Uuid::parse_str(s) {
        Ok(u) => Ok(u.as_u128()),
        Err(e) => Err(e.to_string()),
    }
}

/// Session identifier.
#[derive(Debug, Clone, Copy, PartialEq, Eq, Hash, Structural)]
pub struct SessionId(pub u128);

impl SessionId {
    /// Create a new random session ID.
    pub fn new() -> (id: Self) {
        SessionId(random_uuid())
    }

    /// Create from an existing identifier value.
    pub fn from_uuid(uuid: u128) -> (id: Self)
        ensures
            id.0 == uuid,
    {
        SessionId(uuid)
    }

    /// Get the inner identifier value.
    pub fn as_uuid(&self) -> (r: &u128)
        ensures
            *r == self.0,
    {
        &self.0
    }

    /// The identifier's hyphenated text.
    pub fn to_string(&self) -> (s: String)
        ensures
            s@ == uuid_text(self.0),
    {
        uuid_to_string(self.0)
    }

    /// Parse from a text; fails with the parser's message.
    pub fn from_string(s: &str) -> (r: Result<Self, Error>)
        ensures
            match r {
                Ok(id) => uuid_parse(s@) == Some(id.0),
                Err(e) => uuid_parse(s@) is None && e is Uuid,
            },
            forall|id: u128| s@ == uuid_text(id) ==> r == Ok::<SessionId, Error>(SessionId(id)),
    {
        match uuid_from_str(s) {
            Ok(v) => Ok(SessionId(v)),
            Err(msg) => Err(Error::Uuid(msg)),
        }
    }
}

impl Default for SessionId {
    /// A new random session ID.
    fn default() -> (id: Self) {
        Self::new()
    }
}

/// Transport session configuration.
#[derive(Debug, Clone)]
pub struct SessionConfig {
    /// Transport type to use
    pub transport_type: TransportType,
    /// Local address to bind to (`ip:port`)
    pub local_addr: String,
    /// Remote address to connect to (`ip:port`)
    pub remote_addr: String,
    /// Maximum transfer size in bytes
    pub max_transfer_size: u64,
    /// Connection timeout in seconds
    pub connection_timeout_secs: u64,
    /// Enable compression
    pub enable_compression: bool,
    /// Enable encryption
    pub enable_encryption: bool,
}

impl SessionConfig {
    /// An equal copy of this configuration.
    pub fn duplicate(&self) -> (c: Self)
        ensures
            c == *self,
    {
        SessionConfig {
            transport_type: self.transport_type,
            local_addr: self.local_addr.clone(),
            remote_addr: self.remote_addr.clone(),
            max_transfer_size: self.max_transfer_size,
            connection_timeout_secs: self.connection_timeout_secs,
            enable_compression: self.enable_compression,
            enable_encryption: self.enable_encryption,
        }
    }
}

impl Default for SessionConfig {
    /// TCP from any local port to 127.0.0.1:8080, 10 GB limit, 30 s
    /// timeout, compression and encryption on.
    fn default() -> (c: Self)
        ensures
            c.transport_type == TransportType::Tcp,
            c.local_addr@ == "0.0.0.0:0"@,
            c.remote_addr@ == "127.0.0.1:8080"@,
            c.max_transfer_size == 10_000_000_000,
            c.connection_timeout_secs == 30,
            c.enable_compression,
            c.enable_encryption,
    {
        SessionConfig {
            transport_type: TransportType::Tcp,
            local_addr: String::from_str("0.0.0.0:0"),
            remote_addr: String::from_str("127.0.0.1:8080"),
            max_transfer_size: 10_000_000_000,
            connection_timeout_secs: 30,
            enable_compression: true,
            enable_encryption: true,
        }
    }
}

/// `x` bounded to the range of `i64`.
pub open spec fn clamp_i64(x: int) -> i64 {
    if x > i64::MAX {
        i64::MAX
    } else if x < i64::MIN {
        i64::MIN
    } else {
        x as i64
    }
}

/// Transport session.
#[derive(Debug, Clone)]
pub struct TransportSession {
    id: SessionId,
    config: SessionConfig,
    state: SessionState,
    stats: TransportStats,
    created_at: i64,
    updated_at: i64,
    completed_at: Option<i64>,
    error_message: Option<String>,
}

impl TransportSession {
    /// Session identifier.
    pub closed spec fn spec_id(&self) -> SessionId {
        self.id
    }

    /// Session configuration.
    pub closed spec fn spec_config(&self) -> SessionConfig {
        self.config
    }

    /// Current state.
    pub closed spec fn spec_state(&self) -> SessionState {
        self.state
    }

    /// Session statistics.
    pub closed spec fn spec_stats(&self) -> TransportStats {
        self.stats
    }

    /// Creation time.
    pub closed spec fn spec_created_at(&self) -> i64 {
        self.created_at
    }

    /// Time of the last change.
    pub closed spec fn spec_updated_at(&self) -> i64 {
        self.updated_at
    }

    /// Completion time, once terminal.
    pub closed spec fn spec_completed_at(&self) -> Option<i64> {
        self.completed_at
    }

    /// Error message, once one was given.
    pub closed spec fn spec_error(&self) -> Option<String> {
        self.error_message
    }

    /// A completion time is recorded exactly when the session is in a
    /// terminal state.
    pub open spec fn completion_matches_state(&self) -> bool {
        self.spec_completed_at() is Some <==> spec_is_terminal(self.spec_state())
    }

    /// Create a new session: a fresh random id, initializing, empty
    /// statistics, created and updated now.
    pub fn new(config: SessionConfig) -> (s: Self)
        ensures
            s.spec_config() == config,
            s.spec_state() == SessionState::Initializing,
            s.spec_stats() == zero_stats(),
            s.spec_completed_at() is None,
            s.spec_error() is None,
            s.spec_updated_at() == s.spec_created_at(),
            s.completion_matches_state(),
    {
        let now = unix_now_millis();
        TransportSession {
            id: SessionId::new(),
            config,
            state: SessionState::Initializing,
            stats: TransportStats::new(),
            created_at: now,
            updated_at: now,
            completed_at: None,
            error_message: None,
        }
    }

    /// An equal copy of this session.
    pub fn duplicate(&self) -> (c: Self)
        ensures
            c == *self,
    {
        TransportSession {
            id: self.id,
            config: self.config.duplicate(),
            state: self.state,
            stats: self.stats,
            created_at: self.created_at,
            updated_at: self.updated_at,
            completed_at: self.completed_at,
            error_message: match &self.error_message {
                Some(e) => Some(e.clone()),
                None => None,
            },
        }
    }

    /// Get session ID.
    pub fn id(&self) -> (r: SessionId)
        ensures
            r == self.spec_id(),
    {
        self.id
    }

    /// Get session configuration.
    pub fn config(&self) -> (r: &SessionConfig)
        ensures
            *r == self.spec_config(),
    {
        &self.config
    }

    /// Get current state.
    pub fn state(&self) -> (r: SessionState)
        ensures
            r == self.spec_state(),
    {
        self.state
    }

    /// Get session statistics.
    pub fn stats(&self) -> (r: &TransportStats)
        ensures
            *r == self.spec_stats(),
    {
        &self.stats
    }

    /// Get mutable session statistics; nothing else of the session changes
    /// through them.
    pub fn stats_mut(&mut self) -> (r: &mut TransportStats)
        ensures
            *r == old(self).spec_stats(),
            final(self).spec_stats() == *final(r),
            final(self).spec_id() == old(self).spec_id(),
            final(self).spec_config() == old(self).spec_config(),
            final(self).spec_state() == old(self).spec_state(),
            final(self).spec_created_at() == old(self).spec_created_at(),
            final(self).spec_updated_at() == old(self).spec_updated_at(),
            final(self).spec_completed_at() == old(self).spec_completed_at(),
            final(self).spec_error() == old(self).spec_error(),
    {
        &mut self.stats
    }

    /// Get creation time.
    pub fn created_at(&self) -> (t: i64)
        ensures
            t == self.spec_created_at(),
    {
        self.created_at
    }

    /// Get last update time.
    pub fn updated_at(&self) -> (t: i64)
        ensures
            t == self.spec_updated_at(),
    {
        self.updated_at
    }

    /// Get completion time.
    pub fn completed_at(&self) -> (t: Option<i64>)
        ensures
            t == self.spec_completed_at(),
    {
        self.completed_at
    }

    /// Get error message.
    pub fn error_message(&self) -> (m: Option<&str>)
        ensures
            match self.spec_error() {
                Some(e) => m matches Some(t) && t@ == e@,
                None => m is None,
            },
    {
        match &self.error_message {
            Some(e) => Some(e.as_str()),
            None => None,
        }
    }

    /// Session duration in milliseconds: up to completion, or up to now
    /// while the session runs (kept within the range of `i64`).
    pub fn duration(&self) -> (d: i64)
        ensures
            self.spec_completed_at() matches Some(end) ==> d == clamp_i64(end - self.spec_created_at()),
    {
        let end = match self.completed_at {
            Some(end) => end,
            None => unix_now_millis(),
        };
        let d = (end as i128) - (self.created_at as i128);
        if d > 0x7fff_ffff_ffff_ffff {
            0x7fff_ffff_ffff_ffff
        } else if d < -0x8000_0000_0000_0000 {
            -0x8000_0000_0000_0000
        } else {
            d as i64
        }
    }

    /// Move to a new state when the lifecycle allows it; entering a
    /// terminal state records the completion time. A refused transition
    /// changes nothing.
    pub fn transition_to(&mut self, new_state: SessionState) -> (r: Result<(), Error>)
        ensures
            final(self).spec_id() == old(self).spec_id(),
            final(self).spec_config() == old(self).spec_config(),
            final(self).spec_stats() == old(self).spec_stats(),
            final(self).spec_created_at() == old(self).spec_created_at(),
            final(self).spec_error() == old(self).spec_error(),
            old(self).completion_matches_state() ==> final(self).completion_matches_state(),
            spec_can_transition(old(self).spec_state(), new_state) ==> {
                &&& r is Ok
                &&& final(self).spec_state() == new_state
                &&& spec_is_terminal(new_state) ==> final(self).spec_completed_at() is Some
                &&& !spec_is_terminal(new_state) ==> final(self).spec_completed_at() == old(self).spec_completed_at()
            },
            !spec_can_transition(old(self).spec_state(), new_state) ==> {
                &&& r == Err::<(), Error>(Error::InvalidStateTransition { from: old(self).spec_state(), to: new_state })
                &&& final(self).spec_state() == old(self).spec_state()
                &&& final(self).spec_completed_at() == old(self).spec_completed_at()
                &&& final(self).spec_updated_at() == old(self).spec_updated_at()
            },
    {
        if !self.state.can_transition_to(new_state) {
            return Err(Error::InvalidStateTransition { from: self.state, to: new_state });
        }
        self.state = new_state;
        self.updated_at = unix_now_millis();
        if new_state.is_terminal() {
            self.completed_at = Some(unix_now_millis());
        }
        Ok(())
    }

    /// Start the session (transition to Active).
    pub fn start(&mut self) -> (r: Result<(), Error>)
        ensures
            r is Ok <==> spec_can_transition(old(self).spec_state(), SessionState::Active),
            final(self).spec_state() == if r is Ok { SessionState::Active } else { old(self).spec_state() },
            final(self).spec_stats() == old(self).spec_stats(),
            old(self).completion_matches_state() ==> final(self).completion_matches_state(),
    {
        self.transition_to(SessionState::Active)
    }

    /// Pause the session.
    pub fn pause(&mut self) -> (r: Result<(), Error>)
        ensures
            r is Ok <==> spec_can_transition(old(self).spec_state(), SessionState::Paused),
            final(self).spec_state() == if r is Ok { SessionState::Paused } else { old(self).spec_state() },
            final(self).spec_stats() == old(self).spec_stats(),
            old(self).completion_matches_state() ==> final(self).completion_matches_state(),
    {
        self.transition_to(SessionState::Paused)
    }

    /// Resume the session.
    pub fn resume(&mut self) -> (r: Result<(), Error>)
        ensures
            r is Ok <==> spec_can_transition(old(self).spec_state(), SessionState::Active),
            final(self).spec_state() == if r is Ok { SessionState::Active } else { old(self).spec_state() },
            final(self).spec_stats() == old(self).spec_stats(),
            old(self).completion_matches_state() ==> final(self).completion_matches_state(),
    {
        self.transition_to(SessionState::Active)
    }

    /// Complete the session successfully.
    pub fn complete(&mut self) -> (r: Result<(), Error>)
        ensures
            r is Ok <==> spec_can_transition(old(self).spec_state(), SessionState::Completed),
            final(self).spec_state() == if r is Ok { SessionState::Completed } else { old(self).spec_state() },
            r is Ok ==> final(self).spec_completed_at() is Some,
            final(self).spec_stats() == old(self).spec_stats(),
            old(self).completion_matches_state() ==> final(self).completion_matches_state(),
    {
        self.transition_to(SessionState::Completed)
    }

    /// Fail the session with an error message; the message is kept even
    /// when the transition is refused.
    pub fn fail(&mut self, error: String) -> (r: Result<(), Error>)
        ensures
            r is Ok <==> spec_can_transition(old(self).spec_state(), SessionState::Failed),
            final(self).spec_state() == if r is Ok { SessionState::Failed } else { old(self).spec_state() },
            final(self).spec_error() == Some(error),
            r is Ok ==> final(self).spec_completed_at() is Some,
            r is Err ==> final(self).spec_completed_at() == old(self).spec_completed_at(),
            final(self).spec_stats() == old(self).spec_stats(),
            old(self).completion_matches_state() ==> final(self).completion_matches_state(),
    {
        self.error_message = Some(error);
        self.transition_to(SessionState::Failed)
    }

    /// Check if session is active.
    pub fn is_active(&self) -> (b: bool)
        ensures
            b == (self.spec_state() == SessionState::Active),
    {
        self.state == SessionState::Active
    }

    /// Check if session is completed.
    pub fn is_completed(&self) -> (b: bool)
        ensures
            b == (self.spec_state() == SessionState::Completed),
    {
        self.state == SessionState::Completed
    }

    /// Check if session has failed.
    pub fn has_failed(&self) -> (b: bool)
        ensures
            b == (self.spec_state() == SessionState::Failed),
    {
        self.state == SessionState::Failed
    }

    /// Check if session is in a terminal state.
    pub fn is_terminal(&self) -> (b: bool)
        ensures
            b == spec_is_terminal(self.spec_state()),
    {
        self.state.is_terminal()
    }

    /// Record a send operation.
    pub fn record_send(&mut self, bytes: u64)
        requires
            old(self).spec_stats().bytes_sent + bytes <= u64::MAX,
            old(self).spec_stats().bytes_transferred + bytes <= u64::MAX,
            old(self).spec_stats().packets_sent < u64::MAX,
        ensures
            final(self).spec_stats() == (TransportStats {
                bytes_sent: (old(self).spec_stats().bytes_sent + bytes) as u64,
                bytes_transferred: (old(self).spec_stats().bytes_transferred + bytes) as u64,
                packets_sent: (old(self).spec_stats().packets_sent + 1) as u64,
                ..old(self).spec_stats()
            }),
            final(self).spec_state() == old(self).spec_state(),
            final(self).spec_id() == old(self).spec_id(),
            final(self).spec_config() == old(self).spec_config(),
            final(self).spec_created_at() == old(self).spec_created_at(),
            final(self).spec_completed_at() == old(self).spec_completed_at(),
            final(self).spec_error() == old(self).spec_error(),
    {
        self.stats.record_send(bytes);
        self.updated_at = unix_now_millis();
    }

    /// Record a receive operation.
    pub fn record_receive(&mut self, bytes: u64)
        requires
            old(self).spec_stats().bytes_received + bytes <= u64::MAX,
            old(self).spec_stats().bytes_transferred + bytes <= u64::MAX,
            old(self).spec_stats().packets_received < u64::MAX,
        ensures
            final(self).spec_stats() == (TransportStats {
                bytes_received: (old(self).spec_stats().bytes_received + bytes) as u64,
                bytes_transferred: (old(self).spec_stats().bytes_transferred + bytes) as u64,
                packets_received: (old(self).spec_stats().packets_received + 1) as u64,
                ..old(self).spec_stats()
            }),
            final(self).spec_state() == old(self).spec_state(),
            final(self).spec_id() == old(self).spec_id(),
            final(self).spec_config() == old(self).spec_config(),
            final(self).spec_created_at() == old(self).spec_created_at(),
            final(self).spec_completed_at() == old(self).spec_completed_at(),
            final(self).spec_error() == old(self).spec_error(),
    {
        self.stats.record_receive(bytes);
        self.updated_at = unix_now_millis();
    }

    /// Record a packet loss.
    pub fn record_packet_loss(&mut self)
        requires
            old(self).spec_stats().packets_lost < u64::MAX,
        ensures
            final(self).spec_stats() == (TransportStats {
                packets_lost: (old(self).spec_stats().packets_lost + 1) as u64,
                ..old(self).spec_stats()
            }),
            final(self).spec_state() == old(self).spec_state(),
            final(self).spec_id() == old(self).spec_id(),
            final(self).spec_config() == old(self).spec_config(),
            final(self).spec_created_at() == old(self).spec_created_at(),
            final(self).spec_completed_at() == old(self).spec_completed_at(),
            final(self).spec_error() == old(self).spec_error(),
    {
        self.stats.record_packet_loss();
        self.updated_at = unix_now_millis();
    }

    /// Record an error.
    pub fn record_error(&mut self)
        requires
            old(self).spec_stats().errors < u64::MAX,
        ensures
            final(self).spec_stats() == (TransportStats {
                errors: (old(self).spec_stats().errors + 1) as u64,
                ..old(self).spec_stats()
            }),
            final(self).spec_state() == old(self).spec_state(),
            final(self).spec_id() == old(self).spec_id(),
            final(self).spec_config() == old(self).spec_config(),
            final(self).spec_created_at() == old(self).spec_created_at(),
            final(self).spec_completed_at() == old(self).spec_completed_at(),
            final(self).spec_error() == old(self).spec_error(),
    {
        self.stats.record_error();
        self.updated_at = unix_now_millis();
    }

    /// Update performance metrics; CPU usage in hundredths of a percent.
    pub fn update_metrics(&mut self, rtt_ms: u64, throughput_bps: u64, cpu_centipercent: u32)
        ensures
            final(self).spec_stats() == (TransportStats {
                rtt_ms,
                throughput_bps,
                cpu_usage_centipercent: if cpu_centipercent > 10_000 { 10_000 } else { cpu_centipercent },
                ..old(self).spec_stats()
            }),
            final(self).spec_state() == old(self).spec_state(),
            final(self).spec_id() == old(self).spec_id(),
            final(self).spec_config() == old(self).spec_config(),
            final(self).spec_created_at() == old(self).spec_created_at(),
            final(self).spec_completed_at() == old(self).spec_completed_at(),
            final(self).spec_error() == old(self).spec_error(),
    {
        self.stats.update_rtt(rtt_ms);
        self.stats.update_throughput(throughput_bps);
        self.stats.update_cpu_usage(cpu_centipercent);
        self.updated_at = unix_now_millis();
    }

    /// Healthy: active, with healthy statistics.
    pub fn is_healthy(&self) -> (b: bool)
        ensures
            b == (self.spec_state() == SessionState::Active && spec_stats_healthy(self.spec_stats())),
    {
        self.is_active() && self.stats.is_healthy()
    }
}

/// A session that reached a terminal state stays there: every later
/// transition is refused, and it has a completion time.
pub proof fn lemma_terminal_session_is_final(s: TransportSession, next: SessionState)
    requires
        spec_is_terminal(s.spec_state()),
    ensures
        !spec_can_transition(s.spec_state(), next),
{
}

} // verus!
