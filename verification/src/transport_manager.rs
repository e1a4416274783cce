//! The transport manager's bookkeeping: its configuration, the sessions it
//! runs (each under the id its backend gave it), which backend is in use,
//! and the monitoring of that backend.
//!
//! The backend itself performs the network work; the manager calls it and
//! records here what came of each call.

use vstd::prelude::*;
use vstd::string::StringExecFns;
use crate::backend_capabilities::Platform;
use crate::backend_monitor::{BackendMonitor, MonitorConfig, slot, success_fits, after_success};
use crate::error::Error;
use crate::session::{SessionConfig, SessionId, TransportSession};
use crate::session_state::{SessionState, spec_can_transition};
use crate::transport_stats::{TransportStats, zero_stats};
use crate::transport_type::TransportType;

verus! {

/// Transport manager configuration.
#[derive(Debug, Clone, Copy, PartialEq, Eq, Structural)]
pub struct TransportManagerConfig {
    /// Preferred transport type (None = auto-select)
    pub preferred_transport: Option<TransportType>,
    /// Enable automatic backend selection
    pub auto_select_backend: bool,
    /// Maximum concurrent sessions
    pub max_concurrent_sessions: usize,
    /// Enable performance monitoring
    pub enable_monitoring: bool,
}

impl Default for TransportManagerConfig {
    /// Auto-selection, monitoring, at most 100 sessions, no preference.
    fn default() -> (c: Self)
        ensures
            c == (TransportManagerConfig {
                preferred_transport: None,
                auto_select_backend: true,
                max_concurrent_sessions: 100,
                enable_monitoring: true,
            }),
    {
        TransportManagerConfig {
            preferred_transport: None,
            auto_select_backend: true,
            max_concurrent_sessions: 100,
            enable_monitoring: true,
        }
    }
}

/// Whether some session has id `id`.
pub open spec fn holds(s: Seq<(SessionId, TransportSession)>, id: SessionId) -> bool {
    exists|j: int| 0 <= j < s.len() && (#[trigger] s[j]).0 == id
}

/// Position of the session with id `id` (meaningful when there is one).
pub open spec fn index_of(s: Seq<(SessionId, TransportSession)>, id: SessionId) -> int {
    choose|j: int| 0 <= j < s.len() && (#[trigger] s[j]).0 == id
}

/// No two sessions share an id.
pub open spec fn distinct_ids(s: Seq<(SessionId, TransportSession)>) -> bool {
    forall|a: int, b: int| 0 <= a < b < s.len() ==> (#[trigger] s[a]).0 != (#[trigger] s[b]).0
}

/// Sum of a counter over the sessions.
pub open spec fn total_of(s: Seq<(SessionId, TransportSession)>, f: spec_fn(TransportStats) -> int) -> int
    decreases s.len(),
{
    if s.len() == 0 {
        0
    } else {
        total_of(s.drop_last(), f) + f(s.last().1.spec_stats())
    }
}

/// The counters that the aggregate statistics sum.
pub open spec fn sent_bytes() -> spec_fn(TransportStats) -> int {
    |t: TransportStats| t.bytes_sent as int
}

/// Bytes received.
pub open spec fn received_bytes() -> spec_fn(TransportStats) -> int {
    |t: TransportStats| t.bytes_received as int
}

/// Packets sent.
pub open spec fn sent_packets() -> spec_fn(TransportStats) -> int {
    |t: TransportStats| t.packets_sent as int
}

/// Packets received.
pub open spec fn received_packets() -> spec_fn(TransportStats) -> int {
    |t: TransportStats| t.packets_received as int
}

/// Errors.
pub open spec fn error_count() -> spec_fn(TransportStats) -> int {
    |t: TransportStats| t.errors as int
}

/// Packets lost.
pub open spec fn lost_packets() -> spec_fn(TransportStats) -> int {
    |t: TransportStats| t.packets_lost as int
}

/// The aggregate counters fit in 64 bits.
pub open spec fn totals_fit(s: Seq<(SessionId, TransportSession)>) -> bool {
    &&& total_of(s, sent_bytes()) <= u64::MAX
    &&& total_of(s, received_bytes()) <= u64::MAX
    &&& total_of(s, sent_packets()) <= u64::MAX
    &&& total_of(s, received_packets()) <= u64::MAX
    &&& total_of(s, error_count()) <= u64::MAX
    &&& total_of(s, lost_packets()) <= u64::MAX
    &&& total_of(s, sent_bytes()) + total_of(s, received_bytes()) <= u64::MAX
}

/// What the manager knows besides its backend.
pub struct ManagerState {
    sessions: Vec<(SessionId, TransportSession)>,
    platform: Platform,
    config: TransportManagerConfig,
    monitor: BackendMonitor,
    current_backend_type: Option<TransportType>,
    backend_ready: bool,
}

impl ManagerState {
    /// The sessions, in the order they were created.
    pub closed spec fn sessions_view(&self) -> Seq<(SessionId, TransportSession)> {
        self.sessions@
    }

    /// The configuration.
    pub closed spec fn spec_config(&self) -> TransportManagerConfig {
        self.config
    }

    /// The platform the manager runs on.
    pub closed spec fn spec_platform(&self) -> Platform {
        self.platform
    }

    /// Whether a backend was initialized.
    pub closed spec fn spec_backend_ready(&self) -> bool {
        self.backend_ready
    }

    /// The backend type being monitored, if any.
    pub closed spec fn spec_backend_type(&self) -> Option<TransportType> {
        self.current_backend_type
    }

    /// The backend monitor.
    pub closed spec fn spec_monitor(&self) -> BackendMonitor {
        self.monitor
    }

    /// Session ids are distinct, every kept session has a completion time
    /// exactly when it is in a terminal state, and the monitor is well
    /// formed.
    pub closed spec fn wf(&self) -> bool {
        &&& distinct_ids(self.sessions@)
        &&& forall|k: int| 0 <= k < self.sessions@.len() ==> (#[trigger] self.sessions@[k]).1.completion_matches_state()
        &&& self.monitor.wf()
    }

    /// Every kept session has a completion time exactly when it is in a
    /// terminal state.
    pub proof fn lemma_kept_sessions_complete_when_terminal(&self, id: SessionId)
        requires
            self.wf(),
            self.has_session(id),
        ensures
            self.session_of(id).completion_matches_state(),
    {
        let j = index_of(self.sessions@, id);
        assert(0 <= j < self.sessions@.len());
    }

    /// Whether a session has this id.
    pub open spec fn has_session(&self, id: SessionId) -> bool {
        holds(self.sessions_view(), id)
    }

    /// The session with this id (meaningful when there is one).
    pub open spec fn session_of(&self, id: SessionId) -> TransportSession {
        self.sessions_view()[index_of(self.sessions_view(), id)].1
    }

    /// A manager for `platform`, without sessions or backend, monitoring
    /// with the default configuration.
    pub fn new(config: TransportManagerConfig, platform: Platform) -> (m: Self)
        ensures
            m.wf(),
            m.sessions_view().len() == 0,
            m.spec_config() == config,
            m.spec_platform() == platform,
            !m.spec_backend_ready(),
            m.spec_backend_type() is None,
    {
        ManagerState {
            sessions: Vec::new(),
            platform,
            config,
            monitor: BackendMonitor::new(MonitorConfig::default()),
            current_backend_type: None,
            backend_ready: false,
        }
    }

    /// Record that a backend of this type is initialized (or none is).
    pub fn set_backend(&mut self, backend_type: Option<TransportType>, ready: bool)
        ensures
            final(self).spec_backend_ready() == ready,
            final(self).spec_backend_type() == backend_type,
            final(self).sessions_view() == old(self).sessions_view(),
            final(self).spec_config() == old(self).spec_config(),
            final(self).spec_platform() == old(self).spec_platform(),
            final(self).spec_monitor() == old(self).spec_monitor(),
            final(self).wf() == old(self).wf(),
    {
        self.backend_type_is(backend_type);
        self.backend_ready = ready;
    }

    fn backend_type_is(&mut self, backend_type: Option<TransportType>)
        ensures
            final(self).spec_backend_type() == backend_type,
            final(self).spec_backend_ready() == old(self).spec_backend_ready(),
            final(self).sessions_view() == old(self).sessions_view(),
            final(self).spec_config() == old(self).spec_config(),
            final(self).spec_platform() == old(self).spec_platform(),
            final(self).spec_monitor() == old(self).spec_monitor(),
            final(self).wf() == old(self).wf(),
    {
        self.current_backend_type = backend_type;
    }

    /// Platform information.
    pub fn platform(&self) -> (p: &Platform)
        ensures
            *p == self.spec_platform(),
    {
        &self.platform
    }

    /// The backend type being monitored, if any.
    pub fn current_backend_type(&self) -> (t: Option<TransportType>)
        ensures
            t == self.spec_backend_type(),
    {
        self.current_backend_type
    }

    /// The backend monitor.
    pub fn monitor(&self) -> (m: &BackendMonitor)
        ensures
            *m == self.spec_monitor(),
    {
        &self.monitor
    }

    /// The backend monitor, for updates.
    pub fn monitor_mut(&mut self) -> (m: &mut BackendMonitor)
        ensures
            *m == old(self).spec_monitor(),
            final(self).spec_monitor() == *final(m),
            final(self).sessions_view() == old(self).sessions_view(),
            final(self).spec_backend_type() == old(self).spec_backend_type(),
            final(self).spec_backend_ready() == old(self).spec_backend_ready(),
            final(self).spec_config() == old(self).spec_config(),
    {
        &mut self.monitor
    }

    /// Number of sessions.
    pub fn active_session_count(&self) -> (n: usize)
        ensures
            n == self.sessions_view().len(),
    {
        self.sessions.len()
    }

    fn find(&self, id: SessionId) -> (r: Option<usize>)
        requires
            distinct_ids(self.sessions@),
        ensures
            match r {
                Some(k) => k < self.sessions@.len() && k == index_of(self.sessions@, id) && self.sessions@[k as int].0 == id,
                None => !holds(self.sessions@, id),
            },
    {
        let mut k: usize = 0;
        while k < self.sessions.len()
            invariant
                k <= self.sessions@.len(),
                distinct_ids(self.sessions@),
                forall|j: int| 0 <= j < k ==> (#[trigger] self.sessions@[j]).0 != id,
            decreases self.sessions@.len() - k,
        {
            if self.sessions[k].0 == id {
                proof { lemma_index_at(self.sessions@, k as int); }
                return Some(k);
            }
            k = k + 1;
        }
        None
    }

    /// A new session may be created: fails when the session limit is
    /// reached, or else when no backend is initialized.
    pub fn admit_session(&self) -> (r: Result<(), Error>)
        ensures
            self.sessions_view().len() >= self.spec_config().max_concurrent_sessions ==> (r matches Err(
                Error::Configuration(m),
            ) && m@ == "Maximum concurrent sessions reached"@),
            self.sessions_view().len() < self.spec_config().max_concurrent_sessions && !self.spec_backend_ready() ==> (
            r matches Err(Error::Configuration(m)) && m@ == "Backend not initialized"@),
            self.sessions_view().len() < self.spec_config().max_concurrent_sessions && self.spec_backend_ready() ==> r
                is Ok,
    {
        if self.sessions.len() >= self.config.max_concurrent_sessions {
            return Err(Error::Configuration(String::from_str("Maximum concurrent sessions reached")));
        }
        if !self.backend_ready {
            return Err(Error::Configuration(String::from_str("Backend not initialized")));
        }
        Ok(())
    }

    /// The backend opened session `id`: keep a fresh session for it (one
    /// already kept under that id is replaced).
    pub fn add_session(&mut self, id: SessionId, config: SessionConfig)
        requires
            old(self).wf(),
        ensures
            final(self).wf(),
            final(self).has_session(id),
            final(self).session_of(id).spec_state() == SessionState::Initializing,
            final(self).session_of(id).spec_stats() == zero_stats(),
            final(self).session_of(id).spec_config() == config,
            forall|other: SessionId| other != id ==> (#[trigger] final(self).has_session(other) == old(self).has_session(other)),
            forall|other: SessionId| other != id && old(self).has_session(other) ==> #[trigger] final(self).session_of(other)
                == old(self).session_of(other),
            final(self).spec_config() == old(self).spec_config(),
            final(self).spec_backend_type() == old(self).spec_backend_type(),
            final(self).spec_backend_ready() == old(self).spec_backend_ready(),
            final(self).spec_monitor() == old(self).spec_monitor(),
    {
        let session = TransportSession::new(config);
        let ghost s0 = self.sessions@;
        match self.find(id) {
            Some(k) => {
                self.sessions.set(k, (id, session));
                proof { lemma_slot_after_update(s0, k as int, id, session); }
            },
            None => {
                self.sessions.push((id, session));
                proof { lemma_slot_after_push(s0, id, session); }
            },
        }
    }

    /// The backend started session `id`: the session becomes active.
    /// Fails when no session has that id, or when it cannot become active.
    pub fn start_session(&mut self, id: SessionId) -> (r: Result<(), Error>)
        requires
            old(self).wf(),
        ensures
            final(self).wf(),
            !old(self).has_session(id) ==> (r matches Err(Error::Domain(m)) && m@ == "Session not found"@)
                && final(self).sessions_view() == old(self).sessions_view(),
            old(self).has_session(id) ==> {
                &&& (r is Ok <==> spec_can_transition(old(self).session_of(id).spec_state(), SessionState::Active))
                &&& final(self).has_session(id)
                &&& final(self).session_of(id).spec_state() == if r is Ok {
                    SessionState::Active
                } else {
                    old(self).session_of(id).spec_state()
                }
            },
            forall|other: SessionId| other != id ==> (#[trigger] final(self).has_session(other) == old(self).has_session(other)),
            final(self).sessions_view().len() == old(self).sessions_view().len(),
            final(self).spec_monitor() == old(self).spec_monitor(),
    {
        match self.find(id) {
            None => Err(Error::Domain(String::from_str("Session not found"))),
            Some(k) => {
                let ghost s0 = self.sessions@;
                let (sid, mut session) = self.sessions.remove(k);
                let r = session.start();
                self.sessions.insert(k, (sid, session));
                assert(self.sessions@ =~= s0.update(k as int, (id, session)));
                proof { lemma_slot_after_update(s0, k as int, id, session); }
                r
            },
        }
    }

    /// The backend paused session `id`: the session, if kept, pauses.
    pub fn pause_session(&mut self, id: SessionId) -> (r: Result<(), Error>)
        requires
            old(self).wf(),
        ensures
            final(self).wf(),
            !old(self).has_session(id) ==> r is Ok && final(self).sessions_view() == old(self).sessions_view(),
            old(self).has_session(id) ==> {
                &&& (r is Ok <==> spec_can_transition(old(self).session_of(id).spec_state(), SessionState::Paused))
                &&& final(self).has_session(id)
                &&& final(self).session_of(id).spec_state() == if r is Ok {
                    SessionState::Paused
                } else {
                    old(self).session_of(id).spec_state()
                }
            },
            forall|other: SessionId| other != id ==> (#[trigger] final(self).has_session(other) == old(self).has_session(other)),
            final(self).spec_monitor() == old(self).spec_monitor(),
    {
        match self.find(id) {
            None => Ok(()),
            Some(k) => {
                let ghost s0 = self.sessions@;
                let (sid, mut session) = self.sessions.remove(k);
                let r = session.pause();
                self.sessions.insert(k, (sid, session));
                assert(self.sessions@ =~= s0.update(k as int, (id, session)));
                proof { lemma_slot_after_update(s0, k as int, id, session); }
                r
            },
        }
    }

    /// The backend resumed session `id`: the session, if kept, becomes
    /// active again.
    pub fn resume_session(&mut self, id: SessionId) -> (r: Result<(), Error>)
        requires
            old(self).wf(),
        ensures
            final(self).wf(),
            !old(self).has_session(id) ==> r is Ok && final(self).sessions_view() == old(self).sessions_view(),
            old(self).has_session(id) ==> {
                &&& (r is Ok <==> spec_can_transition(old(self).session_of(id).spec_state(), SessionState::Active))
                &&& final(self).has_session(id)
                &&& final(self).session_of(id).spec_state() == if r is Ok {
                    SessionState::Active
                } else {
                    old(self).session_of(id).spec_state()
                }
            },
            forall|other: SessionId| other != id ==> (#[trigger] final(self).has_session(other) == old(self).has_session(other)),
            final(self).spec_monitor() == old(self).spec_monitor(),
    {
        match self.find(id) {
            None => Ok(()),
            Some(k) => {
                let ghost s0 = self.sessions@;
                let (sid, mut session) = self.sessions.remove(k);
                let r = session.resume();
                self.sessions.insert(k, (sid, session));
                assert(self.sessions@ =~= s0.update(k as int, (id, session)));
                proof { lemma_slot_after_update(s0, k as int, id, session); }
                r
            },
        }
    }

    /// The backend stopped session `id`: it is no longer kept, and completes;
    /// a session that cannot complete reports the refused transition.
    pub fn stop_session(&mut self, id: SessionId) -> (r: Result<(), Error>)
        requires
            old(self).wf(),
        ensures
            final(self).wf(),
            !final(self).has_session(id),
            !old(self).has_session(id) ==> r is Ok && final(self).sessions_view() == old(self).sessions_view(),
            old(self).has_session(id) ==> {
                &&& (r is Ok <==> spec_can_transition(old(self).session_of(id).spec_state(), SessionState::Completed))
                &&& final(self).sessions_view() == old(self).sessions_view().remove(index_of(old(self).sessions_view(), id))
            },
            forall|other: SessionId| other != id ==> (#[trigger] final(self).has_session(other) == old(self).has_session(other)),
            final(self).spec_monitor() == old(self).spec_monitor(),
    {
        match self.find(id) {
            None => Ok(()),
            Some(k) => {
                let ghost s0 = self.sessions@;
                let (_sid, mut session) = self.sessions.remove(k);
                assert(self.sessions@ =~= s0.remove(k as int));
                proof { lemma_slot_after_remove(s0, k as int, id); }
                session.complete()
            },
        }
    }

    /// Forget every session.
    pub fn clear_sessions(&mut self)
        ensures
            final(self).sessions_view().len() == 0,
            final(self).spec_monitor() == old(self).spec_monitor(),
            final(self).wf() == old(self).spec_monitor().wf(),
    {
        self.sessions = Vec::new();
    }

    /// Ids of all sessions.
    pub fn list_sessions(&self) -> (v: Vec<SessionId>)
        ensures
            v@ == self.sessions_view().map_values(|e: (SessionId, TransportSession)| e.0),
    {
        let mut out: Vec<SessionId> = Vec::new();
        let mut i: usize = 0;
        while i < self.sessions.len()
            invariant
                i <= self.sessions@.len(),
                out@ == self.sessions@.take(i as int).map_values(|e: (SessionId, TransportSession)| e.0),
            decreases self.sessions@.len() - i,
        {
            out.push(self.sessions[i].0);
            assert(self.sessions@.take(i + 1).map_values(|e: (SessionId, TransportSession)| e.0) =~= self.sessions@.take(
                i as int,
            ).map_values(|e: (SessionId, TransportSession)| e.0).push(self.sessions@[i as int].0));
            i = i + 1;
        }
        assert(self.sessions@.take(i as int) =~= self.sessions@);
        out
    }

    /// The state of session `id`.
    pub fn get_session_state(&self, id: SessionId) -> (r: Result<SessionState, Error>)
        requires
            self.wf(),
        ensures
            self.has_session(id) ==> r == Ok::<SessionState, Error>(self.session_of(id).spec_state()),
            !self.has_session(id) ==> (r matches Err(Error::Domain(m)) && m@ == "Session not found"@),
    {
        match self.find(id) {
            None => Err(Error::Domain(String::from_str("Session not found"))),
            Some(k) => Ok(self.sessions[k].1.state()),
        }
    }

    /// The statistics of session `id`.
    pub fn get_session_stats(&self, id: SessionId) -> (r: Result<TransportStats, Error>)
        requires
            self.wf(),
        ensures
            self.has_session(id) ==> r == Ok::<TransportStats, Error>(self.session_of(id).spec_stats()),
            !self.has_session(id) ==> (r matches Err(Error::Domain(m)) && m@ == "Session not found"@),
    {
        match self.find(id) {
            None => Err(Error::Domain(String::from_str("Session not found"))),
            Some(k) => Ok(*self.sessions[k].1.stats()),
        }
    }

    /// A copy of session `id`.
    pub fn get_session(&self, id: SessionId) -> (r: Result<TransportSession, Error>)
        requires
            self.wf(),
        ensures
            self.has_session(id) ==> r == Ok::<TransportSession, Error>(self.session_of(id)),
            !self.has_session(id) ==> (r matches Err(Error::Domain(m)) && m@ == "Session not found"@),
    {
        match self.find(id) {
            None => Err(Error::Domain(String::from_str("Session not found"))),
            Some(k) => Ok(self.sessions[k].1.duplicate()),
        }
    }

    /// Statistics summed over all sessions: bytes and packets sent and
    /// received, errors and lost packets (the other figures stay zero).
    pub fn get_transport_stats(&self) -> (r: TransportStats)
        requires
            totals_fit(self.sessions_view()),
        ensures
            r == (TransportStats {
                bytes_sent: total_of(self.sessions_view(), sent_bytes()) as u64,
                bytes_received: total_of(self.sessions_view(), received_bytes()) as u64,
                packets_sent: total_of(self.sessions_view(), sent_packets()) as u64,
                packets_received: total_of(self.sessions_view(), received_packets()) as u64,
                errors: total_of(self.sessions_view(), error_count()) as u64,
                packets_lost: total_of(self.sessions_view(), lost_packets()) as u64,
                bytes_transferred: (total_of(self.sessions_view(), sent_bytes()) + total_of(
                    self.sessions_view(),
                    received_bytes(),
                )) as u64,
                ..zero_stats()
            }),
    {
        let mut total = TransportStats::new();
        let mut i: usize = 0;
        while i < self.sessions.len()
            invariant
                i <= self.sessions@.len(),
                totals_fit(self.sessions@),
                total == (TransportStats {
                    bytes_sent: total_of(self.sessions@.take(i as int), sent_bytes()) as u64,
                    bytes_received: total_of(self.sessions@.take(i as int), received_bytes()) as u64,
                    packets_sent: total_of(self.sessions@.take(i as int), sent_packets()) as u64,
                    packets_received: total_of(self.sessions@.take(i as int), received_packets()) as u64,
                    errors: total_of(self.sessions@.take(i as int), error_count()) as u64,
                    packets_lost: total_of(self.sessions@.take(i as int), lost_packets()) as u64,
                    ..zero_stats()
                }),
            decreases self.sessions@.len() - i,
        {
            let st = *self.sessions[i].1.stats();
            proof {
                assert(self.sessions@.take(i + 1).drop_last() =~= self.sessions@.take(i as int));
                lemma_total_prefix(self.sessions@, sent_bytes(), i + 1);
                lemma_total_prefix(self.sessions@, received_bytes(), i + 1);
                lemma_total_prefix(self.sessions@, sent_packets(), i + 1);
                lemma_total_prefix(self.sessions@, received_packets(), i + 1);
                lemma_total_prefix(self.sessions@, error_count(), i + 1);
                lemma_total_prefix(self.sessions@, lost_packets(), i + 1);
                lemma_total_prefix(self.sessions@, sent_bytes(), i as int);
                lemma_total_prefix(self.sessions@, received_bytes(), i as int);
                lemma_total_prefix(self.sessions@, sent_packets(), i as int);
                lemma_total_prefix(self.sessions@, received_packets(), i as int);
                lemma_total_prefix(self.sessions@, error_count(), i as int);
                lemma_total_prefix(self.sessions@, lost_packets(), i as int);
            }
            total.bytes_sent = total.bytes_sent + st.bytes_sent;
            total.bytes_received = total.bytes_received + st.bytes_received;
            total.packets_sent = total.packets_sent + st.packets_sent;
            total.packets_received = total.packets_received + st.packets_received;
            total.errors = total.errors + st.errors;
            total.packets_lost = total.packets_lost + st.packets_lost;
            i = i + 1;
        }
        assert(self.sessions@.take(i as int) =~= self.sessions@);
        proof {
            lemma_total_prefix(self.sessions@, sent_bytes(), i as int);
            lemma_total_prefix(self.sessions@, received_bytes(), i as int);
        }
        assert(total.bytes_sent == total_of(self.sessions@, sent_bytes()));
        assert(total.bytes_received == total_of(self.sessions@, received_bytes()));
        total.bytes_transferred = total.bytes_sent + total.bytes_received;
        total
    }

    /// A send of `bytes` that took `latency_ns` succeeded on session `id`:
    /// the session (if kept) counts it, and so does the monitor for the
    /// backend in use (if any).
    pub fn record_send(&mut self, id: SessionId, bytes: u64, latency_ns: u128)
        requires
            old(self).wf(),
            old(self).has_session(id) ==> {
                let st = old(self).session_of(id).spec_stats();
                &&& st.bytes_sent + bytes <= u64::MAX
                &&& st.bytes_transferred + bytes <= u64::MAX
                &&& st.packets_sent < u64::MAX
            },
            old(self).spec_backend_type() matches Some(t) ==> (old(self).spec_monitor().metrics_of(t) matches Some(m)
                ==> m.bytes_sent + bytes <= u64::MAX && success_fits(m, latency_ns)),
        ensures
            final(self).wf(),
            forall|other: SessionId| #[trigger] final(self).has_session(other) == old(self).has_session(other),
            old(self).has_session(id) ==> final(self).session_of(id).spec_stats() == (TransportStats {
                bytes_sent: (old(self).session_of(id).spec_stats().bytes_sent + bytes) as u64,
                bytes_transferred: (old(self).session_of(id).spec_stats().bytes_transferred + bytes) as u64,
                packets_sent: (old(self).session_of(id).spec_stats().packets_sent + 1) as u64,
                ..old(self).session_of(id).spec_stats()
            }),
            old(self).spec_backend_type() is None ==> final(self).spec_monitor() == old(self).spec_monitor(),
            final(self).spec_backend_type() == old(self).spec_backend_type(),
            final(self).spec_backend_ready() == old(self).spec_backend_ready(),
            final(self).spec_config() == old(self).spec_config(),
            final(self).spec_platform() == old(self).spec_platform(),
            !old(self).has_session(id) ==> final(self).sessions_view() == old(self).sessions_view(),
            forall|other: SessionId|
                other != id && old(self).has_session(other) ==> #[trigger] final(self).session_of(other)
                    == old(self).session_of(other),
            old(self).spec_backend_type() matches Some(t) ==> {
                let om = old(self).spec_monitor();
                let fm = final(self).spec_monitor();
                &&& fm.spec_config() == om.spec_config()
                &&& fm.health_view() == om.health_view()
                &&& om.metrics_of(t) is None ==> fm.metrics_view() == om.metrics_view()
                &&& om.metrics_of(t) matches Some(m) ==> fm.metrics_of(t) matches Some(n) && {
                    &&& n.bytes_sent == m.bytes_sent + bytes
                    &&& n.bytes_received == m.bytes_received
                    &&& after_success(m, n, bytes, latency_ns)
                    &&& fm.metrics_view() == om.metrics_view().update(slot(t), Some(n))
                }
            },
    {
        if let Some(k) = self.find(id) {
            let ghost s0 = self.sessions@;
            let (sid, mut session) = self.sessions.remove(k);
            session.record_send(bytes);
            self.sessions.insert(k, (sid, session));
            assert(self.sessions@ =~= s0.update(k as int, (id, session)));
            proof { lemma_slot_after_update(s0, k as int, id, session); }
        }
        if let Some(t) = self.current_backend_type {
            self.monitor.record_send(t, bytes, latency_ns);
        }
    }

    /// A receive of `bytes` that took `latency_ns` succeeded on session
    /// `id`: the session (if kept) and the monitor (if a backend is in use)
    /// count it.
    pub fn record_receive(&mut self, id: SessionId, bytes: u64, latency_ns: u128)
        requires
            old(self).wf(),
            old(self).has_session(id) ==> {
                let st = old(self).session_of(id).spec_stats();
                &&& st.bytes_received + bytes <= u64::MAX
                &&& st.bytes_transferred + bytes <= u64::MAX
                &&& st.packets_received < u64::MAX
            },
            old(self).spec_backend_type() matches Some(t) ==> (old(self).spec_monitor().metrics_of(t) matches Some(m)
                ==> m.bytes_received + bytes <= u64::MAX && success_fits(m, latency_ns)),
        ensures
            final(self).wf(),
            forall|other: SessionId| #[trigger] final(self).has_session(other) == old(self).has_session(other),
            old(self).has_session(id) ==> final(self).session_of(id).spec_stats() == (TransportStats {
                bytes_received: (old(self).session_of(id).spec_stats().bytes_received + bytes) as u64,
                bytes_transferred: (old(self).session_of(id).spec_stats().bytes_transferred + bytes) as u64,
                packets_received: (old(self).session_of(id).spec_stats().packets_received + 1) as u64,
                ..old(self).session_of(id).spec_stats()
            }),
            old(self).spec_backend_type() is None ==> final(self).spec_monitor() == old(self).spec_monitor(),
            final(self).spec_backend_type() == old(self).spec_backend_type(),
            final(self).spec_backend_ready() == old(self).spec_backend_ready(),
            final(self).spec_config() == old(self).spec_config(),
            final(self).spec_platform() == old(self).spec_platform(),
            !old(self).has_session(id) ==> final(self).sessions_view() == old(self).sessions_view(),
            forall|other: SessionId|
                other != id && old(self).has_session(other) ==> #[trigger] final(self).session_of(other)
                    == old(self).session_of(other),
            old(self).spec_backend_type() matches Some(t) ==> {
                let om = old(self).spec_monitor();
                let fm = final(self).spec_monitor();
                &&& fm.spec_config() == om.spec_config()
                &&& fm.health_view() == om.health_view()
                &&& om.metrics_of(t) is None ==> fm.metrics_view() == om.metrics_view()
                &&& om.metrics_of(t) matches Some(m) ==> fm.metrics_of(t) matches Some(n) && {
                    &&& n.bytes_received == m.bytes_received + bytes
                    &&& n.bytes_sent == m.bytes_sent
                    &&& after_success(m, n, bytes, latency_ns)
                    &&& fm.metrics_view() == om.metrics_view().update(slot(t), Some(n))
                }
            },
    {
        if let Some(k) = self.find(id) {
            let ghost s0 = self.sessions@;
            let (sid, mut session) = self.sessions.remove(k);
            session.record_receive(bytes);
            self.sessions.insert(k, (sid, session));
            assert(self.sessions@ =~= s0.update(k as int, (id, session)));
            proof { lemma_slot_after_update(s0, k as int, id, session); }
        }
        if let Some(t) = self.current_backend_type {
            self.monitor.record_receive(t, bytes, latency_ns);
        }
    }

    /// An operation failed: the monitor counts it for the backend in use.
    pub fn record_failure(&mut self)
        requires
            old(self).wf(),
            old(self).spec_backend_type() matches Some(t) ==> (old(self).spec_monitor().metrics_of(t) matches Some(m)
                ==> m.failed_operations < u64::MAX),
        ensures
            final(self).wf(),
            final(self).sessions_view() == old(self).sessions_view(),
            old(self).spec_backend_type() is None ==> final(self).spec_monitor() == old(self).spec_monitor(),
            final(self).spec_backend_type() == old(self).spec_backend_type(),
            final(self).spec_backend_ready() == old(self).spec_backend_ready(),
            final(self).spec_config() == old(self).spec_config(),
            final(self).spec_platform() == old(self).spec_platform(),
            old(self).spec_backend_type() matches Some(t) ==> {
                let om = old(self).spec_monitor();
                let fm = final(self).spec_monitor();
                &&& fm.spec_config() == om.spec_config()
                &&& fm.health_view() == om.health_view()
                &&& om.metrics_of(t) is None ==> fm.metrics_view() == om.metrics_view()
                &&& om.metrics_of(t) matches Some(m) ==> fm.metrics_of(t) matches Some(n) && {
                    &&& n.failed_operations == m.failed_operations + 1
                    &&& n.successful_operations == m.successful_operations
                    &&& n.bytes_sent == m.bytes_sent
                    &&& n.bytes_received == m.bytes_received
                    &&& n.transport_type == m.transport_type
                    &&& fm.metrics_view() == om.metrics_view().update(slot(t), Some(n))
                }
            },
    {
        if let Some(t) = self.current_backend_type {
            self.monitor.record_failure(t);
        }
    }
}

proof fn lemma_total_prefix(s: Seq<(SessionId, TransportSession)>, f: spec_fn(TransportStats) -> int, i: int)
    requires
        0 <= i <= s.len(),
        forall|t: TransportStats| #[trigger] f(t) >= 0,
    ensures
        0 <= total_of(s.take(i), f) <= total_of(s, f),
    decreases s.len(),
{
    if s.len() > 0 {
        if i == s.len() {
            assert(s.take(i) =~= s);
            lemma_total_prefix(s.drop_last(), f, i - 1);
            assert(s.drop_last().take(i - 1) =~= s.drop_last());
        } else {
            assert(s.take(i) =~= s.drop_last().take(i));
            lemma_total_prefix(s.drop_last(), f, i);
        }
    } else {
        assert(s.take(i) =~= s);
    }
}

/// With distinct ids, the session at position `j` is the one found under
/// its id.
proof fn lemma_index_at(s: Seq<(SessionId, TransportSession)>, j: int)
    requires
        distinct_ids(s),
        0 <= j < s.len(),
    ensures
        holds(s, s[j].0),
        index_of(s, s[j].0) == j,
{
    let id = s[j].0;
    assert(holds(s, id));
    let k = index_of(s, id);
    if k != j {
        if k < j {
            assert(s[k].0 != s[j].0);
        } else {
            assert(s[j].0 != s[k].0);
        }
    }
}

/// Replacing the session at position `k` under the same id keeps the ids,
/// and every other id finds the session it found before.
proof fn lemma_slot_after_update(s: Seq<(SessionId, TransportSession)>, k: int, id: SessionId, v: TransportSession)
    requires
        distinct_ids(s),
        0 <= k < s.len(),
        s[k].0 == id,
    ensures
        distinct_ids(s.update(k, (id, v))),
        holds(s.update(k, (id, v)), id),
        index_of(s.update(k, (id, v)), id) == k,
        forall|other: SessionId| (#[trigger] holds(s.update(k, (id, v)), other)) == holds(s, other),
        forall|other: SessionId| other != id && holds(s, other) ==> (#[trigger] s.update(k, (id, v))[index_of(s.update(k, (id, v)), other)]) == s[index_of(s, other)],
{
    let t = s.update(k, (id, v));
    assert forall|a: int, b: int| 0 <= a < b < t.len() implies (#[trigger] t[a]).0 != (#[trigger] t[b]).0 by {
        assert(t[a].0 == s[a].0 && t[b].0 == s[b].0);
    }
    lemma_index_at(t, k);
    assert forall|other: SessionId| (#[trigger] holds(t, other)) == holds(s, other) by {
        if holds(s, other) {
            let j = index_of(s, other);
            assert(t[j].0 == other);
        }
        if holds(t, other) {
            let j = index_of(t, other);
            assert(s[j].0 == other);
        }
    }
    assert forall|other: SessionId| other != id && holds(s, other) implies (#[trigger] t[index_of(t, other)]) == s[index_of(s, other)] by {
        let j = index_of(s, other);
        assert(t[j].0 == other);
        lemma_index_at(s, j);
        lemma_index_at(t, j);
        assert(j != k);
    }
}

/// Appending a session under a new id keeps the ids distinct; the old ids
/// find the sessions they found before.
proof fn lemma_slot_after_push(s: Seq<(SessionId, TransportSession)>, id: SessionId, v: TransportSession)
    requires
        distinct_ids(s),
        !holds(s, id),
    ensures
        distinct_ids(s.push((id, v))),
        holds(s.push((id, v)), id),
        index_of(s.push((id, v)), id) == s.len(),
        forall|other: SessionId| other != id ==> (#[trigger] holds(s.push((id, v)), other)) == holds(s, other),
        forall|other: SessionId| other != id && holds(s, other) ==> (#[trigger] s.push((id, v))[index_of(s.push((id, v)), other)]) == s[index_of(s, other)],
{
    let t = s.push((id, v));
    assert forall|a: int, b: int| 0 <= a < b < t.len() implies (#[trigger] t[a]).0 != (#[trigger] t[b]).0 by {
        if b == s.len() {
            assert(t[a] == s[a]);
            if s[a].0 == id {
                assert(holds(s, id));
            }
        } else {
            assert(t[a] == s[a] && t[b] == s[b]);
        }
    }
    lemma_index_at(t, s.len() as int);
    assert forall|other: SessionId| other != id implies (#[trigger] holds(t, other)) == holds(s, other) by {
        if holds(s, other) {
            let j = index_of(s, other);
            assert(t[j] == s[j]);
        }
        if holds(t, other) {
            let j = index_of(t, other);
            assert(j < s.len());
            assert(s[j] == t[j]);
        }
    }
    assert forall|other: SessionId| other != id && holds(s, other) implies (#[trigger] t[index_of(t, other)]) == s[index_of(s, other)] by {
        let j = index_of(s, other);
        assert(t[j] == s[j]);
        lemma_index_at(s, j);
        lemma_index_at(t, j);
    }
}

/// Removing the session at position `k` keeps the ids distinct; its id is
/// no longer found, and the other ids are found as before.
proof fn lemma_slot_after_remove(s: Seq<(SessionId, TransportSession)>, k: int, id: SessionId)
    requires
        distinct_ids(s),
        0 <= k < s.len(),
        s[k].0 == id,
    ensures
        distinct_ids(s.remove(k)),
        !holds(s.remove(k), id),
        forall|other: SessionId| other != id ==> (#[trigger] holds(s.remove(k), other)) == holds(s, other),
{
    let t = s.remove(k);
    assert forall|a: int, b: int| 0 <= a < b < t.len() implies (#[trigger] t[a]).0 != (#[trigger] t[b]).0 by {
        let oa = if a < k { a } else { a + 1 };
        let ob = if b < k { b } else { b + 1 };
        assert(t[a] == s[oa] && t[b] == s[ob]);
    }
    if holds(t, id) {
        let j = index_of(t, id);
        let oj = if j < k { j } else { j + 1 };
        assert(t[j] == s[oj]);
        assert(oj != k);
        if oj < k {
            assert(s[oj].0 != s[k].0);
        } else {
            assert(s[k].0 != s[oj].0);
        }
    }
    assert forall|other: SessionId| other != id implies (#[trigger] holds(t, other)) == holds(s, other) by {
        if holds(s, other) {
            let j = index_of(s, other);
            assert(j != k);
            let tj = if j < k { j } else { j - 1 };
            assert(t[tj] == s[j]);
        }
        if holds(t, other) {
            let j = index_of(t, other);
            let oj = if j < k { j } else { j + 1 };
            assert(t[j] == s[oj]);
        }
    }
}

} // verus!
