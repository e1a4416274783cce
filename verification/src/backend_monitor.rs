//! Runtime monitoring of the transport backends: traffic and latency
//! figures per backend, health classified from the share of failed
//! operations, and a summary over all monitored backends.
//!
//! Durations are handed in as whole nanoseconds; failure thresholds are in
//! thousandths.

use vstd::prelude::*;
use vstd::string::StringExecFns;
use std::time::{Duration, Instant};
use crate::clock::{instant_now, micros_since, duration_from_secs};
use crate::text::{decimal, digit_char, push_decimal, string_push};
use crate::transport_type::TransportType;

verus! {

/// Backend health status.
#[derive(Debug, Clone, Copy, PartialEq, Eq, Structural)]
pub enum HealthStatus {
    /// Backend is healthy and operational
    Healthy,
    /// Backend is degraded but functional
    Degraded,
    /// Backend is unhealthy and should not be used
    Unhealthy,
    /// Backend status is unknown (not yet checked)
    Unknown,
}

/// Display name of a health status.
pub open spec fn spec_health_name(h: HealthStatus) -> Seq<char> {
    match h {
        HealthStatus::Healthy => "Healthy"@,
        HealthStatus::Degraded => "Degraded"@,
        HealthStatus::Unhealthy => "Unhealthy"@,
        HealthStatus::Unknown => "Unknown"@,
    }
}

impl HealthStatus {
    /// The status's display name.
    pub fn to_string(&self) -> (s: String)
        ensures
            s@ == spec_health_name(*self),
    {
        match self {
            HealthStatus::Healthy => String::from_str("Healthy"),
            HealthStatus::Degraded => String::from_str("Degraded"),
            HealthStatus::Unhealthy => String::from_str("Unhealthy"),
            HealthStatus::Unknown => String::from_str("Unknown"),
        }
    }
}

/// Performance metrics for a backend.
#[derive(Debug, Clone, Copy)]
pub struct BackendMetrics {
    /// Transport type
    pub transport_type: TransportType,
    /// Total bytes sent
    pub bytes_sent: u64,
    /// Total bytes received
    pub bytes_received: u64,
    /// Number of successful operations
    pub successful_operations: u64,
    /// Number of failed operations
    pub failed_operations: u64,
    /// Average latency in microseconds
    pub avg_latency_us: u64,
    /// Peak latency in microseconds
    pub peak_latency_us: u64,
    /// Current throughput in bytes/second
    pub current_throughput_bps: u64,
    /// Peak throughput in bytes/second
    pub peak_throughput_bps: u64,
    /// Number of active connections
    pub active_connections: usize,
    /// Last update timestamp
    pub last_updated: Instant,
}

/// Whole microseconds of a duration given in nanoseconds, truncated to 64
/// bits.
pub open spec fn micros_of(latency_ns: u128) -> u64 {
    (latency_ns / 1000) as u64
}

/// Bytes per second of `bytes` moved in `latency_ns` nanoseconds, rounded
/// down and capped at `u64::MAX`.
pub open spec fn rate_of(bytes: u64, latency_ns: u128) -> u64 {
    let r = bytes * 1_000_000_000 / latency_ns as int;
    if r > u64::MAX {
        u64::MAX
    } else {
        r as u64
    }
}

/// The figures a metrics record starts from.
pub open spec fn fresh_metrics(m: BackendMetrics, t: TransportType) -> bool {
    &&& m.transport_type == t
    &&& m.bytes_sent == 0
    &&& m.bytes_received == 0
    &&& m.successful_operations == 0
    &&& m.failed_operations == 0
    &&& m.avg_latency_us == 0
    &&& m.peak_latency_us == 0
    &&& m.current_throughput_bps == 0
    &&& m.peak_throughput_bps == 0
    &&& m.active_connections == 0
}

/// The record fits one more successful operation of the given latency: the
/// counters and the running latency average stay in range.
pub open spec fn success_fits(m: BackendMetrics, latency_ns: u128) -> bool {
    &&& m.successful_operations < u64::MAX
    &&& m.successful_operations + 1 != 1 ==> m.avg_latency_us * 9 + micros_of(latency_ns) <= u64::MAX
}

/// `n` after an operation of the given latency: the average restarts at the
/// first success, else moves a tenth of the way; the peak is the highest
/// seen; a nonzero duration sets the current throughput and may raise the
/// peak throughput.
pub open spec fn after_success(old_m: BackendMetrics, n: BackendMetrics, bytes: u64, latency_ns: u128) -> bool {
    let us = micros_of(latency_ns);
    &&& n.successful_operations == old_m.successful_operations + 1
    &&& n.failed_operations == old_m.failed_operations
    &&& n.transport_type == old_m.transport_type
    &&& n.active_connections == old_m.active_connections
    &&& n.avg_latency_us == (if old_m.successful_operations + 1 == 1 {
        us as int
    } else {
        (old_m.avg_latency_us * 9 + us) / 10
    })
    &&& n.peak_latency_us == (if us > old_m.peak_latency_us {
        us
    } else {
        old_m.peak_latency_us
    })
    &&& latency_ns > 0 ==> {
        let rate = rate_of(bytes, latency_ns);
        &&& n.current_throughput_bps == rate
        &&& n.peak_throughput_bps == if rate > old_m.peak_throughput_bps {
            rate
        } else {
            old_m.peak_throughput_bps
        }
    }
    &&& latency_ns == 0 ==> {
        &&& n.current_throughput_bps == old_m.current_throughput_bps
        &&& n.peak_throughput_bps == old_m.peak_throughput_bps
    }
}

impl BackendMetrics {
    /// Create new, zeroed metrics for a backend.
    pub fn new(transport_type: TransportType) -> (m: Self)
        ensures
            fresh_metrics(m, transport_type),
    {
        BackendMetrics {
            transport_type,
            bytes_sent: 0,
            bytes_received: 0,
            successful_operations: 0,
            failed_operations: 0,
            avg_latency_us: 0,
            peak_latency_us: 0,
            current_throughput_bps: 0,
            peak_throughput_bps: 0,
            active_connections: 0,
            last_updated: instant_now(),
        }
    }

    /// Record a successful send of `bytes` that took `latency_ns`.
    pub fn record_send(&mut self, bytes: u64, latency_ns: u128)
        requires
            old(self).bytes_sent + bytes <= u64::MAX,
            success_fits(*old(self), latency_ns),
        ensures
            final(self).bytes_sent == old(self).bytes_sent + bytes,
            final(self).bytes_received == old(self).bytes_received,
            after_success(*old(self), *final(self), bytes, latency_ns),
    {
        self.bytes_sent = self.bytes_sent + bytes;
        self.successful_operations = self.successful_operations + 1;
        self.update_latency(latency_ns);
        self.update_throughput(bytes, latency_ns);
        self.last_updated = instant_now();
    }

    /// Record a successful receive of `bytes` that took `latency_ns`.
    pub fn record_receive(&mut self, bytes: u64, latency_ns: u128)
        requires
            old(self).bytes_received + bytes <= u64::MAX,
            success_fits(*old(self), latency_ns),
        ensures
            final(self).bytes_received == old(self).bytes_received + bytes,
            final(self).bytes_sent == old(self).bytes_sent,
            after_success(*old(self), *final(self), bytes, latency_ns),
    {
        self.bytes_received = self.bytes_received + bytes;
        self.successful_operations = self.successful_operations + 1;
        self.update_latency(latency_ns);
        self.update_throughput(bytes, latency_ns);
        self.last_updated = instant_now();
    }

    /// Record a failed operation.
    pub fn record_failure(&mut self)
        requires
            old(self).failed_operations < u64::MAX,
        ensures
            final(self).failed_operations == old(self).failed_operations + 1,
            final(self).transport_type == old(self).transport_type,
            final(self).bytes_sent == old(self).bytes_sent,
            final(self).bytes_received == old(self).bytes_received,
            final(self).successful_operations == old(self).successful_operations,
            final(self).avg_latency_us == old(self).avg_latency_us,
            final(self).peak_latency_us == old(self).peak_latency_us,
            final(self).current_throughput_bps == old(self).current_throughput_bps,
            final(self).peak_throughput_bps == old(self).peak_throughput_bps,
            final(self).active_connections == old(self).active_connections,
    {
        self.failed_operations = self.failed_operations + 1;
        self.last_updated = instant_now();
    }

    /// Fold a latency into the average (restarted at the first success,
    /// else moved a tenth of the way) and the peak.
    fn update_latency(&mut self, latency_ns: u128)
        requires
            old(self).successful_operations != 1 ==> old(self).avg_latency_us * 9 + micros_of(latency_ns)
                <= u64::MAX,
        ensures
            final(self).avg_latency_us == (if old(self).successful_operations == 1 {
                micros_of(latency_ns) as int
            } else {
                (old(self).avg_latency_us * 9 + micros_of(latency_ns)) / 10
            }),
            final(self).peak_latency_us == (if micros_of(latency_ns) > old(self).peak_latency_us {
                micros_of(latency_ns)
            } else {
                old(self).peak_latency_us
            }),
            final(self).transport_type == old(self).transport_type,
            final(self).bytes_sent == old(self).bytes_sent,
            final(self).bytes_received == old(self).bytes_received,
            final(self).successful_operations == old(self).successful_operations,
            final(self).failed_operations == old(self).failed_operations,
            final(self).current_throughput_bps == old(self).current_throughput_bps,
            final(self).peak_throughput_bps == old(self).peak_throughput_bps,
            final(self).active_connections == old(self).active_connections,
    {
        let latency_us = (latency_ns / 1000) as u64;
        if self.successful_operations == 1 {
            self.avg_latency_us = latency_us;
        } else {
            self.avg_latency_us = (self.avg_latency_us * 9 + latency_us) / 10;
        }
        if latency_us > self.peak_latency_us {
            self.peak_latency_us = latency_us;
        }
    }

    /// With a nonzero duration, set the current throughput and raise the
    /// peak to it.
    fn update_throughput(&mut self, bytes: u64, latency_ns: u128)
        ensures
            latency_ns > 0 ==> {
                &&& final(self).current_throughput_bps == rate_of(bytes, latency_ns)
                &&& final(self).peak_throughput_bps == if rate_of(bytes, latency_ns) > old(self).peak_throughput_bps {
                    rate_of(bytes, latency_ns)
                } else {
                    old(self).peak_throughput_bps
                }
            },
            latency_ns == 0 ==> {
                &&& final(self).current_throughput_bps == old(self).current_throughput_bps
                &&& final(self).peak_throughput_bps == old(self).peak_throughput_bps
            },
            final(self).transport_type == old(self).transport_type,
            final(self).bytes_sent == old(self).bytes_sent,
            final(self).bytes_received == old(self).bytes_received,
            final(self).successful_operations == old(self).successful_operations,
            final(self).failed_operations == old(self).failed_operations,
            final(self).avg_latency_us == old(self).avg_latency_us,
            final(self).peak_latency_us == old(self).peak_latency_us,
            final(self).active_connections == old(self).active_connections,
    {
        if latency_ns > 0 {
            let r: u128 = (bytes as u128) * 1_000_000_000 / latency_ns;
            let throughput: u64 = if r > 0xffff_ffff_ffff_ffff {
                0xffff_ffff_ffff_ffff
            } else {
                r as u64
            };
            self.current_throughput_bps = throughput;
            if throughput > self.peak_throughput_bps {
                self.peak_throughput_bps = throughput;
            }
        }
    }

    /// Get total operations.
    pub fn total_operations(&self) -> (n: u64)
        requires
            self.successful_operations + self.failed_operations <= u64::MAX,
        ensures
            n == self.successful_operations + self.failed_operations,
    {
        self.successful_operations + self.failed_operations
    }
}

/// Health check result.
#[derive(Debug)]
pub struct HealthCheckResult {
    /// Backend transport type
    pub transport_type: TransportType,
    /// Health status
    pub status: HealthStatus,
    /// Check timestamp
    pub checked_at: Instant,
    /// Response time in microseconds
    pub response_time_us: u64,
    /// Error message if unhealthy
    pub error: Option<String>,
}

impl HealthCheckResult {
    /// An equal copy of this result.
    pub fn duplicate(&self) -> (r: Self)
        ensures
            r == *self,
    {
        let error = match &self.error {
            Some(e) => Some(e.clone()),
            None => None,
        };
        HealthCheckResult {
            transport_type: self.transport_type,
            status: self.status,
            checked_at: self.checked_at,
            response_time_us: self.response_time_us,
            error,
        }
    }
}

/// Backend monitor configuration.
#[derive(Debug, Clone, Copy)]
pub struct MonitorConfig {
    /// Enable automatic health checks
    pub enable_health_checks: bool,
    /// Health check interval
    pub health_check_interval: Duration,
    /// Metrics collection interval
    pub metrics_interval: Duration,
    /// Unhealthy threshold (failure rate, in thousandths)
    pub unhealthy_threshold_permille: u32,
    /// Degraded threshold (failure rate, in thousandths)
    pub degraded_threshold_permille: u32,
}

impl Default for MonitorConfig {
    /// Health checks every 30 s, metrics every 5 s; unhealthy from a 50%
    /// failure rate, degraded from 20%.
    fn default() -> (c: Self)
        ensures
            c.enable_health_checks,
            c.unhealthy_threshold_permille == 500,
            c.degraded_threshold_permille == 200,
    {
        MonitorConfig {
            enable_health_checks: true,
            health_check_interval: duration_from_secs(30),
            metrics_interval: duration_from_secs(5),
            unhealthy_threshold_permille: 500,
            degraded_threshold_permille: 200,
        }
    }
}

/// Monitor summary statistics.
#[derive(Debug, Clone, Copy, PartialEq, Eq, Structural)]
pub struct MonitorSummary {
    /// Total number of monitored backends
    pub total_backends: usize,
    /// Number of healthy backends
    pub healthy_backends: usize,
    /// Number of degraded backends
    pub degraded_backends: usize,
    /// Number of unhealthy backends
    pub unhealthy_backends: usize,
    /// Total bytes sent across all backends
    pub total_bytes_sent: u64,
    /// Total bytes received across all backends
    pub total_bytes_received: u64,
    /// Total operations across all backends
    pub total_operations: u64,
}

/// Health from operation counts: with `s` successes out of `s + f`, the
/// success rate below `1 - unhealthy` is unhealthy, below `1 - degraded`
/// degraded, else healthy (no operations count as full success).
pub open spec fn classify_health(s: u64, f: u64, unhealthy_pm: u32, degraded_pm: u32) -> HealthStatus {
    let t = s + f;
    if t > 0 && 1000 * s < (1000 - unhealthy_pm) * t {
        HealthStatus::Unhealthy
    } else if t > 0 && 1000 * s < (1000 - degraded_pm) * t {
        HealthStatus::Degraded
    } else {
        HealthStatus::Healthy
    }
}

/// The message of a failing check: the success rate in percent with one
/// decimal (rounded half up), then failures over total operations.
pub open spec fn health_message(s: u64, f: u64) -> Seq<char> {
    let t = s + f;
    let tenths = ((2000 * s + t) / (2 * t)) as nat;
    "Success rate: "@ + decimal(tenths / 10) + "."@ + seq![digit_char(tenths % 10)] + "%, Failed: "@
        + decimal(f as nat) + "/"@ + decimal(t as nat)
}

/// Position of a backend in the monitor's tables.
pub open spec fn slot(t: TransportType) -> int {
    match t {
        TransportType::IoUring => 0,
        TransportType::Dpdk => 1,
        TransportType::Quic => 2,
        TransportType::Tcp => 3,
    }
}

fn slot_of(t: TransportType) -> (i: usize)
    ensures
        i == slot(t),
{
    match t {
        TransportType::IoUring => 0,
        TransportType::Dpdk => 1,
        TransportType::Quic => 2,
        TransportType::Tcp => 3,
    }
}

/// Health of each backend: the status counted by the summary.
pub open spec fn count_status(h: Seq<Option<HealthCheckResult>>, st: HealthStatus) -> nat
    decreases h.len(),
{
    if h.len() == 0 {
        0
    } else {
        count_status(h.drop_last(), st) + (if h.last() matches Some(r) && r.status == st {
            1nat
        } else {
            0nat
        })
    }
}

/// Number of registered backends.
pub open spec fn count_some(m: Seq<Option<BackendMetrics>>) -> nat
    decreases m.len(),
{
    if m.len() == 0 {
        0
    } else {
        count_some(m.drop_last()) + (if m.last() is Some {
            1nat
        } else {
            0nat
        })
    }
}

/// Sum of a figure over the registered backends.
pub open spec fn sum_of(m: Seq<Option<BackendMetrics>>, f: spec_fn(BackendMetrics) -> int) -> int
    decreases m.len(),
{
    if m.len() == 0 {
        0
    } else {
        sum_of(m.drop_last(), f) + match m.last() {
            Some(x) => f(x),
            None => 0,
        }
    }
}

/// Bytes sent by a backend.
pub open spec fn sent_of() -> spec_fn(BackendMetrics) -> int {
    |m: BackendMetrics| m.bytes_sent as int
}

/// Bytes received by a backend.
pub open spec fn received_of() -> spec_fn(BackendMetrics) -> int {
    |m: BackendMetrics| m.bytes_received as int
}

/// Operations of a backend.
pub open spec fn operations_of() -> spec_fn(BackendMetrics) -> int {
    |m: BackendMetrics| m.successful_operations + m.failed_operations
}

/// The totals of a summary fit in 64 bits.
pub open spec fn summary_fits(m: Seq<Option<BackendMetrics>>) -> bool {
    &&& sum_of(m, sent_of()) <= u64::MAX
    &&& sum_of(m, received_of()) <= u64::MAX
    &&& sum_of(m, operations_of()) <= u64::MAX
}

proof fn lemma_sum_prefix(m: Seq<Option<BackendMetrics>>, f: spec_fn(BackendMetrics) -> int, i: int)
    requires
        0 <= i <= m.len(),
        forall|x: BackendMetrics| #[trigger] f(x) >= 0,
    ensures
        0 <= sum_of(m.take(i), f) <= sum_of(m, f),
    decreases m.len(),
{
    if m.len() > 0 {
        if i == m.len() {
            assert(m.take(i) =~= m);
            lemma_sum_prefix(m.drop_last(), f, i - 1);
            assert(m.drop_last().take(i - 1) =~= m.drop_last());
        } else {
            assert(m.take(i) =~= m.drop_last().take(i));
            lemma_sum_prefix(m.drop_last(), f, i);
        }
    } else {
        assert(m.take(i) =~= m);
    }
}

/// A backend that never failed is healthy, whatever the thresholds.
pub proof fn lemma_no_failures_is_healthy(s: u64, unhealthy_pm: u32, degraded_pm: u32)
    ensures
        classify_health(s, 0, unhealthy_pm, degraded_pm) == HealthStatus::Healthy,
{
    assert(1000 * s >= (1000 - unhealthy_pm) * s) by (nonlinear_arith);
    assert(1000 * s >= (1000 - degraded_pm) * s) by (nonlinear_arith);
}

/// Backend monitor.
pub struct BackendMonitor {
    metrics: Vec<Option<BackendMetrics>>,
    health: Vec<Option<HealthCheckResult>>,
    config: MonitorConfig,
}

impl BackendMonitor {
    /// Metrics of each backend, by table position; `None` when unregistered.
    pub closed spec fn metrics_view(&self) -> Seq<Option<BackendMetrics>> {
        self.metrics@
    }

    /// Last health result of each backend, by table position.
    pub closed spec fn health_view(&self) -> Seq<Option<HealthCheckResult>> {
        self.health@
    }

    /// The configuration in use.
    pub closed spec fn spec_config(&self) -> MonitorConfig {
        self.config
    }

    /// One entry per backend in each table.
    pub closed spec fn wf(&self) -> bool {
        &&& self.metrics@.len() == 4
        &&& self.health@.len() == 4
    }

    /// Metrics of a backend.
    pub open spec fn metrics_of(&self, t: TransportType) -> Option<BackendMetrics> {
        self.metrics_view()[slot(t)]
    }

    /// Last health result of a backend.
    pub open spec fn health_of(&self, t: TransportType) -> Option<HealthCheckResult> {
        self.health_view()[slot(t)]
    }

    /// Create a new backend monitor, with nothing registered.
    pub fn new(config: MonitorConfig) -> (m: Self)
        ensures
            m.wf(),
            m.spec_config() == config,
            forall|i: int| 0 <= i < 4 ==> m.metrics_view()[i] is None && m.health_view()[i] is None,
    {
        let mut metrics: Vec<Option<BackendMetrics>> = Vec::new();
        let mut health: Vec<Option<HealthCheckResult>> = Vec::new();
        let mut i: usize = 0;
        while i < 4
            invariant
                i <= 4,
                metrics@.len() == i,
                health@.len() == i,
                forall|k: int| 0 <= k < i ==> metrics@[k] is None && health@[k] is None,
            decreases 4 - i,
        {
            metrics.push(None);
            health.push(None);
            i = i + 1;
        }
        BackendMonitor { metrics, health, config }
    }

    /// Register a backend: fresh metrics and an unknown health, unless it
    /// is registered already.
    pub fn register_backend(&mut self, transport_type: TransportType)
        requires
            old(self).wf(),
        ensures
            final(self).wf(),
            final(self).spec_config() == old(self).spec_config(),
            old(self).metrics_of(transport_type) is Some ==> {
                &&& final(self).metrics_view() == old(self).metrics_view()
                &&& final(self).health_view() == old(self).health_view()
            },
            old(self).metrics_of(transport_type) is None ==> {
                &&& final(self).metrics_of(transport_type) matches Some(m) && fresh_metrics(m, transport_type)
                &&& final(self).health_of(transport_type) matches Some(h) && {
                    &&& h.transport_type == transport_type
                    &&& h.status == HealthStatus::Unknown
                    &&& h.response_time_us == 0
                    &&& h.error is None
                }
                &&& final(self).metrics_view() == old(self).metrics_view().update(
                    slot(transport_type),
                    final(self).metrics_of(transport_type),
                )
                &&& final(self).health_view() == old(self).health_view().update(
                    slot(transport_type),
                    final(self).health_of(transport_type),
                )
            },
    {
        let i = slot_of(transport_type);
        if self.metrics[i].is_none() {
            self.metrics.set(i, Some(BackendMetrics::new(transport_type)));
            self.health.set(
                i,
                Some(
                    HealthCheckResult {
                        transport_type,
                        status: HealthStatus::Unknown,
                        checked_at: instant_now(),
                        response_time_us: 0,
                        error: None,
                    },
                ),
            );
        }
    }

    /// Record a send on a registered backend; others are left alone.
    pub fn record_send(&mut self, transport_type: TransportType, bytes: u64, latency_ns: u128)
        requires
            old(self).wf(),
            old(self).metrics_of(transport_type) matches Some(m) ==> m.bytes_sent + bytes <= u64::MAX
                && success_fits(m, latency_ns),
        ensures
            final(self).wf(),
            final(self).spec_config() == old(self).spec_config(),
            final(self).health_view() == old(self).health_view(),
            old(self).metrics_of(transport_type) is None ==> final(self).metrics_view() == old(self).metrics_view(),
            old(self).metrics_of(transport_type) matches Some(m) ==> final(self).metrics_of(transport_type) matches Some(n) && {
                &&& n.bytes_sent == m.bytes_sent + bytes
                &&& n.bytes_received == m.bytes_received
                &&& after_success(m, n, bytes, latency_ns)
                &&& final(self).metrics_view() == old(self).metrics_view().update(slot(transport_type), Some(n))
            },
    {
        let i = slot_of(transport_type);
        if let Some(mut m) = self.metrics[i] {
            m.record_send(bytes, latency_ns);
            self.metrics.set(i, Some(m));
        }
    }

    /// Record a receive on a registered backend; others are left alone.
    pub fn record_receive(&mut self, transport_type: TransportType, bytes: u64, latency_ns: u128)
        requires
            old(self).wf(),
            old(self).metrics_of(transport_type) matches Some(m) ==> m.bytes_received + bytes <= u64::MAX
                && success_fits(m, latency_ns),
        ensures
            final(self).wf(),
            final(self).spec_config() == old(self).spec_config(),
            final(self).health_view() == old(self).health_view(),
            old(self).metrics_of(transport_type) is None ==> final(self).metrics_view() == old(self).metrics_view(),
            old(self).metrics_of(transport_type) matches Some(m) ==> final(self).metrics_of(transport_type) matches Some(n) && {
                &&& n.bytes_received == m.bytes_received + bytes
                &&& n.bytes_sent == m.bytes_sent
                &&& after_success(m, n, bytes, latency_ns)
                &&& final(self).metrics_view() == old(self).metrics_view().update(slot(transport_type), Some(n))
            },
    {
        let i = slot_of(transport_type);
        if let Some(mut m) = self.metrics[i] {
            m.record_receive(bytes, latency_ns);
            self.metrics.set(i, Some(m));
        }
    }

    /// Record a failure on a registered backend; others are left alone.
    pub fn record_failure(&mut self, transport_type: TransportType)
        requires
            old(self).wf(),
            old(self).metrics_of(transport_type) matches Some(m) ==> m.failed_operations < u64::MAX,
        ensures
            final(self).wf(),
            final(self).spec_config() == old(self).spec_config(),
            final(self).health_view() == old(self).health_view(),
            old(self).metrics_of(transport_type) is None ==> final(self).metrics_view() == old(self).metrics_view(),
            old(self).metrics_of(transport_type) matches Some(m) ==> final(self).metrics_of(transport_type) matches Some(n) && {
                &&& n.failed_operations == m.failed_operations + 1
                &&& n.successful_operations == m.successful_operations
                &&& n.bytes_sent == m.bytes_sent
                &&& n.bytes_received == m.bytes_received
                &&& n.transport_type == m.transport_type
                &&& final(self).metrics_view() == old(self).metrics_view().update(slot(transport_type), Some(n))
            },
    {
        let i = slot_of(transport_type);
        if let Some(mut m) = self.metrics[i] {
            m.record_failure();
            self.metrics.set(i, Some(m));
        }
    }

    /// Metrics of a backend, if registered.
    pub fn get_metrics(&self, transport_type: TransportType) -> (r: Option<BackendMetrics>)
        requires
            self.wf(),
        ensures
            r == self.metrics_of(transport_type),
    {
        self.metrics[slot_of(transport_type)]
    }

    /// Metrics of every registered backend, in table order.
    pub fn get_all_metrics(&self) -> (r: Vec<BackendMetrics>)
        requires
            self.wf(),
        ensures
            r@.len() == count_some(self.metrics_view()),
            forall|i: int| 0 <= i < 4 ==> (#[trigger] self.metrics_view()[i] matches Some(m) ==> r@.contains(m)),
            forall|k: int| 0 <= k < r@.len() ==> self.metrics_view().contains(Some(#[trigger] r@[k])),
    {
        let mut out: Vec<BackendMetrics> = Vec::new();
        let mut i: usize = 0;
        while i < 4
            invariant
                self.wf(),
                i <= 4,
                out@.len() == count_some(self.metrics@.take(i as int)),
                forall|j: int| 0 <= j < i ==> (#[trigger] self.metrics@[j] matches Some(m) ==> out@.contains(m)),
                forall|k: int| 0 <= k < out@.len() ==> self.metrics@.contains(Some(#[trigger] out@[k])),
            decreases 4 - i,
        {
            assert(self.metrics@.take(i + 1).drop_last() =~= self.metrics@.take(i as int));
            if let Some(m) = self.metrics[i] {
                let ghost before = out@;
                out.push(m);
                assert(out@[before.len() as int] == m);
                assert forall|k: int| 0 <= k < out@.len() implies self.metrics@.contains(Some(#[trigger] out@[k])) by {
                    if k < before.len() {
                        assert(out@[k] == before[k]);
                    } else {
                        assert(self.metrics@[i as int] == Some(m));
                    }
                }
                assert forall|j: int| 0 <= j <= i implies (#[trigger] self.metrics@[j] matches Some(mm) ==> out@.contains(mm)) by {
                    if j < i {
                        if let Some(mm) = self.metrics@[j] {
                            let k = choose|k: int| 0 <= k < before.len() && before[k] == mm;
                            assert(out@[k] == mm);
                        }
                    } else {
                        assert(out@[before.len() as int] == m);
                    }
                }
            }
            i = i + 1;
        }
        assert(self.metrics@.take(4) =~= self.metrics@);
        out
    }

    /// Check a backend's health from its share of failed operations, and
    /// keep the result as its latest. An unregistered backend is reported
    /// unknown.
    pub fn health_check(&mut self, transport_type: TransportType) -> (r: HealthCheckResult)
        requires
            old(self).wf(),
            old(self).metrics_of(transport_type) matches Some(m) ==> m.successful_operations + m.failed_operations
                <= u64::MAX,
        ensures
            final(self).wf(),
            final(self).spec_config() == old(self).spec_config(),
            final(self).metrics_view() == old(self).metrics_view(),
            final(self).health_view() == old(self).health_view().update(slot(transport_type), Some(r)),
            final(self).health_of(transport_type) == Some(r),
            forall|t: TransportType| t != transport_type ==> #[trigger] final(self).health_of(t) == old(self).health_of(t),
            r.transport_type == transport_type,
            old(self).metrics_of(transport_type) matches Some(m) ==> {
                let st = classify_health(
                    m.successful_operations,
                    m.failed_operations,
                    old(self).spec_config().unhealthy_threshold_permille,
                    old(self).spec_config().degraded_threshold_permille,
                );
                &&& r.status == st
                &&& st == HealthStatus::Healthy ==> r.error is None
                &&& st != HealthStatus::Healthy ==> (r.error matches Some(e) && e@ == health_message(
                    m.successful_operations,
                    m.failed_operations,
                ))
            },
            old(self).metrics_of(transport_type) is None ==> {
                &&& r.status == HealthStatus::Unknown
                &&& r.error matches Some(e) && e@ == "Backend not registered"@
            },
    {
        let start = instant_now();
        let i = slot_of(transport_type);
        let result = match self.metrics[i] {
            Some(m) => {
                let s = m.successful_operations as u128;
                let f = m.failed_operations as u128;
                let t = s + f;
                let u = self.config.unhealthy_threshold_permille as u128;
                let d = self.config.degraded_threshold_permille as u128;
                proof {
                    if u < 1000 {
                        assert((1000 - u) * t <= 1000 * t) by (nonlinear_arith)
                            requires
                                u < 1000,
                                t >= 0,
                        ;
                    }
                    if d < 1000 {
                        assert((1000 - d) * t <= 1000 * t) by (nonlinear_arith)
                            requires
                                d < 1000,
                                t >= 0,
                        ;
                    }
                }
                let status = if t > 0 && u < 1000 && 1000 * s < (1000 - u) * t {
                    HealthStatus::Unhealthy
                } else if t > 0 && d < 1000 && 1000 * s < (1000 - d) * t {
                    HealthStatus::Degraded
                } else {
                    HealthStatus::Healthy
                };
                proof {
                    if u >= 1000 {
                        assert((1000 - u) * t <= 0) by (nonlinear_arith)
                            requires
                                u >= 1000,
                                t >= 0,
                        ;
                    }
                    if d >= 1000 {
                        assert((1000 - d) * t <= 0) by (nonlinear_arith)
                            requires
                                d >= 1000,
                                t >= 0,
                        ;
                    }
                }
                let error = if status != HealthStatus::Healthy {
                    let tenths = (2000 * s + t) / (2 * t);
                    assert(tenths <= 1000) by (nonlinear_arith)
                        requires
                            tenths == (2000 * s + t) / (2 * t),
                            s <= t,
                            t > 0,
                    ;
                    let tenths = tenths as u64;
                    let mut msg = String::from_str("Success rate: ");
                    push_decimal(&mut msg, tenths / 10);
                    msg.append(".");
                    let dg = (tenths % 10) as u8;
                    string_push(&mut msg, (dg + 48) as char);
                    msg.append("%, Failed: ");
                    push_decimal(&mut msg, m.failed_operations);
                    msg.append("/");
                    push_decimal(&mut msg, m.total_operations());
                    Some(msg)
                } else {
                    None
                };
                HealthCheckResult {
                    transport_type,
                    status,
                    checked_at: instant_now(),
                    response_time_us: micros_since(&start),
                    error,
                }
            },
            None => HealthCheckResult {
                transport_type,
                status: HealthStatus::Unknown,
                checked_at: instant_now(),
                response_time_us: micros_since(&start),
                error: Some(String::from_str("Backend not registered")),
            },
        };
        let stored = result.duplicate();
        self.health.set(i, Some(stored));
        result
    }

    /// Latest health result of a backend, if any.
    pub fn get_health(&self, transport_type: TransportType) -> (r: Option<HealthCheckResult>)
        requires
            self.wf(),
        ensures
            r == self.health_of(transport_type),
    {
        match &self.health[slot_of(transport_type)] {
            Some(h) => Some(h.duplicate()),
            None => None,
        }
    }

    /// Latest health result of every backend that has one, in table order.
    pub fn get_all_health(&self) -> (r: Vec<HealthCheckResult>)
        requires
            self.wf(),
        ensures
            forall|i: int| 0 <= i < 4 ==> (#[trigger] self.health_view()[i] matches Some(h) ==> r@.contains(h)),
            forall|k: int| 0 <= k < r@.len() ==> self.health_view().contains(Some(#[trigger] r@[k])),
    {
        let mut out: Vec<HealthCheckResult> = Vec::new();
        let mut i: usize = 0;
        while i < 4
            invariant
                self.wf(),
                i <= 4,
                forall|j: int| 0 <= j < i ==> (#[trigger] self.health@[j] matches Some(h) ==> out@.contains(h)),
                forall|k: int| 0 <= k < out@.len() ==> self.health@.contains(Some(#[trigger] out@[k])),
            decreases 4 - i,
        {
            if let Some(h) = &self.health[i] {
                let ghost before = out@;
                let c = h.duplicate();
                out.push(c);
                assert(out@[before.len() as int] == *h);
                assert forall|k: int| 0 <= k < out@.len() implies self.health@.contains(Some(#[trigger] out@[k])) by {
                    if k < before.len() {
                        assert(out@[k] == before[k]);
                    } else {
                        assert(self.health@[i as int] == Some(*h));
                    }
                }
                assert forall|j: int| 0 <= j <= i implies (#[trigger] self.health@[j] matches Some(hh) ==> out@.contains(hh)) by {
                    if j < i {
                        if let Some(hh) = self.health@[j] {
                            let k = choose|k: int| 0 <= k < before.len() && before[k] == hh;
                            assert(out@[k] == hh);
                        }
                    } else {
                        assert(out@[before.len() as int] == *h);
                    }
                }
            }
            i = i + 1;
        }
        out
    }

    /// Whether the latest health result of a backend says healthy.
    pub fn is_healthy(&self, transport_type: TransportType) -> (r: bool)
        requires
            self.wf(),
        ensures
            r == (self.health_of(transport_type) matches Some(h) && h.status == HealthStatus::Healthy),
    {
        match &self.health[slot_of(transport_type)] {
            Some(h) => h.status == HealthStatus::Healthy,
            None => false,
        }
    }

    /// Get monitor configuration.
    pub fn config(&self) -> (c: MonitorConfig)
        ensures
            c == self.spec_config(),
    {
        self.config
    }

    /// Update monitor configuration.
    pub fn set_config(&mut self, config: MonitorConfig)
        ensures
            final(self).spec_config() == config,
            final(self).metrics_view() == old(self).metrics_view(),
            final(self).health_view() == old(self).health_view(),
            final(self).wf() == old(self).wf(),
    {
        self.config = config;
    }

    /// Reset the metrics of a registered backend to fresh ones.
    pub fn reset_metrics(&mut self, transport_type: TransportType)
        requires
            old(self).wf(),
        ensures
            final(self).wf(),
            final(self).spec_config() == old(self).spec_config(),
            final(self).health_view() == old(self).health_view(),
            old(self).metrics_of(transport_type) is None ==> final(self).metrics_view() == old(self).metrics_view(),
            old(self).metrics_of(transport_type) is Some ==> (final(self).metrics_of(transport_type) matches Some(n) && {
                &&& fresh_metrics(n, transport_type)
                &&& final(self).metrics_view() == old(self).metrics_view().update(slot(transport_type), Some(n))
            }),
    {
        let i = slot_of(transport_type);
        if self.metrics[i].is_some() {
            self.metrics.set(i, Some(BackendMetrics::new(transport_type)));
        }
    }

    /// Summary over all backends: how many are registered, how many were
    /// last found healthy, degraded or unhealthy, and the traffic totals.
    pub fn get_summary(&self) -> (r: MonitorSummary)
        requires
            self.wf(),
            summary_fits(self.metrics_view()),
        ensures
            r.total_backends == count_some(self.metrics_view()),
            r.healthy_backends == count_status(self.health_view(), HealthStatus::Healthy),
            r.degraded_backends == count_status(self.health_view(), HealthStatus::Degraded),
            r.unhealthy_backends == count_status(self.health_view(), HealthStatus::Unhealthy),
            r.total_bytes_sent == sum_of(self.metrics_view(), sent_of()),
            r.total_bytes_received == sum_of(self.metrics_view(), received_of()),
            r.total_operations == sum_of(self.metrics_view(), operations_of()),
    {
        let mut total_backends: usize = 0;
        let mut sent: u64 = 0;
        let mut received: u64 = 0;
        let mut operations: u64 = 0;
        let mut i: usize = 0;
        while i < 4
            invariant
                self.wf(),
                summary_fits(self.metrics@),
                i <= 4,
                total_backends == count_some(self.metrics@.take(i as int)),
                total_backends <= i,
                sent == sum_of(self.metrics@.take(i as int), sent_of()),
                received == sum_of(self.metrics@.take(i as int), received_of()),
                operations == sum_of(self.metrics@.take(i as int), operations_of()),
            decreases 4 - i,
        {
            assert(self.metrics@.take(i + 1).drop_last() =~= self.metrics@.take(i as int));
            proof {
                lemma_sum_prefix(self.metrics@, sent_of(), i + 1);
                lemma_sum_prefix(self.metrics@, received_of(), i + 1);
                lemma_sum_prefix(self.metrics@, operations_of(), i + 1);
            }
            if let Some(m) = self.metrics[i] {
                total_backends = total_backends + 1;
                sent = sent + m.bytes_sent;
                received = received + m.bytes_received;
                operations = operations + m.total_operations();
            }
            i = i + 1;
        }
        assert(self.metrics@.take(4) =~= self.metrics@);
        let mut healthy: usize = 0;
        let mut degraded: usize = 0;
        let mut unhealthy: usize = 0;
        let mut j: usize = 0;
        while j < 4
            invariant
                self.wf(),
                j <= 4,
                healthy == count_status(self.health@.take(j as int), HealthStatus::Healthy),
                degraded == count_status(self.health@.take(j as int), HealthStatus::Degraded),
                unhealthy == count_status(self.health@.take(j as int), HealthStatus::Unhealthy),
                healthy <= j && degraded <= j && unhealthy <= j,
            decreases 4 - j,
        {
            assert(self.health@.take(j + 1).drop_last() =~= self.health@.take(j as int));
            if let Some(h) = &self.health[j] {
                if h.status == HealthStatus::Healthy {
                    healthy = healthy + 1;
                } else if h.status == HealthStatus::Degraded {
                    degraded = degraded + 1;
                } else if h.status == HealthStatus::Unhealthy {
                    unhealthy = unhealthy + 1;
                }
            }
            j = j + 1;
        }
        assert(self.health@.take(4) =~= self.health@);
        MonitorSummary {
            total_backends,
            healthy_backends: healthy,
            degraded_backends: degraded,
            unhealthy_backends: unhealthy,
            total_bytes_sent: sent,
            total_bytes_received: received,
            total_operations: operations,
        }
    }
}

} // verus!
