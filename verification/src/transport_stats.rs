//! Statistics of a transport session: traffic counters, losses and errors,
//! the latest round-trip time, throughput and CPU usage.
//!
//! CPU usage is kept in hundredths of a percent (0 to 10 000).

use vstd::prelude::*;

verus! {

/// Transport session statistics.
#[derive(Debug, Clone, Copy, PartialEq, Eq, Structural)]
pub struct TransportStats {
    /// Total bytes transferred (sent + received)
    pub bytes_transferred: u64,
    /// Total bytes sent
    pub bytes_sent: u64,
    /// Total bytes received
    pub bytes_received: u64,
    /// Total packets sent
    pub packets_sent: u64,
    /// Total packets received
    pub packets_received: u64,
    /// Total packets lost
    pub packets_lost: u64,
    /// Total errors encountered
    pub errors: u64,
    /// Current round-trip time in milliseconds
    pub rtt_ms: u64,
    /// Current throughput in bytes per second
    pub throughput_bps: u64,
    /// CPU usage in hundredths of a percent (0 to 10 000)
    pub cpu_usage_centipercent: u32,
}

/// Statistics with every figure at zero.
pub open spec fn zero_stats() -> TransportStats {
    TransportStats {
        bytes_transferred: 0,
        bytes_sent: 0,
        bytes_received: 0,
        packets_sent: 0,
        packets_received: 0,
        packets_lost: 0,
        errors: 0,
        rtt_ms: 0,
        throughput_bps: 0,
        cpu_usage_centipercent: 0,
    }
}

/// Healthy operation: under 1% of the packets lost and under 0.1% of the
/// operations failed (nothing sent or received counts as no loss).
pub open spec fn spec_stats_healthy(s: TransportStats) -> bool {
    let total = s.packets_sent + s.packets_received;
    &&& 100 * s.packets_lost < total || (total == 0)
    &&& 1000 * s.errors < total || (total == 0)
}

/// The counters of `a` and `b` summed, and the latest figures averaged
/// where `b` has one.
pub open spec fn merged(a: TransportStats, b: TransportStats) -> TransportStats {
    TransportStats {
        bytes_transferred: (a.bytes_transferred + b.bytes_transferred) as u64,
        bytes_sent: (a.bytes_sent + b.bytes_sent) as u64,
        bytes_received: (a.bytes_received + b.bytes_received) as u64,
        packets_sent: (a.packets_sent + b.packets_sent) as u64,
        packets_received: (a.packets_received + b.packets_received) as u64,
        packets_lost: (a.packets_lost + b.packets_lost) as u64,
        errors: (a.errors + b.errors) as u64,
        rtt_ms: if b.rtt_ms > 0 { ((a.rtt_ms + b.rtt_ms) / 2) as u64 } else { a.rtt_ms },
        throughput_bps: if b.throughput_bps > 0 {
            ((a.throughput_bps + b.throughput_bps) / 2) as u64
        } else {
            a.throughput_bps
        },
        cpu_usage_centipercent: if b.cpu_usage_centipercent > 0 {
            ((a.cpu_usage_centipercent + b.cpu_usage_centipercent) / 2) as u32
        } else {
            a.cpu_usage_centipercent
        },
    }
}

/// The counters of the two records can be summed.
pub open spec fn merge_fits(a: TransportStats, b: TransportStats) -> bool {
    &&& a.bytes_transferred + b.bytes_transferred <= u64::MAX
    &&& a.bytes_sent + b.bytes_sent <= u64::MAX
    &&& a.bytes_received + b.bytes_received <= u64::MAX
    &&& a.packets_sent + b.packets_sent <= u64::MAX
    &&& a.packets_received + b.packets_received <= u64::MAX
    &&& a.packets_lost + b.packets_lost <= u64::MAX
    &&& a.errors + b.errors <= u64::MAX
    &&& b.rtt_ms > 0 ==> a.rtt_ms + b.rtt_ms <= u64::MAX
    &&& b.throughput_bps > 0 ==> a.throughput_bps + b.throughput_bps <= u64::MAX
}

impl TransportStats {
    /// Create new empty stats.
    pub fn new() -> (s: Self)
        ensures
            s == zero_stats(),
    {
        TransportStats {
            bytes_transferred: 0,
            bytes_sent: 0,
            bytes_received: 0,
            packets_sent: 0,
            packets_received: 0,
            packets_lost: 0,
            errors: 0,
            rtt_ms: 0,
            throughput_bps: 0,
            cpu_usage_centipercent: 0,
        }
    }

    /// Record a successful send of `bytes`.
    pub fn record_send(&mut self, bytes: u64)
        requires
            old(self).bytes_sent + bytes <= u64::MAX,
            old(self).bytes_transferred + bytes <= u64::MAX,
            old(self).packets_sent < u64::MAX,
        ensures
            *final(self) == (TransportStats {
                bytes_sent: (old(self).bytes_sent + bytes) as u64,
                bytes_transferred: (old(self).bytes_transferred + bytes) as u64,
                packets_sent: (old(self).packets_sent + 1) as u64,
                ..*old(self)
            }),
    {
        self.bytes_sent = self.bytes_sent + bytes;
        self.bytes_transferred = self.bytes_transferred + bytes;
        self.packets_sent = self.packets_sent + 1;
    }

    /// Record a successful receive of `bytes`.
    pub fn record_receive(&mut self, bytes: u64)
        requires
            old(self).bytes_received + bytes <= u64::MAX,
            old(self).bytes_transferred + bytes <= u64::MAX,
            old(self).packets_received < u64::MAX,
        ensures
            *final(self) == (TransportStats {
                bytes_received: (old(self).bytes_received + bytes) as u64,
                bytes_transferred: (old(self).bytes_transferred + bytes) as u64,
                packets_received: (old(self).packets_received + 1) as u64,
                ..*old(self)
            }),
    {
        self.bytes_received = self.bytes_received + bytes;
        self.bytes_transferred = self.bytes_transferred + bytes;
        self.packets_received = self.packets_received + 1;
    }

    /// Record a packet loss.
    pub fn record_packet_loss(&mut self)
        requires
            old(self).packets_lost < u64::MAX,
        ensures
            *final(self) == (TransportStats { packets_lost: (old(self).packets_lost + 1) as u64, ..*old(self) }),
    {
        self.packets_lost = self.packets_lost + 1;
    }

    /// Record an error.
    pub fn record_error(&mut self)
        requires
            old(self).errors < u64::MAX,
        ensures
            *final(self) == (TransportStats { errors: (old(self).errors + 1) as u64, ..*old(self) }),
    {
        self.errors = self.errors + 1;
    }

    /// Update round-trip time.
    pub fn update_rtt(&mut self, rtt_ms: u64)
        ensures
            *final(self) == (TransportStats { rtt_ms, ..*old(self) }),
    {
        self.rtt_ms = rtt_ms;
    }

    /// Update throughput.
    pub fn update_throughput(&mut self, throughput_bps: u64)
        ensures
            *final(self) == (TransportStats { throughput_bps, ..*old(self) }),
    {
        self.throughput_bps = throughput_bps;
    }

    /// Update CPU usage, given in hundredths of a percent and capped at
    /// 100%.
    pub fn update_cpu_usage(&mut self, cpu_centipercent: u32)
        ensures
            *final(self) == (TransportStats {
                cpu_usage_centipercent: if cpu_centipercent > 10_000 { 10_000 } else { cpu_centipercent },
                ..*old(self)
            }),
    {
        self.cpu_usage_centipercent = if cpu_centipercent > 10_000 { 10_000 } else { cpu_centipercent };
    }

    /// Check if stats indicate healthy operation: under 1% packet loss and
    /// under 0.1% errors.
    pub fn is_healthy(&self) -> (r: bool)
        ensures
            r == spec_stats_healthy(*self),
    {
        let total = self.packets_sent as u128 + self.packets_received as u128;
        if total == 0 {
            return true;
        }
        100 * (self.packets_lost as u128) < total && 1000 * (self.errors as u128) < total
    }

    /// Merge stats from another session: counters add up, and the latest
    /// round-trip time, throughput and CPU usage are averaged with the
    /// other's where it has one.
    pub fn merge(&mut self, other: &TransportStats)
        requires
            merge_fits(*old(self), *other),
        ensures
            *final(self) == merged(*old(self), *other),
    {
        self.bytes_transferred = self.bytes_transferred + other.bytes_transferred;
        self.bytes_sent = self.bytes_sent + other.bytes_sent;
        self.bytes_received = self.bytes_received + other.bytes_received;
        self.packets_sent = self.packets_sent + other.packets_sent;
        self.packets_received = self.packets_received + other.packets_received;
        self.packets_lost = self.packets_lost + other.packets_lost;
        self.errors = self.errors + other.errors;
        if other.rtt_ms > 0 {
            self.rtt_ms = (self.rtt_ms + other.rtt_ms) / 2;
        }
        if other.throughput_bps > 0 {
            self.throughput_bps = (self.throughput_bps + other.throughput_bps) / 2;
        }
        if other.cpu_usage_centipercent > 0 {
            self.cpu_usage_centipercent = ((self.cpu_usage_centipercent as u64 + other.cpu_usage_centipercent as u64)
                / 2) as u32;
        }
    }
}

/// Merging empty statistics into any record leaves its counters and its
/// latest figures as they were.
pub proof fn lemma_merge_empty_is_identity(s: TransportStats)
    ensures
        merged(s, zero_stats()) == s,
{
}

/// When two records count every byte once as transferred
/// (`bytes_transferred == bytes_sent + bytes_received`), so does their
/// merge.
pub proof fn lemma_merge_keeps_transfer_balance(a: TransportStats, b: TransportStats)
    requires
        a.bytes_transferred == a.bytes_sent + a.bytes_received,
        b.bytes_transferred == b.bytes_sent + b.bytes_received,
        merge_fits(a, b),
    ensures
        merged(a, b).bytes_transferred == merged(a, b).bytes_sent + merged(a, b).bytes_received,
{
}

/// Merging adds every counter of the other record to this one: bytes,
/// packets sent, received and lost, and errors.
pub proof fn lemma_merge_adds_counters(a: TransportStats, b: TransportStats)
    requires
        merge_fits(a, b),
    ensures
        merged(a, b).bytes_transferred == a.bytes_transferred + b.bytes_transferred,
        merged(a, b).bytes_sent == a.bytes_sent + b.bytes_sent,
        merged(a, b).bytes_received == a.bytes_received + b.bytes_received,
        merged(a, b).packets_sent == a.packets_sent + b.packets_sent,
        merged(a, b).packets_received == a.packets_received + b.packets_received,
        merged(a, b).packets_lost == a.packets_lost + b.packets_lost,
        merged(a, b).errors == a.errors + b.errors,
{
}

/// The counters do not depend on the order of merging: merging `b` into
/// `a` counts what merging `a` into `b` counts, and merging a third record
/// after them counts what merging it first does.
pub proof fn lemma_merge_counters_commute(a: TransportStats, b: TransportStats, c: TransportStats)
    requires
        merge_fits(a, b),
        merge_fits(b, a),
        merge_fits(merged(a, b), c),
        merge_fits(b, c),
        merge_fits(a, merged(b, c)),
    ensures
        merged(a, b).packets_lost == merged(b, a).packets_lost,
        merged(a, b).errors == merged(b, a).errors,
        merged(a, b).bytes_transferred == merged(b, a).bytes_transferred,
        merged(a, b).packets_sent == merged(b, a).packets_sent,
        merged(a, b).packets_received == merged(b, a).packets_received,
        merged(merged(a, b), c).packets_lost == merged(a, merged(b, c)).packets_lost,
        merged(merged(a, b), c).errors == merged(a, merged(b, c)).errors,
        merged(merged(a, b), c).bytes_transferred == merged(a, merged(b, c)).bytes_transferred,
{
}

/// The latest figures are averaged, rounding down, when the other record
/// has one, and kept otherwise.
pub proof fn lemma_merge_averages_figures(a: TransportStats, b: TransportStats)
    requires
        merge_fits(a, b),
    ensures
        b.rtt_ms == 0 ==> merged(a, b).rtt_ms == a.rtt_ms,
        b.rtt_ms > 0 ==> 2 * merged(a, b).rtt_ms <= a.rtt_ms + b.rtt_ms < 2 * merged(a, b).rtt_ms + 2,
        b.throughput_bps == 0 ==> merged(a, b).throughput_bps == a.throughput_bps,
        b.throughput_bps > 0 ==> 2 * merged(a, b).throughput_bps <= a.throughput_bps + b.throughput_bps < 2 * merged(
            a,
            b,
        ).throughput_bps + 2,
        b.cpu_usage_centipercent == 0 ==> merged(a, b).cpu_usage_centipercent == a.cpu_usage_centipercent,
        b.cpu_usage_centipercent > 0 ==> 2 * merged(a, b).cpu_usage_centipercent <= a.cpu_usage_centipercent
            + b.cpu_usage_centipercent < 2 * merged(a, b).cpu_usage_centipercent + 2,
{
}

} // verus!
