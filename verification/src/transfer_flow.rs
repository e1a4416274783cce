//! Flow control of a file transfer: how a file is cut into chunks, the
//! sender's table of chunks awaiting acknowledgment (with time-outs and
//! retries), and the receiver's tally of accepted chunks.
//!
//! Times are whole milliseconds on a clock the caller reads.

use vstd::prelude::*;
use std::time::Duration;
use crate::clock::duration_from_secs;
use crate::error::Error;
use crate::messages::{ChunkFlags, CompressionType, ErrorCode, spec_error_code_name};
use crate::text::{chars_of, decimal, push_decimal, string_from_chars};
use vstd::string::StringExecFns;

verus! {

/// Transfer configuration.
#[derive(Debug, Clone, Copy)]
pub struct TransferConfig {
    /// Chunk size in bytes
    pub chunk_size: u32,
    /// Send window size (max unacknowledged chunks)
    pub send_window: usize,
    /// Receive window size (max buffered chunks)
    pub receive_window: usize,
    /// Enable compression
    pub compression: bool,
    /// Compression type
    pub compression_type: CompressionType,
    /// Enable deduplication
    pub deduplication: bool,
    /// Bandwidth limit (bytes per second, 0 = unlimited)
    pub bandwidth_limit: u64,
    /// Retry attempts for failed chunks
    pub max_retries: u32,
    /// Timeout for chunk acknowledgment
    pub ack_timeout: Duration,
}

impl Default for TransferConfig {
    /// 4 KB chunks, windows of 256 and 512 chunks, LZ4 compression and
    /// deduplication, no bandwidth limit, 5 retries, 5 s timeout.
    fn default() -> (c: Self)
        ensures
            c.chunk_size == 4096,
            c.send_window == 256,
            c.receive_window == 512,
            c.compression,
            c.compression_type == CompressionType::Lz4,
            c.deduplication,
            c.bandwidth_limit == 0,
            c.max_retries == 5,
    {
        TransferConfig {
            chunk_size: 4096,
            send_window: 256,
            receive_window: 512,
            compression: true,
            compression_type: CompressionType::Lz4,
            deduplication: true,
            bandwidth_limit: 0,
            max_retries: 5,
            ack_timeout: duration_from_secs(5),
        }
    }
}

/// `prefix` followed by the name of `status`.
pub open spec fn status_message(prefix: Seq<char>, status: ErrorCode) -> Seq<char> {
    prefix + spec_error_code_name(status)
}

fn status_error(prefix: &str, status: ErrorCode) -> (e: Error)
    ensures
        e matches Error::Protocol(m) && m@ == status_message(prefix@, status),
{
    let mut m = String::from_str(prefix);
    m.append(status.name());
    Error::Protocol(m)
}

/// The receiver's answer to a transfer start: a success status lets the
/// transfer go on; any other is a refusal.
pub fn check_transfer_ack(status: ErrorCode) -> (r: Result<(), Error>)
    ensures
        status == ErrorCode::Success ==> r is Ok,
        status != ErrorCode::Success ==> (r matches Err(Error::Protocol(m)) && m@ == status_message(
            "Server rejected transfer: "@,
            status,
        )),
{
    if status != ErrorCode::Success {
        return Err(status_error("Server rejected transfer: ", status));
    }
    Ok(())
}

/// The receiver's answer to a transfer end: a success status completes
/// the transfer; any other fails it.
pub fn check_transfer_complete(status: ErrorCode) -> (r: Result<(), Error>)
    ensures
        status == ErrorCode::Success ==> r is Ok,
        status != ErrorCode::Success ==> (r matches Err(Error::Protocol(m)) && m@ == status_message(
            "Transfer failed: "@,
            status,
        )),
{
    if status != ErrorCode::Success {
        return Err(status_error("Transfer failed: ", status));
    }
    Ok(())
}

/// Number of chunks of `chunk_size` bytes that hold `file_size` bytes,
/// the last one possibly shorter; kept to 32 bits as on the wire.
pub open spec fn spec_total_chunks(file_size: u64, chunk_size: u32) -> u32 {
    ((file_size + chunk_size - 1) / (chunk_size as int)) as u32
}

/// Number of chunks of a file, as announced in the transfer start.
pub fn total_chunks_for(file_size: u64, chunk_size: u32) -> (n: u32)
    requires
        chunk_size > 0,
        file_size + chunk_size <= u64::MAX,
    ensures
        n == spec_total_chunks(file_size, chunk_size),
{
    ((file_size + chunk_size as u64 - 1) / chunk_size as u64) as u32
}

/// Byte offset of chunk `index` in the file.
pub fn chunk_offset(index: u32, chunk_size: u32) -> (off: u64)
    ensures
        off == index * chunk_size,
{
    assert(index * chunk_size <= u32::MAX * u32::MAX) by (nonlinear_arith);
    (index as u64) * (chunk_size as u64)
}

/// Flags of chunk `index` out of `total`: only the last chunk is marked.
pub fn chunk_flags_for(index: u32, total: u32) -> (f: ChunkFlags)
    requires
        index < total,
    ensures
        f.0 == (if index == total - 1 { 4u8 } else { 0u8 }),
{
    let flags = ChunkFlags::new();
    if index == total - 1 {
        let f = flags.with_last_chunk();
        assert(0u8 | 4u8 == 4u8) by (bit_vector);
        f
    } else {
        flags
    }
}

/// A chunk sent and not yet acknowledged.
#[derive(Debug, Clone, Copy, PartialEq, Eq, Structural)]
pub struct PendingAck {
    /// Index of the chunk.
    pub chunk_index: u32,
    /// When it was (last) sent.
    pub sent_at_ms: u64,
    /// How many times it was sent again, or reported failed.
    pub retries: u32,
}

/// The chunk waited longer than the time-out since it was last sent (a
/// send time in the future counts as no wait).
pub open spec fn timed_out(p: PendingAck, now_ms: u64, ack_timeout_ms: u64) -> bool {
    now_ms > p.sent_at_ms && now_ms - p.sent_at_ms > ack_timeout_ms
}

/// Position of the entry for chunk `i`, or the number of entries.
pub open spec fn position_of(s: Seq<PendingAck>, i: u32) -> int
    decreases s.len(),
{
    if s.len() == 0 {
        0
    } else if s[0].chunk_index == i {
        0
    } else {
        1 + position_of(s.drop_first(), i)
    }
}

/// The entries after a time-out pass: each timed-out one counts a retry
/// and is sent again now.
pub open spec fn after_expiry(p: PendingAck, now_ms: u64, ack_timeout_ms: u64) -> PendingAck {
    if timed_out(p, now_ms, ack_timeout_ms) {
        PendingAck { sent_at_ms: now_ms, retries: (p.retries + 1) as u32, ..p }
    } else {
        p
    }
}

/// The table after a time-out pass.
pub open spec fn expired_table(s: Seq<PendingAck>, now_ms: u64, ack_timeout_ms: u64) -> Seq<PendingAck> {
    s.map_values(|p: PendingAck| after_expiry(p, now_ms, ack_timeout_ms))
}

/// Some timed-out chunk used up its retries.
pub open spec fn retries_exhausted(s: Seq<PendingAck>, now_ms: u64, ack_timeout_ms: u64, max_retries: u32) -> bool {
    exists|k: int| 0 <= k < s.len() && timed_out(#[trigger] s[k], now_ms, ack_timeout_ms) && s[k].retries >= max_retries
}

/// The chunks awaiting acknowledgment, at most one entry per chunk.
pub struct AckTracker {
    pending: Vec<PendingAck>,
}

impl AckTracker {
    /// Entries, oldest first.
    pub closed spec fn view_entries(&self) -> Seq<PendingAck> {
        self.pending@
    }

    /// No chunk has two entries.
    pub open spec fn distinct(s: Seq<PendingAck>) -> bool {
        forall|a: int, b: int| 0 <= a < b < s.len() ==> (#[trigger] s[a]).chunk_index != (#[trigger] s[b]).chunk_index
    }

    /// Whether chunk `i` is awaited.
    pub open spec fn awaits(&self, i: u32) -> bool {
        exists|k: int| 0 <= k < self.view_entries().len() && (#[trigger] self.view_entries()[k]).chunk_index == i
    }

    /// No chunk is awaited.
    pub fn new() -> (t: Self)
        ensures
            t.view_entries() == Seq::<PendingAck>::empty(),
    {
        AckTracker { pending: Vec::new() }
    }

    /// Number of chunks awaited.
    pub fn len(&self) -> (n: usize)
        ensures
            n == self.view_entries().len(),
    {
        self.pending.len()
    }

    /// Whether no chunk is awaited.
    pub fn is_empty(&self) -> (b: bool)
        ensures
            b == (self.view_entries().len() == 0),
    {
        self.pending.len() == 0
    }

    /// The send window is full: as many chunks are awaited as it allows.
    pub fn window_full(&self, send_window: usize) -> (b: bool)
        ensures
            b == (self.view_entries().len() >= send_window),
    {
        self.pending.len() >= send_window
    }

    fn find(&self, chunk_index: u32) -> (r: Option<usize>)
        requires
            Self::distinct(self.pending@),
        ensures
            match r {
                Some(k) => k < self.pending@.len() && self.pending@[k as int].chunk_index == chunk_index,
                None => !self.awaits(chunk_index),
            },
    {
        let mut k: usize = 0;
        while k < self.pending.len()
            invariant
                k <= self.pending@.len(),
                forall|j: int| 0 <= j < k ==> (#[trigger] self.pending@[j]).chunk_index != chunk_index,
            decreases self.pending@.len() - k,
        {
            if self.pending[k].chunk_index == chunk_index {
                return Some(k);
            }
            k = k + 1;
        }
        None
    }

    /// The retries counted for chunk `chunk_index`, if it is awaited.
    pub fn retries_of(&self, chunk_index: u32) -> (r: Option<u32>)
        requires
            Self::distinct(self.view_entries()),
        ensures
            match r {
                Some(n) => exists|k: int|
                    0 <= k < self.view_entries().len() && (#[trigger] self.view_entries()[k]).chunk_index == chunk_index
                        && self.view_entries()[k].retries == n,
                None => !self.awaits(chunk_index),
            },
    {
        match self.find(chunk_index) {
            Some(k) => Some(self.pending[k].retries),
            None => None,
        }
    }

    /// Chunk `chunk_index` was sent at `now_ms`: it is awaited afresh, with
    /// no retries (an earlier entry for it is replaced in place).
    pub fn track(&mut self, chunk_index: u32, now_ms: u64)
        requires
            Self::distinct(old(self).view_entries()),
        ensures
            Self::distinct(final(self).view_entries()),
            ({
                let fresh = PendingAck { chunk_index, sent_at_ms: now_ms, retries: 0 };
                let old_s = old(self).view_entries();
                if old(self).awaits(chunk_index) {
                    exists|k: int| 0 <= k < old_s.len() && old_s[k].chunk_index == chunk_index
                        && final(self).view_entries() == old_s.update(k, fresh)
                } else {
                    final(self).view_entries() == old_s.push(fresh)
                }
            }),
    {
        let fresh = PendingAck { chunk_index, sent_at_ms: now_ms, retries: 0 };
        match self.find(chunk_index) {
            Some(k) => {
                self.pending.set(k, fresh);
                assert(self.pending@ == old(self).pending@.update(k as int, fresh));
            },
            None => {
                self.pending.push(fresh);
            },
        }
    }

    /// An acknowledgment came for chunk `chunk_index`: on success it is no
    /// longer awaited; on failure it counts one more retry. An unknown
    /// chunk changes nothing.
    pub fn acknowledge(&mut self, chunk_index: u32, success: bool)
        requires
            Self::distinct(old(self).view_entries()),
            forall|k: int| 0 <= k < old(self).view_entries().len() && (#[trigger] old(self).view_entries()[k]).chunk_index == chunk_index
                ==> old(self).view_entries()[k].retries < u32::MAX,
        ensures
            Self::distinct(final(self).view_entries()),
            !old(self).awaits(chunk_index) ==> final(self).view_entries() == old(self).view_entries(),
            forall|k: int| 0 <= k < old(self).view_entries().len() && (#[trigger] old(self).view_entries()[k]).chunk_index == chunk_index ==> {
                let e = old(self).view_entries()[k];
                if success {
                    final(self).view_entries() == old(self).view_entries().remove(k)
                } else {
                    final(self).view_entries() == old(self).view_entries().update(k, PendingAck { retries: (e.retries + 1) as u32, ..e })
                }
            },
    {
        match self.find(chunk_index) {
            Some(k) => {
                if success {
                    self.pending.remove(k);
                    assert forall|a: int, b: int| 0 <= a < b < self.pending@.len() implies (#[trigger] self.pending@[a]).chunk_index
                        != (#[trigger] self.pending@[b]).chunk_index by {
                        let oa = if a < k { a } else { a + 1 };
                        let ob = if b < k { b } else { b + 1 };
                        assert(self.pending@[a] == old(self).pending@[oa]);
                        assert(self.pending@[b] == old(self).pending@[ob]);
                    }
                } else {
                    let e = self.pending[k];
                    self.pending.set(k, PendingAck { retries: e.retries + 1, ..e });
                }
            },
            None => {},
        }
    }

    /// Time-out pass at `now_ms`: when some timed-out chunk has used its
    /// `max_retries`, fail with its index and change nothing; otherwise
    /// every timed-out chunk counts a retry and is stamped as sent now, and
    /// their indices come back, oldest entry first.
    pub fn expire(&mut self, now_ms: u64, ack_timeout_ms: u64, max_retries: u32) -> (r: Result<Vec<u32>, u32>)
        requires
            Self::distinct(old(self).view_entries()),
        ensures
            Self::distinct(final(self).view_entries()),
            r is Err <==> retries_exhausted(old(self).view_entries(), now_ms, ack_timeout_ms, max_retries),
            r matches Err(i) ==> {
                &&& final(self).view_entries() == old(self).view_entries()
                &&& exists|k: int| 0 <= k < old(self).view_entries().len() && #[trigger] old(self).view_entries()[k].chunk_index == i
                    && timed_out(old(self).view_entries()[k], now_ms, ack_timeout_ms)
                    && old(self).view_entries()[k].retries >= max_retries
            },
            r matches Ok(v) ==> {
                &&& final(self).view_entries() == expired_table(old(self).view_entries(), now_ms, ack_timeout_ms)
                &&& v@ == old(self).view_entries().filter(|p: PendingAck| timed_out(p, now_ms, ack_timeout_ms)).map_values(
                    |p: PendingAck| p.chunk_index,
                )
            },
    {
        let mut k: usize = 0;
        while k < self.pending.len()
            invariant
                k <= self.pending@.len(),
                Self::distinct(self.pending@),
                forall|j: int| 0 <= j < k ==> !(timed_out(#[trigger] self.pending@[j], now_ms, ack_timeout_ms) && self.pending@[j].retries >= max_retries),
            decreases self.pending@.len() - k,
        {
            let p = self.pending[k];
            if now_ms > p.sent_at_ms && now_ms - p.sent_at_ms > ack_timeout_ms && p.retries >= max_retries {
                return Err(p.chunk_index);
            }
            k = k + 1;
        }
        let ghost old_s = self.pending@;
        let ghost tpred = |p: PendingAck| timed_out(p, now_ms, ack_timeout_ms);
        let mut retried: Vec<u32> = Vec::new();
        let mut j: usize = 0;
        while j < self.pending.len()
            invariant
                j <= self.pending@.len(),
                self.pending@.len() == old_s.len(),
                forall|a: int| 0 <= a < old_s.len() ==> !(timed_out(#[trigger] old_s[a], now_ms, ack_timeout_ms) && old_s[a].retries >= max_retries),
                forall|a: int| 0 <= a < j ==> #[trigger] self.pending@[a] == after_expiry(old_s[a], now_ms, ack_timeout_ms),
                forall|a: int| j <= a < old_s.len() ==> #[trigger] self.pending@[a] == old_s[a],
                tpred == (|p: PendingAck| timed_out(p, now_ms, ack_timeout_ms)),
                retried@ == old_s.take(j as int).filter(tpred).map_values(|p: PendingAck| p.chunk_index),
            decreases self.pending@.len() - j,
        {
            reveal_with_fuel(Seq::<_>::filter, 1);
            let p = self.pending[j];
            assert(p == old_s[j as int]);
            assert(old_s.take(j + 1).drop_last() =~= old_s.take(j as int));
            assert(old_s.take(j + 1).last() == p);
            if now_ms > p.sent_at_ms && now_ms - p.sent_at_ms > ack_timeout_ms {
                let ghost before = retried@;
                retried.push(p.chunk_index);
                assert(retried@ =~= old_s.take(j as int).filter(tpred).push(p).map_values(|p: PendingAck| p.chunk_index));
                self.pending.set(j, PendingAck { sent_at_ms: now_ms, retries: p.retries + 1, ..p });
            } else {
                assert(tpred(p) == false);
            }
            j = j + 1;
        }
        assert(old_s.take(old_s.len() as int) =~= old_s);
        assert(self.pending@ =~= old_s.map_values(|p: PendingAck| after_expiry(p, now_ms, ack_timeout_ms)));
        assert forall|a: int, b: int| 0 <= a < b < self.pending@.len() implies (#[trigger] self.pending@[a]).chunk_index
            != (#[trigger] self.pending@[b]).chunk_index by {
            assert(self.pending@[a].chunk_index == old_s[a].chunk_index);
            assert(self.pending@[b].chunk_index == old_s[b].chunk_index);
        }
        Ok(retried)
    }
}

/// Acknowledging a chunk that was just tracked, when it was not awaited
/// before, gives back the table as it was.
pub proof fn lemma_ack_undoes_track(s: Seq<PendingAck>, chunk_index: u32, now_ms: u64)
    requires
        AckTracker::distinct(s),
        forall|k: int| 0 <= k < s.len() ==> (#[trigger] s[k]).chunk_index != chunk_index,
    ensures
        s.push(PendingAck { chunk_index, sent_at_ms: now_ms, retries: 0 }).remove(s.len() as int) == s,
        AckTracker::distinct(s.push(PendingAck { chunk_index, sent_at_ms: now_ms, retries: 0 })),
{
    let t = s.push(PendingAck { chunk_index, sent_at_ms: now_ms, retries: 0 });
    assert(t.remove(s.len() as int) =~= s);
    assert forall|a: int, b: int| 0 <= a < b < t.len() implies (#[trigger] t[a]).chunk_index != (#[trigger] t[b]).chunk_index by {
        if b == s.len() {
            assert(t[a] == s[a]);
        } else {
            assert(t[a] == s[a] && t[b] == s[b]);
        }
    }
}

/// Right after a time-out pass at some instant, a pass at the same instant
/// finds no chunk due: every chunk it retried was stamped with that instant.
pub proof fn lemma_expired_chunks_not_due_again(s: Seq<PendingAck>, now_ms: u64, ack_timeout_ms: u64)
    ensures
        forall|k: int| 0 <= k < s.len() ==> !timed_out(
            #[trigger] expired_table(s, now_ms, ack_timeout_ms)[k],
            now_ms,
            ack_timeout_ms,
        ),
{
}

/// The error of a chunk that used up its retries.
pub open spec fn retry_limit_message(chunk_index: u32, max_retries: u32) -> Seq<char> {
    "Chunk "@ + decimal(chunk_index as nat) + " exceeded max retries ("@ + decimal(max_retries as nat) + ")"@
}

/// Error for a chunk that used up its retries.
pub fn retry_limit_error(chunk_index: u32, max_retries: u32) -> (e: Error)
    ensures
        e matches Error::Protocol(m) && m@ == retry_limit_message(chunk_index, max_retries),
{
    let mut m = String::from_str("Chunk ");
    push_decimal(&mut m, chunk_index as u64);
    m.append(" exceeded max retries (");
    push_decimal(&mut m, max_retries as u64);
    m.append(")");
    Error::Protocol(m)
}

/// The receiver's tally of one transfer.
#[derive(Debug, Clone, Copy, PartialEq, Eq, Structural)]
pub struct ChunkReceiver {
    /// The transfer the chunks must belong to.
    pub transfer_id: u128,
    /// Chunks announced.
    pub total_chunks: u32,
    /// Bytes accepted so far.
    pub bytes_received: u64,
    /// Chunks accepted so far.
    pub chunks_received: u32,
}

/// Why a chunk was refused.
#[derive(Debug, Clone, Copy, PartialEq, Eq, Structural)]
pub enum ReceiveError {
    /// The chunk belongs to another transfer.
    TransferIdMismatch,
}

impl ChunkReceiver {
    /// Nothing received yet of the announced transfer.
    pub fn new(transfer_id: u128, total_chunks: u32) -> (r: Self)
        ensures
            r == (ChunkReceiver { transfer_id, total_chunks, bytes_received: 0, chunks_received: 0 }),
    {
        ChunkReceiver { transfer_id, total_chunks, bytes_received: 0, chunks_received: 0 }
    }

    /// A chunk of `len` bytes arrived for transfer `transfer_id`: refused
    /// when the transfer differs, else counted.
    pub fn accept(&mut self, transfer_id: u128, len: usize) -> (r: Result<(), ReceiveError>)
        requires
            transfer_id == old(self).transfer_id ==> {
                &&& old(self).bytes_received + len <= u64::MAX
                &&& old(self).chunks_received < u32::MAX
            },
        ensures
            transfer_id != old(self).transfer_id ==> {
                &&& r == Err::<(), ReceiveError>(ReceiveError::TransferIdMismatch)
                &&& *final(self) == *old(self)
            },
            transfer_id == old(self).transfer_id ==> {
                &&& r == Ok::<(), ReceiveError>(())
                &&& *final(self) == (ChunkReceiver {
                    bytes_received: (old(self).bytes_received + len) as u64,
                    chunks_received: (old(self).chunks_received + 1) as u32,
                    ..*old(self)
                })
            },
    {
        if transfer_id != self.transfer_id {
            return Err(ReceiveError::TransferIdMismatch);
        }
        self.bytes_received = self.bytes_received + len as u64;
        self.chunks_received = self.chunks_received + 1;
        Ok(())
    }

    /// Every announced chunk was received.
    pub fn is_complete(&self) -> (b: bool)
        ensures
            b == (self.chunks_received >= self.total_chunks),
    {
        self.chunks_received >= self.total_chunks
    }
}

/// What the sender has counted of a transfer so far.
#[derive(Debug, Clone, Copy, PartialEq, Eq, Structural)]
pub struct SendCounters {
    /// Bytes of file data sent (first sends only)
    pub bytes_transferred: u64,
    /// Bytes as they went on the wire after compression
    pub compressed_bytes: u64,
    /// Chunks sent for the first time
    pub chunks_sent: u32,
    /// Chunks sent again after a time-out
    pub chunks_retried: u32,
}

impl SendCounters {
    /// Nothing sent yet.
    pub fn new() -> (c: Self)
        ensures
            c == (SendCounters { bytes_transferred: 0, compressed_bytes: 0, chunks_sent: 0, chunks_retried: 0 }),
    {
        SendCounters { bytes_transferred: 0, compressed_bytes: 0, chunks_sent: 0, chunks_retried: 0 }
    }

    /// A chunk of `bytes` file bytes went out for the first time, taking
    /// `compressed` bytes on the wire.
    pub fn record_chunk(&mut self, bytes: u64, compressed: u64)
        requires
            old(self).bytes_transferred + bytes <= u64::MAX,
            old(self).compressed_bytes + compressed <= u64::MAX,
            old(self).chunks_sent < u32::MAX,
        ensures
            *final(self) == (SendCounters {
                bytes_transferred: (old(self).bytes_transferred + bytes) as u64,
                compressed_bytes: (old(self).compressed_bytes + compressed) as u64,
                chunks_sent: (old(self).chunks_sent + 1) as u32,
                chunks_retried: old(self).chunks_retried,
            }),
    {
        self.bytes_transferred = self.bytes_transferred + bytes;
        self.compressed_bytes = self.compressed_bytes + compressed;
        self.chunks_sent = self.chunks_sent + 1;
    }

    /// A chunk went out again after its acknowledgment timed out.
    pub fn record_retry(&mut self)
        requires
            old(self).chunks_retried < u32::MAX,
        ensures
            *final(self) == (SendCounters { chunks_retried: (old(self).chunks_retried + 1) as u32, ..*old(self) }),
    {
        self.chunks_retried = self.chunks_retried + 1;
    }
}

/// A path separator, on Unix or on Windows.
pub open spec fn is_separator(c: char) -> bool {
    c == '/' || c == '\\'
}

/// What follows the last separator of a path (the whole path when it has
/// none).
pub open spec fn last_component(s: Seq<char>) -> Seq<char>
    decreases s.len(),
{
    if s.len() == 0 {
        s
    } else if is_separator(s.last()) {
        Seq::empty()
    } else {
        last_component(s.drop_last()).push(s.last())
    }
}

/// A name that names an entry inside a directory: not empty, not `.` and
/// not `..`.
pub open spec fn plain_name(s: Seq<char>) -> bool {
    &&& s.len() > 0
    &&& !(s.len() == 1 && s[0] == '.')
    &&& !(s.len() == 2 && s[0] == '.' && s[1] == '.')
}

proof fn lemma_last_component_plain(s: Seq<char>)
    ensures
        forall|i: int| 0 <= i < last_component(s).len() ==> !is_separator(#[trigger] last_component(s)[i]),
        last_component(s).len() <= s.len(),
    decreases s.len(),
{
    if s.len() > 0 && !is_separator(s.last()) {
        lemma_last_component_plain(s.drop_last());
    }
}

/// The name under which a received file is stored in the output directory:
/// the last component of the name the sender gave, when that is a plain
/// name; `None` otherwise. The result holds no separator, so joined to the
/// output directory it names an entry of that directory.
pub fn storage_file_name(file_name: &str) -> (r: Option<String>)
    ensures
        match r {
            Some(n) => n@ == last_component(file_name@) && plain_name(n@),
            None => !plain_name(last_component(file_name@)),
        },
        r matches Some(n) ==> forall|i: int| 0 <= i < n@.len() ==> !is_separator(#[trigger] n@[i]),
{
    let cs = chars_of(file_name);
    let mut start: usize = 0;
    let mut i: usize = 0;
    assert(cs@.subrange(0, 0) =~= last_component(cs@.take(0)));
    while i < cs.len()
        invariant
            start <= i <= cs@.len(),
            cs@.subrange(start as int, i as int) == last_component(cs@.take(i as int)),
        decreases cs@.len() - i,
    {
        let c = cs[i];
        assert(cs@.take(i + 1).drop_last() =~= cs@.take(i as int));
        assert(cs@.take(i + 1).last() == c);
        if c == '/' || c == '\\' {
            start = i + 1;
            assert(cs@.subrange(start as int, i + 1) =~= Seq::<char>::empty());
        } else {
            assert(cs@.subrange(start as int, i + 1) =~= cs@.subrange(start as int, i as int).push(c));
        }
        i = i + 1;
    }
    assert(cs@.take(cs@.len() as int) =~= cs@);
    proof {
        lemma_last_component_plain(file_name@);
    }
    let len = cs.len() - start;
    if len == 0 || (len == 1 && cs[start] == '.') || (len == 2 && cs[start] == '.' && cs[start + 1] == '.') {
        return None;
    }
    Some(string_from_chars(&cs, start, cs.len()))
}

/// A time-out pass counts one retry for each timed-out chunk and stamps it
/// as sent at that instant; chunks not yet due are left as they were.
pub proof fn lemma_expiry_counts_a_retry(s: Seq<PendingAck>, now_ms: u64, ack_timeout_ms: u64, k: int)
    requires
        0 <= k < s.len(),
        !retries_exhausted(s, now_ms, ack_timeout_ms, u32::MAX),
    ensures
        expired_table(s, now_ms, ack_timeout_ms).len() == s.len(),
        expired_table(s, now_ms, ack_timeout_ms)[k].chunk_index == s[k].chunk_index,
        timed_out(s[k], now_ms, ack_timeout_ms) ==> expired_table(s, now_ms, ack_timeout_ms)[k].retries == s[k].retries + 1
            && expired_table(s, now_ms, ack_timeout_ms)[k].sent_at_ms == now_ms,
        !timed_out(s[k], now_ms, ack_timeout_ms) ==> expired_table(s, now_ms, ack_timeout_ms)[k] == s[k],
{
    if timed_out(s[k], now_ms, ack_timeout_ms) {
        assert(s[k].retries < u32::MAX);
    }
}

/// Retries run out: a chunk that timed out at one pass and times out again
/// at a later pass, past the time-out after the first, fails the later pass
/// once the first pass brought its retries to the limit. So a chunk that
/// keeps timing out is sent at most `max_retries` more times.
pub proof fn lemma_repeated_timeouts_hit_the_limit(
    s: Seq<PendingAck>,
    k: int,
    first_ms: u64,
    second_ms: u64,
    ack_timeout_ms: u64,
    max_retries: u32,
)
    requires
        0 <= k < s.len(),
        timed_out(s[k], first_ms, ack_timeout_ms),
        s[k].retries < max_retries,
        s[k].retries + 1 >= max_retries,
        second_ms > first_ms,
        second_ms - first_ms > ack_timeout_ms,
    ensures
        timed_out(expired_table(s, first_ms, ack_timeout_ms)[k], second_ms, ack_timeout_ms),
        retries_exhausted(expired_table(s, first_ms, ack_timeout_ms), second_ms, ack_timeout_ms, max_retries),
{
    let e = expired_table(s, first_ms, ack_timeout_ms);
    assert(e[k].retries == s[k].retries + 1);
    assert(timed_out(e[k], second_ms, ack_timeout_ms) && e[k].retries >= max_retries);
}

} // verus!
