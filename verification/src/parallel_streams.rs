//! Parallel stream management: data is cut into chunks spread over
//! consecutive streams, and chunks are put back together by stream and
//! sequence number.

use vstd::prelude::*;
use crate::codec::append_bytes;

verus! {

/// Stream identifier.
pub type StreamId = u64;

/// Chunk of data to be sent on a stream.
#[derive(Debug, Clone)]
pub struct StreamChunk {
    /// Stream ID this chunk belongs to
    pub stream_id: StreamId,
    /// Chunk sequence number within the stream
    pub sequence: u64,
    /// Total number of chunks in this stream
    pub total_chunks: u64,
    /// Chunk data
    pub data: Vec<u8>,
    /// Whether this is the final chunk for this stream
    pub is_final: bool,
}

/// Stream state tracking.
#[derive(Debug, Clone, Copy, PartialEq, Eq, Structural)]
pub enum StreamState {
    /// Stream is idle
    Idle,
    /// Stream is actively sending
    Sending,
    /// Stream is actively receiving
    Receiving,
    /// Stream completed successfully
    Completed,
    /// Stream encountered an error
    Failed,
}

/// Statistics for a single stream.
#[derive(Debug, Clone, Copy, PartialEq, Eq, Structural)]
pub struct StreamStats {
    /// Stream ID
    pub stream_id: StreamId,
    /// Current state
    pub state: StreamState,
    /// Bytes sent on this stream
    pub bytes_sent: u64,
    /// Bytes received on this stream
    pub bytes_received: u64,
    /// Number of chunks sent
    pub chunks_sent: u64,
    /// Number of chunks received
    pub chunks_received: u64,
    /// Number of retransmissions
    pub retransmissions: u64,
    /// Average latency in microseconds
    pub avg_latency_us: u64,
}

/// Fresh statistics of a stream.
pub open spec fn fresh_stats(stream_id: StreamId) -> StreamStats {
    StreamStats {
        stream_id,
        state: StreamState::Idle,
        bytes_sent: 0,
        bytes_received: 0,
        chunks_sent: 0,
        chunks_received: 0,
        retransmissions: 0,
        avg_latency_us: 0,
    }
}

impl StreamStats {
    /// Statistics of a new, idle stream.
    pub fn new(stream_id: StreamId) -> (s: Self)
        ensures
            s == fresh_stats(stream_id),
    {
        StreamStats {
            stream_id,
            state: StreamState::Idle,
            bytes_sent: 0,
            bytes_received: 0,
            chunks_sent: 0,
            chunks_received: 0,
            retransmissions: 0,
            avg_latency_us: 0,
        }
    }
}

/// Configuration for parallel stream management.
#[derive(Debug, Clone, Copy, PartialEq, Eq, Structural)]
pub struct ParallelStreamConfig {
    /// Number of parallel streams to use
    pub stream_count: usize,
    /// Size of each chunk in bytes
    pub chunk_size: usize,
    /// Enable dynamic stream adjustment
    pub dynamic_adjustment: bool,
    /// Maximum retransmission attempts per chunk
    pub max_retransmissions: u32,
    /// Stream priority (0 = lowest, 255 = highest)
    pub priority: u8,
}

impl Default for ParallelStreamConfig {
    /// 4 streams of 1 MB chunks, dynamic adjustment, 3 retransmissions,
    /// medium priority.
    fn default() -> (c: Self)
        ensures
            c == (ParallelStreamConfig {
                stream_count: 4,
                chunk_size: 1048576,
                dynamic_adjustment: true,
                max_retransmissions: 3,
                priority: 128,
            }),
    {
        ParallelStreamConfig {
            stream_count: 4,
            chunk_size: 1048576,
            dynamic_adjustment: true,
            max_retransmissions: 3,
            priority: 128,
        }
    }
}

/// Why a stream operation failed.
#[derive(Debug, Clone, Copy, PartialEq, Eq, Structural)]
pub enum StreamError {
    /// No stream with this id was allocated.
    NotFound(StreamId),
}

/// `a / b` rounded up.
pub open spec fn ceil_div(a: int, b: int) -> int {
    (a + b - 1) / b
}

/// Splitting can proceed: positive chunk size and stream count, and no sum
/// in the rounding arithmetic overflows.
pub open spec fn split_ok(len: nat, chunk_size: usize, stream_count: usize) -> bool {
    &&& chunk_size > 0
    &&& stream_count > 0
    &&& len + chunk_size <= usize::MAX
    &&& ceil_div(len as int, chunk_size as int) + stream_count <= usize::MAX
}

/// Number of chunks on stream `s` when `n` chunks fill consecutive streams
/// with `per_stream` chunks each: a full stream, or what is left for the
/// last one.
pub open spec fn chunks_on_stream(s: int, n: int, per_stream: int) -> int {
    if (s + 1) * per_stream <= n {
        per_stream
    } else {
        n - s * per_stream
    }
}

/// Chunk `k` of the split: bytes `[k*cs, min((k+1)*cs, len))` of the data,
/// on stream `s` at sequence `q` where `k == s * per_stream + q` and
/// `q < per_stream`; it counts the chunks of its own stream, and it is final
/// when it is the last of its stream or of the data.
pub open spec fn split_chunk(c: StreamChunk, k: int, data: Seq<u8>, cs: int, per_stream: int) -> bool {
    let start = k * cs;
    let end = if start + cs < data.len() { start + cs } else { data.len() as int };
    &&& c.stream_id * per_stream + c.sequence == k
    &&& c.sequence < per_stream
    &&& c.total_chunks == chunks_on_stream(c.stream_id as int, ceil_div(data.len() as int, cs), per_stream)
    &&& c.data@ == data.subrange(start, end)
    &&& c.is_final == (c.sequence == per_stream - 1 || end >= data.len())
}

/// Sort key of a chunk: stream, then sequence.
pub open spec fn key_le(a: StreamChunk, b: StreamChunk) -> bool {
    a.stream_id < b.stream_id || (a.stream_id == b.stream_id && a.sequence <= b.sequence)
}

/// Number of leading chunks of `s` that sort at or before `x`.
pub open spec fn leading_le(s: Seq<StreamChunk>, x: StreamChunk) -> nat
    decreases s.len(),
{
    if s.len() > 0 && key_le(s[0], x) {
        1 + leading_le(s.drop_first(), x)
    } else {
        0
    }
}

/// `x` inserted into `s` after every leading chunk that sorts at or before it.
pub open spec fn insert_sorted(s: Seq<StreamChunk>, x: StreamChunk) -> Seq<StreamChunk> {
    s.insert(leading_le(s, x) as int, x)
}

/// Stable insertion sort of the chunks by (stream, sequence).
pub open spec fn sort_chunks(s: Seq<StreamChunk>) -> Seq<StreamChunk>
    decreases s.len(),
{
    if s.len() == 0 {
        s
    } else {
        insert_sorted(sort_chunks(s.drop_last()), s.last())
    }
}

/// The data of the chunks, one after the other.
pub open spec fn concat_data(s: Seq<StreamChunk>) -> Seq<u8>
    decreases s.len(),
{
    if s.len() == 0 {
        Seq::empty()
    } else {
        concat_data(s.drop_last()) + s.last().data@
    }
}

/// Chunks in order of (stream, sequence).
pub open spec fn keys_sorted(s: Seq<StreamChunk>) -> bool {
    forall|i: int, j: int| 0 <= i < j < s.len() ==> key_le(s[i], s[j])
}

/// Two chunks of the same stream at the same sequence number.
pub open spec fn same_key(a: StreamChunk, b: StreamChunk) -> bool {
    a.stream_id == b.stream_id && a.sequence == b.sequence
}

/// No two chunks share a (stream, sequence) key.
pub open spec fn keys_distinct(s: Seq<StreamChunk>) -> bool {
    forall|i: int, j: int| 0 <= i < s.len() && 0 <= j < s.len() && i != j ==> !same_key(#[trigger] s[i], #[trigger] s[j])
}

/// The chunks placed ahead of `x` by insertion all sort at or before it, and
/// the first one left behind sorts after it.
proof fn lemma_leading_le_split(s: Seq<StreamChunk>, x: StreamChunk)
    ensures
        leading_le(s, x) <= s.len(),
        forall|i: int| 0 <= i < leading_le(s, x) ==> key_le(#[trigger] s[i], x),
        leading_le(s, x) < s.len() ==> !key_le(s[leading_le(s, x) as int], x),
    decreases s.len(),
{
    if s.len() > 0 && key_le(s[0], x) {
        let t = s.drop_first();
        lemma_leading_le_split(t, x);
        assert forall|i: int| 0 <= i < leading_le(s, x) implies key_le(#[trigger] s[i], x) by {
            if i > 0 {
                assert(s[i] == t[i - 1]);
            }
        }
        if leading_le(s, x) < s.len() {
            assert(s[leading_le(s, x) as int] == t[leading_le(t, x) as int]);
        }
    }
}

/// Inserting a chunk into sorted chunks keeps them sorted.
proof fn lemma_insert_sorted_sorted(s: Seq<StreamChunk>, x: StreamChunk)
    requires
        keys_sorted(s),
    ensures
        keys_sorted(insert_sorted(s, x)),
{
    lemma_leading_le_split(s, x);
    let n = leading_le(s, x) as int;
    let r = insert_sorted(s, x);
    assert forall|i: int, j: int| 0 <= i < j < r.len() implies key_le(r[i], r[j]) by {
        if j < n {
            assert(r[i] == s[i] && r[j] == s[j]);
        } else if j == n {
            assert(r[j] == x && r[i] == s[i]);
        } else if i < n {
            assert(r[i] == s[i] && r[j] == s[j - 1]);
            assert(key_le(s[i], x));
            if n < s.len() {
                assert(key_le(s[n], s[j - 1]) || n == j - 1);
            }
        } else if i == n {
            assert(r[i] == x && r[j] == s[j - 1]);
            assert(!key_le(s[n], x));
            assert(key_le(s[n], s[j - 1]) || n == j - 1);
        } else {
            assert(r[i] == s[i - 1] && r[j] == s[j - 1]);
        }
    }
}

/// Sorting puts the chunks in (stream, sequence) order and keeps every
/// chunk, as often as it occurs.
pub proof fn lemma_sort_chunks_sorts(s: Seq<StreamChunk>)
    ensures
        keys_sorted(sort_chunks(s)),
        sort_chunks(s).to_multiset() == s.to_multiset(),
    decreases s.len(),
{
    broadcast use vstd::seq_lib::group_to_multiset_ensures;

    if s.len() > 0 {
        let init = s.drop_last();
        lemma_sort_chunks_sorts(init);
        let r = sort_chunks(init);
        lemma_insert_sorted_sorted(r, s.last());
        lemma_leading_le_split(r, s.last());
        vstd::seq_lib::to_multiset_insert(r, leading_le(r, s.last()) as int, s.last());
        assert(s == init.push(s.last()));
    }
}

/// Two sorted sequences of the same chunks are equal when no two chunks of
/// the first share a key.
proof fn lemma_sorted_same_chunks_equal(a: Seq<StreamChunk>, b: Seq<StreamChunk>)
    requires
        keys_sorted(a),
        keys_sorted(b),
        keys_distinct(a),
        a.to_multiset() == b.to_multiset(),
    ensures
        a == b,
    decreases a.len(),
{
    broadcast use vstd::seq_lib::group_to_multiset_ensures;

    assert(a.len() == a.to_multiset().len() && b.len() == b.to_multiset().len());
    if a.len() > 0 {
        assert(a.to_multiset().count(a[0]) > 0);
        assert(b.contains(a[0]));
        let k = choose|k: int| 0 <= k < b.len() && b[k] == a[0];
        assert(b.to_multiset().count(b[0]) > 0);
        assert(a.contains(b[0]));
        let m = choose|m: int| 0 <= m < a.len() && a[m] == b[0];
        if k > 0 {
            assert(key_le(b[0], b[k]));
            if m > 0 {
                assert(key_le(a[0], a[m]));
                assert(same_key(a[0], a[m]));
            }
        }
        assert(a[0] == b[0]);
        let a1 = a.drop_first();
        let b1 = b.drop_first();
        assert(a1.to_multiset() == a.to_multiset().remove(a[0])) by {
            assert(a1 == a.remove(0));
        }
        assert(b1.to_multiset() == b.to_multiset().remove(b[0])) by {
            assert(b1 == b.remove(0));
        }
        assert(keys_sorted(a1)) by {
            assert forall|i: int, j: int| 0 <= i < j < a1.len() implies key_le(a1[i], a1[j]) by {
                assert(a1[i] == a[i + 1] && a1[j] == a[j + 1]);
            }
        }
        assert(keys_sorted(b1)) by {
            assert forall|i: int, j: int| 0 <= i < j < b1.len() implies key_le(b1[i], b1[j]) by {
                assert(b1[i] == b[i + 1] && b1[j] == b[j + 1]);
            }
        }
        assert(keys_distinct(a1)) by {
            assert forall|i: int, j: int| 0 <= i < a1.len() && 0 <= j < a1.len() && i != j implies !same_key(
                #[trigger] a1[i],
                #[trigger] a1[j],
            ) by {
                assert(a1[i] == a[i + 1] && a1[j] == a[j + 1]);
            }
        }
        lemma_sorted_same_chunks_equal(a1, b1);
        assert(a =~= seq![a[0]] + a1);
        assert(b =~= seq![b[0]] + b1);
    }
}

/// The chunks that `split_data` made, handed over in any order, reassemble
/// to the data: sorting any arrangement of them gives them back in their
/// split order, whose data joins up to the original bytes.
pub proof fn lemma_reassemble_any_order(chunks: Seq<StreamChunk>, received: Seq<StreamChunk>, data: Seq<u8>)
    requires
        keys_sorted(chunks),
        keys_distinct(chunks),
        concat_data(chunks) == data,
        received.to_multiset() == chunks.to_multiset(),
    ensures
        concat_data(sort_chunks(received)) == data,
{
    lemma_sort_chunks_sorts(received);
    lemma_sorted_same_chunks_equal(chunks, sort_chunks(received));
}

proof fn lemma_leading_le_all(s: Seq<StreamChunk>, x: StreamChunk)
    requires
        forall|i: int| 0 <= i < s.len() ==> key_le(#[trigger] s[i], x),
    ensures
        leading_le(s, x) == s.len(),
    decreases s.len(),
{
    if s.len() > 0 {
        assert forall|i: int| 0 <= i < s.drop_first().len() implies key_le(#[trigger] s.drop_first()[i], x) by {
            assert(s.drop_first()[i] == s[i + 1]);
        }
        lemma_leading_le_all(s.drop_first(), x);
    }
}

/// Sorting chunks that are already in order changes nothing.
pub proof fn lemma_sorted_chunks_stay(s: Seq<StreamChunk>)
    requires
        keys_sorted(s),
    ensures
        sort_chunks(s) == s,
    decreases s.len(),
{
    if s.len() > 0 {
        let init = s.drop_last();
        assert(keys_sorted(init)) by {
            assert forall|i: int, j: int| 0 <= i < j < init.len() implies key_le(init[i], init[j]) by {
                assert(init[i] == s[i] && init[j] == s[j]);
            }
        }
        lemma_sorted_chunks_stay(init);
        assert forall|i: int| 0 <= i < init.len() implies key_le(#[trigger] init[i], s.last()) by {
            assert(init[i] == s[i]);
        }
        lemma_leading_le_all(init, s.last());
        assert(init.insert(init.len() as int, s.last()) =~= s);
    }
}

proof fn lemma_key_order(s1: int, q1: int, s2: int, q2: int, c: int)
    requires
        0 <= q1 < c,
        0 <= q2 < c,
        s1 >= 0,
        s2 >= 0,
        s1 * c + q1 < s2 * c + q2,
    ensures
        s1 < s2 || (s1 == s2 && q1 <= q2),
{
    if s1 > s2 {
        assert(s1 * c >= (s2 + 1) * c) by (nonlinear_arith)
            requires
                s1 >= s2 + 1,
                c > 0,
        ;
        assert((s2 + 1) * c == s2 * c + c) by (nonlinear_arith);
    } else if s1 == s2 {
    }
}

/// Putting back together what `split_data` made gives the data back: its
/// chunks are already in (stream, sequence) order, so sorting keeps them,
/// and their data joins up to the original bytes.
pub proof fn lemma_split_then_reassemble(chunks: Seq<StreamChunk>, data: Seq<u8>)
    requires
        keys_sorted(chunks),
        concat_data(chunks) == data,
    ensures
        concat_data(sort_chunks(chunks)) == data,
{
    lemma_sorted_chunks_stay(chunks);
}

/// Streams for a transfer of `file_size` bytes at `throughput_bps`.
pub open spec fn optimal_streams(file_size: u64, throughput_bps: u64) -> usize {
    if file_size < 10485760 {
        1
    } else if throughput_bps > 1_000_000_000 {
        8
    } else if throughput_bps > 100_000_000 {
        4
    } else {
        2
    }
}

/// The adjustment's arithmetic stays in range: the 80% and 120% marks of
/// the target, and the count that grows by one.
pub open spec fn adjust_ok(cfg: ParallelStreamConfig, current: u64, target: u64) -> bool {
    cfg.dynamic_adjustment ==> {
        &&& target * 80 <= u64::MAX
        &&& current < target * 80 / 100 ==> cfg.stream_count < usize::MAX
        &&& current >= target * 80 / 100 ==> target * 120 <= u64::MAX
    }
}

/// The stream count after an adjustment.
pub open spec fn adjusted_count(cfg: ParallelStreamConfig, current: u64, target: u64) -> usize {
    let n = cfg.stream_count;
    if !cfg.dynamic_adjustment {
        n
    } else if current < target * 80 / 100 {
        if n + 1 < 16 { (n + 1) as usize } else { 16 }
    } else if current > target * 120 / 100 {
        if n > 2 { (n - 1) as usize } else { 1 }
    } else {
        n
    }
}

/// Parallel stream manager.
pub struct ParallelStreamManager {
    config: ParallelStreamConfig,
    streams: Vec<StreamStats>,
    next_stream_id: StreamId,
}

impl ParallelStreamManager {
    /// The configuration in use.
    pub closed spec fn spec_config(&self) -> ParallelStreamConfig {
        self.config
    }

    /// Statistics of the allocated streams, by stream id.
    pub closed spec fn stats_view(&self) -> Seq<StreamStats> {
        self.streams@
    }

    /// The id the next allocated stream gets.
    pub closed spec fn next_id(&self) -> StreamId {
        self.next_stream_id
    }

    /// Stream `i` has id `i`, and the next id follows the last one.
    pub closed spec fn wf(&self) -> bool {
        &&& self.next_stream_id == self.streams@.len()
        &&& forall|i: int| 0 <= i < self.streams@.len() ==> (#[trigger] self.streams@[i]).stream_id == i
    }

    /// Create a new parallel stream manager.
    pub fn new(config: ParallelStreamConfig) -> (m: Self)
        ensures
            m.wf(),
            m.spec_config() == config,
            m.stats_view() == Seq::<StreamStats>::empty(),
            m.next_id() == 0,
    {
        ParallelStreamManager { config, streams: Vec::new(), next_stream_id: 0 }
    }

    /// Create with the default configuration.
    pub fn default() -> (m: Self)
        ensures
            m.wf(),
            m.spec_config() == (ParallelStreamConfig {
                stream_count: 4,
                chunk_size: 1048576,
                dynamic_adjustment: true,
                max_retransmissions: 3,
                priority: 128,
            }),
            m.stats_view() == Seq::<StreamStats>::empty(),
            m.next_id() == 0,
    {
        Self::new(ParallelStreamConfig::default())
    }

    /// Split data into chunks of `chunk_size` bytes (the last one shorter),
    /// spread over consecutive streams with `ceil(chunks / stream_count)`
    /// chunks each.
    pub fn split_data(&self, data: &[u8]) -> (r: Result<Vec<StreamChunk>, StreamError>)
        requires
            split_ok(data@.len(), self.spec_config().chunk_size, self.spec_config().stream_count),
        ensures
            r matches Ok(chunks) && {
                let cs = self.spec_config().chunk_size as int;
                let per_stream = ceil_div(ceil_div(data@.len() as int, cs), self.spec_config().stream_count as int);
                &&& chunks@.len() == ceil_div(data@.len() as int, cs)
                &&& forall|k: int| 0 <= k < chunks@.len() ==> split_chunk(#[trigger] chunks@[k], k, data@, cs, per_stream)
                &&& keys_sorted(chunks@)
                &&& keys_distinct(chunks@)
                &&& concat_data(chunks@) == data@
            },
    {
        let total_size = data.len();
        let stream_count = self.config.stream_count;
        let chunk_size = self.config.chunk_size;
        let total_chunks = (total_size + chunk_size - 1) / chunk_size;
        let chunks_per_stream = ((total_chunks + stream_count - 1) / stream_count) as u64;
        let ghost cs = chunk_size as int;
        let ghost cps = chunks_per_stream as int;
        let mut chunks: Vec<StreamChunk> = Vec::new();
        let mut offset: usize = 0;
        let mut current_stream: u64 = 0;
        let mut stream_chunk_count: u64 = 0;
        proof {
            assert(0 * cs == 0) by (nonlinear_arith);
            if total_size > 0 {
                assert(total_chunks >= 1) by (nonlinear_arith)
                    requires
                        total_size > 0,
                        chunk_size > 0,
                        total_chunks == (total_size + chunk_size - 1) / chunk_size as int,
                ;
                assert(chunks_per_stream >= 1) by (nonlinear_arith)
                    requires
                        total_chunks >= 1,
                        stream_count > 0,
                        chunks_per_stream == (total_chunks + stream_count - 1) / stream_count as int,
                ;
            }
            assert(data@.subrange(0, 0) =~= Seq::<u8>::empty());
        }
        while offset < total_size
            invariant
                total_size == data@.len(),
                chunk_size == cs,
                cs > 0,
                total_size > 0 ==> cps >= 1,
                cps == chunks_per_stream,
                total_chunks == ceil_div(total_size as int, cs),
                total_size + chunk_size <= usize::MAX,
                offset <= chunks@.len() * cs,
                offset < total_size ==> offset == chunks@.len() * cs,
                offset <= total_size,
                chunks@.len() <= total_size,
                chunks@.len() > 0 ==> (chunks@.len() - 1) * cs < total_size,
                current_stream * cps + stream_chunk_count == chunks@.len(),
                current_stream <= chunks@.len(),
                stream_chunk_count < cps || total_size == 0,
                forall|k: int| 0 <= k < chunks@.len() ==> split_chunk(#[trigger] chunks@[k], k, data@, cs, cps),
                concat_data(chunks@) == data@.subrange(0, offset as int),
            decreases total_size - offset,
        {
            let remaining = total_size - offset;
            let current_chunk_size = if remaining < chunk_size { remaining } else { chunk_size };
            let mut chunk_data: Vec<u8> = Vec::new();
            append_bytes(&mut chunk_data, vstd::slice::slice_subrange(data, offset, offset + current_chunk_size));
            let is_final = stream_chunk_count == chunks_per_stream - 1 || offset + current_chunk_size >= total_size;
            let ghost k = chunks@.len() as int;
            proof {
                assert(k < total_chunks) by (nonlinear_arith)
                    requires
                        k * cs < total_size,
                        cs > 0,
                        total_chunks == (total_size + cs - 1) / cs,
                ;
            }
            let stream_start = chunks.len() as u64 - stream_chunk_count;
            let left_in_data = total_chunks as u64 - stream_start;
            let in_stream = if left_in_data < chunks_per_stream { left_in_data } else { chunks_per_stream };
            proof {
                assert((current_stream + 1) * cps == current_stream * cps + cps) by (nonlinear_arith);
                assert(in_stream == chunks_on_stream(current_stream as int, total_chunks as int, cps));
            }
            let chunk = StreamChunk {
                stream_id: current_stream,
                sequence: stream_chunk_count,
                total_chunks: in_stream,
                data: chunk_data,
                is_final,
            };
            proof {
                assert(chunk.data@ == data@.subrange(offset as int, offset + current_chunk_size));
                assert(split_chunk(chunk, k, data@, cs, cps));
            }
            let ghost before = chunks@;
            chunks.push(chunk);
            proof {
                assert(chunks@.drop_last() =~= before);
                assert(data@.subrange(0, offset + current_chunk_size) =~= data@.subrange(0, offset as int)
                    + data@.subrange(offset as int, offset + current_chunk_size));
                assert forall|kk: int| 0 <= kk < chunks@.len() implies split_chunk(#[trigger] chunks@[kk], kk, data@, cs, cps) by {
                    if kk < k {
                        assert(chunks@[kk] == before[kk]);
                    }
                }
                assert((k + 1) * cs == k * cs + cs) by (nonlinear_arith);
                assert(current_stream * cps + stream_chunk_count + 1 == k + 1);
            }
            offset = offset + current_chunk_size;
            stream_chunk_count = stream_chunk_count + 1;
            if stream_chunk_count >= chunks_per_stream {
                proof {
                    assert((current_stream + 1) * cps == current_stream * cps + cps) by (nonlinear_arith);
                    assert(current_stream * cps >= current_stream) by (nonlinear_arith)
                        requires
                            cps >= 1,
                    ;
                    assert(current_stream + 1 <= chunks@.len());
                }
                current_stream = current_stream + 1;
                stream_chunk_count = 0;
            }
            proof {
                if offset < total_size {
                    assert(offset == (k + 1) * cs);
                } else {
                    assert(offset == total_size);
                }
                assert(k * cs >= k) by (nonlinear_arith)
                    requires
                        k >= 0,
                        cs >= 1,
                ;
            }
        }
        proof {
            let n = chunks@.len() as int;
            let len = total_size as int;
            if len > 0 {
                assert(n * cs >= len);
                assert((n - 1) * cs < len);
                assert(n == (len + cs - 1) / cs) by (nonlinear_arith)
                    requires
                        n * cs >= len,
                        (n - 1) * cs < len,
                        cs > 0,
                ;
            } else {
                assert(n == 0);
                assert((len + cs - 1) / cs == 0) by (nonlinear_arith)
                    requires
                        len == 0,
                        cs > 0,
                ;
            }
            assert(data@.subrange(0, len) =~= data@);
            assert forall|i: int, j: int| 0 <= i < j < n implies key_le(chunks@[i], chunks@[j]) by {
                let a = chunks@[i];
                let b = chunks@[j];
                assert(split_chunk(a, i, data@, cs, cps));
                assert(split_chunk(b, j, data@, cs, cps));
                lemma_key_order(a.stream_id as int, a.sequence as int, b.stream_id as int, b.sequence as int, cps);
            }
            assert forall|i: int, j: int| 0 <= i < n && 0 <= j < n && i != j implies !same_key(
                #[trigger] chunks@[i],
                #[trigger] chunks@[j],
            ) by {
                assert(split_chunk(chunks@[i], i, data@, cs, cps));
                assert(split_chunk(chunks@[j], j, data@, cs, cps));
            }
        }
        Ok(chunks)
    }

    /// Reassemble chunks: sort them stably by (stream, sequence) and join
    /// their data.
    pub fn reassemble_chunks(&self, chunks: Vec<StreamChunk>) -> (r: Result<Vec<u8>, StreamError>)
        ensures
            r matches Ok(v) && v@ == concat_data(sort_chunks(chunks@)),
    {
        let ghost orig = chunks@;
        assert(orig.len() == chunks.len());
        let mut rest = chunks;
        let mut sorted: Vec<StreamChunk> = Vec::new();
        let mut n: usize = 0;
        assert(orig.take(0) =~= Seq::<StreamChunk>::empty());
        assert(orig.skip(0) =~= orig);
        assert(orig.len() <= usize::MAX);
        while rest.len() > 0
            invariant
                orig.len() <= usize::MAX,
                n <= orig.len(),
                rest@ == orig.skip(n as int),
                sorted@ == sort_chunks(orig.take(n as int)),
            decreases rest@.len(),
        {
            let c = rest.remove(0);
            assert(c == orig[n as int]);
            let mut pos: usize = 0;
            assert(sorted@.skip(0) =~= sorted@);
            while pos < sorted.len() && (sorted[pos].stream_id < c.stream_id || (sorted[pos].stream_id
                == c.stream_id && sorted[pos].sequence <= c.sequence))
                invariant
                    pos <= sorted@.len(),
                    leading_le(sorted@, c) == pos + leading_le(sorted@.skip(pos as int), c),
                decreases sorted@.len() - pos,
            {
                assert(sorted@.skip(pos as int).drop_first() =~= sorted@.skip(pos + 1));
                pos = pos + 1;
            }
            assert(leading_le(sorted@.skip(pos as int), c) == 0);
            sorted.insert(pos, c);
            proof {
                assert(orig.take(n + 1).drop_last() =~= orig.take(n as int));
                assert(orig.take(n + 1).last() == c);
                assert(orig.skip(n as int).drop_first() =~= orig.skip(n + 1));
            }
            n = n + 1;
        }
        assert(orig.take(n as int) =~= orig);
        let mut result: Vec<u8> = Vec::new();
        let mut i: usize = 0;
        while i < sorted.len()
            invariant
                i <= sorted@.len(),
                result@ == concat_data(sorted@.take(i as int)),
            decreases sorted@.len() - i,
        {
            append_bytes(&mut result, sorted[i].data.as_slice());
            assert(sorted@.take(i + 1).drop_last() =~= sorted@.take(i as int));
            i = i + 1;
        }
        assert(sorted@.take(sorted@.len() as int) =~= sorted@);
        Ok(result)
    }

    /// Allocate a new stream: it gets the next id, and idle statistics.
    pub fn allocate_stream(&mut self) -> (r: Result<StreamId, StreamError>)
        requires
            old(self).wf(),
            old(self).next_id() < u64::MAX,
        ensures
            final(self).wf(),
            r == Ok::<StreamId, StreamError>(old(self).next_id()),
            final(self).next_id() == old(self).next_id() + 1,
            final(self).stats_view() == old(self).stats_view().push(fresh_stats(old(self).next_id())),
            final(self).spec_config() == old(self).spec_config(),
    {
        let stream_id = self.next_stream_id;
        self.next_stream_id = self.next_stream_id + 1;
        self.streams.push(StreamStats::new(stream_id));
        Ok(stream_id)
    }

    /// Add sent bytes and chunks to a stream's statistics and mark it as
    /// sending; fails when no stream has this id.
    pub fn update_stream_stats(&mut self, stream_id: StreamId, bytes_sent: u64, chunks_sent: u64) -> (r: Result<(), StreamError>)
        requires
            old(self).wf(),
            stream_id < old(self).stats_view().len() ==> {
                let st = old(self).stats_view()[stream_id as int];
                &&& st.bytes_sent + bytes_sent <= u64::MAX
                &&& st.chunks_sent + chunks_sent <= u64::MAX
            },
        ensures
            final(self).wf(),
            final(self).spec_config() == old(self).spec_config(),
            final(self).next_id() == old(self).next_id(),
            stream_id < old(self).stats_view().len() ==> {
                let st = old(self).stats_view()[stream_id as int];
                &&& r == Ok::<(), StreamError>(())
                &&& final(self).stats_view() == old(self).stats_view().update(
                    stream_id as int,
                    StreamStats {
                        state: StreamState::Sending,
                        bytes_sent: (st.bytes_sent + bytes_sent) as u64,
                        chunks_sent: (st.chunks_sent + chunks_sent) as u64,
                        ..st
                    },
                )
            },
            stream_id >= old(self).stats_view().len() ==> {
                &&& r == Err::<(), StreamError>(StreamError::NotFound(stream_id))
                &&& final(self).stats_view() == old(self).stats_view()
            },
    {
        if stream_id < self.next_stream_id {
            assert(self.streams@.len() == self.streams.len());
            let i = stream_id as usize;
            let mut st = self.streams[i];
            assert(st == self.streams@[i as int]);
            st.bytes_sent = st.bytes_sent + bytes_sent;
            st.chunks_sent = st.chunks_sent + chunks_sent;
            st.state = StreamState::Sending;
            self.streams.set(i, st);
            Ok(())
        } else {
            Err(StreamError::NotFound(stream_id))
        }
    }

    /// Mark a stream as completed; an unknown id is left alone.
    pub fn complete_stream(&mut self, stream_id: StreamId) -> (r: Result<(), StreamError>)
        requires
            old(self).wf(),
        ensures
            final(self).wf(),
            r == Ok::<(), StreamError>(()),
            final(self).spec_config() == old(self).spec_config(),
            final(self).next_id() == old(self).next_id(),
            stream_id < old(self).stats_view().len() ==> final(self).stats_view() == old(self).stats_view().update(
                stream_id as int,
                StreamStats { state: StreamState::Completed, ..old(self).stats_view()[stream_id as int] },
            ),
            stream_id >= old(self).stats_view().len() ==> final(self).stats_view() == old(self).stats_view(),
    {
        if stream_id < self.next_stream_id {
            assert(self.streams@.len() == self.streams.len());
            let i = stream_id as usize;
            let mut st = self.streams[i];
            st.state = StreamState::Completed;
            self.streams.set(i, st);
        }
        Ok(())
    }

    /// Statistics of every allocated stream.
    pub fn get_all_stats(&self) -> (v: Vec<StreamStats>)
        ensures
            v@ == self.stats_view(),
    {
        let mut v: Vec<StreamStats> = Vec::new();
        let mut i: usize = 0;
        while i < self.streams.len()
            invariant
                i <= self.streams@.len(),
                v@ == self.streams@.take(i as int),
            decreases self.streams@.len() - i,
        {
            v.push(self.streams[i]);
            assert(self.streams@.take(i + 1) =~= self.streams@.take(i as int).push(self.streams@[i as int]));
            i = i + 1;
        }
        assert(self.streams@.take(i as int) =~= self.streams@);
        v
    }

    /// Statistics of one stream; fails when no stream has this id.
    pub fn get_stream_stats(&self, stream_id: StreamId) -> (r: Result<StreamStats, StreamError>)
        requires
            self.wf(),
        ensures
            stream_id < self.stats_view().len() ==> r == Ok::<StreamStats, StreamError>(self.stats_view()[stream_id as int]),
            stream_id >= self.stats_view().len() ==> r == Err::<StreamStats, StreamError>(StreamError::NotFound(stream_id)),
    {
        if stream_id < self.next_stream_id {
            assert(self.streams@.len() == self.streams.len());
            Ok(self.streams[stream_id as usize])
        } else {
            Err(StreamError::NotFound(stream_id))
        }
    }

    /// Stream count for a transfer: one stream below 10 MB, else 8 above
    /// 1 Gbps, 4 above 100 Mbps and 2 otherwise.
    pub fn calculate_optimal_streams(file_size: u64, throughput_bps: u64) -> (n: usize)
        ensures
            n == optimal_streams(file_size, throughput_bps),
    {
        if file_size < 10485760 {
            return 1;
        }
        if throughput_bps > 1_000_000_000 {
            8
        } else if throughput_bps > 100_000_000 {
            4
        } else {
            2
        }
    }

    /// With dynamic adjustment on, add a stream (at most 16) when the
    /// throughput is under 80% of the target, drop one (at least 1) when it
    /// is over 120%; otherwise the count stays.
    pub fn adjust_stream_count(&mut self, current_throughput: u64, target_throughput: u64)
        requires
            adjust_ok(old(self).spec_config(), current_throughput, target_throughput),
        ensures
            final(self).spec_config() == (ParallelStreamConfig {
                stream_count: adjusted_count(old(self).spec_config(), current_throughput, target_throughput),
                ..old(self).spec_config()
            }),
            final(self).stats_view() == old(self).stats_view(),
            final(self).next_id() == old(self).next_id(),
            final(self).wf() == old(self).wf(),
    {
        if !self.config.dynamic_adjustment {
            return;
        }
        let current_count = self.config.stream_count;
        let new_count = if current_throughput < target_throughput * 80 / 100 {
            let up = current_count + 1;
            if up < 16 { up } else { 16 }
        } else if current_throughput > target_throughput * 120 / 100 {
            let down = if current_count > 0 { current_count - 1 } else { 0 };
            if down > 1 { down } else { 1 }
        } else {
            current_count
        };
        if new_count != current_count {
            self.config.stream_count = new_count;
        }
    }

    /// Forget every stream; ids start again from 0.
    pub fn reset(&mut self)
        ensures
            final(self).wf(),
            final(self).stats_view() == Seq::<StreamStats>::empty(),
            final(self).next_id() == 0,
            final(self).spec_config() == old(self).spec_config(),
    {
        self.streams = Vec::new();
        self.next_stream_id = 0;
    }

    /// Current stream count.
    pub fn stream_count(&self) -> (n: usize)
        ensures
            n == self.spec_config().stream_count,
    {
        self.config.stream_count
    }

    /// Chunk size.
    pub fn chunk_size(&self) -> (n: usize)
        ensures
            n == self.spec_config().chunk_size,
    {
        self.config.chunk_size
    }
}

} // verus!
