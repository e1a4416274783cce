//! Adaptive tuning of a transfer: buffer size from the bandwidth-delay
//! product, stream count from file size and throughput, and chunk size
//! from the stream count.

use vstd::prelude::*;

verus! {

/// Compression strategy based on data characteristics.
#[derive(Debug, Clone, Copy, PartialEq, Eq, Structural)]
pub enum CompressionStrategy {
    /// No compression (for pre-compressed data)
    NoCompression,
    /// Fast compression (LZ4-like, low CPU)
    Fast,
    /// Balanced compression (Zstandard-like, medium CPU)
    Balanced,
    /// Maximum compression (GZIP-like, high CPU)
    Maximum,
}

/// Parallel stream configuration.
#[derive(Debug, Clone, Copy, PartialEq, Eq, Structural)]
pub struct ParallelStreamConfig {
    /// Number of parallel streams
    pub stream_count: usize,
    /// Chunk size per stream
    pub chunk_size: usize,
    /// Enable dynamic stream adjustment
    pub dynamic_adjustment: bool,
}

impl Default for ParallelStreamConfig {
    /// 4 streams of 1 MB chunks, adjusted dynamically.
    fn default() -> (c: Self)
        ensures
            c == (ParallelStreamConfig { stream_count: 4, chunk_size: 1048576, dynamic_adjustment: true }),
    {
        ParallelStreamConfig { stream_count: 4, chunk_size: 1048576, dynamic_adjustment: true }
    }
}

/// Adaptive tuning configuration.
#[derive(Debug, Clone, Copy, PartialEq, Eq, Structural)]
pub struct AdaptiveTuningConfig {
    /// Enable adaptive compression
    pub enable_compression: bool,
    /// Enable parallel streams
    pub enable_parallel_streams: bool,
    /// Enable dynamic buffer sizing
    pub enable_dynamic_buffers: bool,
    /// Minimum buffer size
    pub min_buffer_size: usize,
    /// Maximum buffer size
    pub max_buffer_size: usize,
    /// Parallel stream configuration
    pub parallel_config: ParallelStreamConfig,
}

impl Default for AdaptiveTuningConfig {
    /// Everything enabled; buffers between 64 KB and 16 MB; default streams.
    fn default() -> (c: Self)
        ensures
            c == (AdaptiveTuningConfig {
                enable_compression: true,
                enable_parallel_streams: true,
                enable_dynamic_buffers: true,
                min_buffer_size: 65536,
                max_buffer_size: 16777216,
                parallel_config: ParallelStreamConfig { stream_count: 4, chunk_size: 1048576, dynamic_adjustment: true },
            }),
    {
        AdaptiveTuningConfig {
            enable_compression: true,
            enable_parallel_streams: true,
            enable_dynamic_buffers: true,
            min_buffer_size: 65536,
            max_buffer_size: 16777216,
            parallel_config: ParallelStreamConfig::default(),
        }
    }
}

/// Buffer size: the bandwidth-delay product `throughput * latency_ms /
/// 1000` (rounded down, at most `usize::MAX`), raised to the minimum and
/// then lowered to the maximum; the minimum alone without dynamic buffers.
pub open spec fn spec_buffer_size(c: AdaptiveTuningConfig, throughput_bps: u64, latency_ms: u64) -> usize {
    if !c.enable_dynamic_buffers {
        c.min_buffer_size
    } else {
        let product = throughput_bps * latency_ms / 1000;
        let bdp = if product > usize::MAX { usize::MAX as int } else { product };
        let raised = if bdp > c.min_buffer_size { bdp } else { c.min_buffer_size as int };
        (if raised < c.max_buffer_size { raised } else { c.max_buffer_size as int }) as usize
    }
}

/// Stream count: one without parallel streams or below 10 MB; the
/// configured count without dynamic adjustment; else 8, 4 or 2 by
/// throughput (above 1 GB/s, above 100 MB/s, otherwise) plus one per full
/// 100 MB (at most 8 more), capped at twice the configured count.
pub open spec fn spec_stream_count(c: AdaptiveTuningConfig, file_size: u64, throughput_bps: u64) -> usize {
    let pc = c.parallel_config;
    if !c.enable_parallel_streams {
        1
    } else if !pc.dynamic_adjustment {
        pc.stream_count
    } else if file_size < 10485760 {
        1
    } else {
        let base: int = if throughput_bps > 1_000_000_000 {
            8
        } else if throughput_bps > 100_000_000 {
            4
        } else {
            2
        };
        let per_100mb = file_size / 104857600;
        let streams = base + if per_100mb < 8 { per_100mb as int } else { 8 };
        (if streams < pc.stream_count * 2 { streams } else { pc.stream_count * 2 }) as usize
    }
}

/// Chunk size for `stream_count` streams: the whole file for at most one
/// stream, else the file divided evenly, rounded up to whole megabytes,
/// at least one megabyte.
pub open spec fn spec_chunk_size(file_size: u64, stream_count: usize) -> usize {
    if stream_count <= 1 {
        file_size as usize
    } else {
        let base = ((file_size as int) / (stream_count as int)) as usize;
        let aligned = (base + 1048575) / 1048576 * 1048576;
        (if aligned > 1048576 { aligned } else { 1048576 }) as usize
    }
}

/// Adaptive tuning engine.
pub struct AdaptiveTuning {
    config: AdaptiveTuningConfig,
}

impl AdaptiveTuning {
    /// The configuration in use.
    pub closed spec fn spec_config(&self) -> AdaptiveTuningConfig {
        self.config
    }

    /// Create a new adaptive tuning engine.
    pub fn new(config: AdaptiveTuningConfig) -> (t: Self)
        ensures
            t.spec_config() == config,
    {
        AdaptiveTuning { config }
    }

    /// Create with the default configuration.
    pub fn default() -> (t: Self)
        ensures
            t.spec_config() == (AdaptiveTuningConfig {
                enable_compression: true,
                enable_parallel_streams: true,
                enable_dynamic_buffers: true,
                min_buffer_size: 65536,
                max_buffer_size: 16777216,
                parallel_config: ParallelStreamConfig { stream_count: 4, chunk_size: 1048576, dynamic_adjustment: true },
            }),
    {
        Self::new(AdaptiveTuningConfig::default())
    }

    /// The configuration in use.
    pub fn config(&self) -> (c: AdaptiveTuningConfig)
        ensures
            c == self.spec_config(),
    {
        self.config
    }

    /// Buffer size for a throughput and a latency, from the bandwidth-delay
    /// product within the configured bounds.
    pub fn calculate_buffer_size(&self, throughput_bps: u64, latency_ms: u64) -> (n: usize)
        ensures
            n == spec_buffer_size(self.spec_config(), throughput_bps, latency_ms),
    {
        if !self.config.enable_dynamic_buffers {
            return self.config.min_buffer_size;
        }
        assert((throughput_bps as int) * (latency_ms as int) <= u64::MAX * u64::MAX) by (nonlinear_arith);
        let product: u128 = (throughput_bps as u128) * (latency_ms as u128) / 1000;
        let bdp: usize = if product > usize::MAX as u128 {
            usize::MAX
        } else {
            product as usize
        };
        let raised = if bdp > self.config.min_buffer_size { bdp } else { self.config.min_buffer_size };
        if raised < self.config.max_buffer_size {
            raised
        } else {
            self.config.max_buffer_size
        }
    }

    /// Number of parallel streams for a file size and a throughput.
    pub fn calculate_stream_count(&self, file_size: u64, throughput_bps: u64) -> (n: usize)
        requires
            self.spec_config().enable_parallel_streams && self.spec_config().parallel_config.dynamic_adjustment
                && file_size >= 10485760 ==> self.spec_config().parallel_config.stream_count * 2 <= usize::MAX,
        ensures
            n == spec_stream_count(self.spec_config(), file_size, throughput_bps),
    {
        if !self.config.enable_parallel_streams {
            return 1;
        }
        let pc = self.config.parallel_config;
        if !pc.dynamic_adjustment {
            return pc.stream_count;
        }
        if file_size < 10485760 {
            return 1;
        }
        let base: usize = if throughput_bps > 1_000_000_000 {
            8
        } else if throughput_bps > 100_000_000 {
            4
        } else {
            2
        };
        let per_100mb = file_size / 104857600;
        let extra: usize = if per_100mb < 8 { per_100mb as usize } else { 8 };
        let streams = base + extra;
        let cap = pc.stream_count * 2;
        if streams < cap {
            streams
        } else {
            cap
        }
    }

    /// Chunk size for a file spread over `stream_count` streams.
    pub fn calculate_chunk_size(&self, file_size: u64, stream_count: usize) -> (n: usize)
        requires
            stream_count > 1 ==> ((file_size as int) / (stream_count as int)) as usize + 1048575 <= usize::MAX,
        ensures
            n == spec_chunk_size(file_size, stream_count),
    {
        if stream_count <= 1 {
            return file_size as usize;
        }
        let base_chunk = (file_size / stream_count as u64) as usize;
        let chunk_mb = (base_chunk + 1048575) / 1048576;
        let aligned = chunk_mb * 1048576;
        if aligned > 1048576 {
            aligned
        } else {
            1048576
        }
    }
}

/// The buffer size lies within the configured bounds whenever they are
/// ordered.
pub proof fn lemma_buffer_size_within_bounds(c: AdaptiveTuningConfig, throughput_bps: u64, latency_ms: u64)
    requires
        c.min_buffer_size <= c.max_buffer_size,
    ensures
        c.min_buffer_size <= spec_buffer_size(c, throughput_bps, latency_ms) <= c.max_buffer_size,
{
}

/// With more than one stream the chunk size is a positive whole number of
/// megabytes.
pub proof fn lemma_chunk_size_aligned(file_size: u64, stream_count: usize)
    requires
        stream_count > 1,
        ((file_size as int) / (stream_count as int)) as usize + 1048575 <= usize::MAX,
    ensures
        spec_chunk_size(file_size, stream_count) >= 1048576,
        spec_chunk_size(file_size, stream_count) % 1048576 == 0,
{
    let base = ((file_size as int) / (stream_count as int)) as usize;
    let q = (base + 1048575) / 1048576;
    assert((q * 1048576) % 1048576 == 0) by (nonlinear_arith);
}

/// How many bytes of `data` that select a compression strategy are looked at.
pub open spec fn sample_len(len: nat) -> nat {
    if len < 1024 {
        len
    } else {
        1024
    }
}

/// Occurrences of byte `b` in `s`.
pub open spec fn byte_count(s: Seq<u8>, b: u8) -> nat
    decreases s.len(),
{
    if s.len() == 0 {
        0
    } else {
        byte_count(s.drop_last(), b) + (if s.last() == b { 1nat } else { 0nat })
    }
}

proof fn lemma_byte_count_bound(s: Seq<u8>, b: u8)
    ensures
        byte_count(s, b) <= s.len(),
    decreases s.len(),
{
    if s.len() > 0 {
        lemma_byte_count_bound(s.drop_last(), b);
    }
}

/// Byte histogram of the sample (the first 1 KB) of `data`: entry `b`
/// counts the occurrences of byte `b`. The entropy that picks a
/// compression strategy is computed from it.
pub fn sample_byte_counts(data: &[u8]) -> (counts: Vec<u32>)
    ensures
        counts@.len() == 256,
        forall|b: u8| #[trigger] counts@[b as int] == byte_count(data@.take(sample_len(data@.len()) as int), b),
{
    let n: usize = if data.len() < 1024 {
        data.len()
    } else {
        1024
    };
    let ghost sample = data@.take(n as int);
    let mut counts: Vec<u32> = Vec::new();
    let mut b: usize = 0;
    while b < 256
        invariant
            b <= 256,
            counts@.len() == b,
            forall|j: int| 0 <= j < b ==> counts@[j] == 0,
        decreases 256 - b,
    {
        counts.push(0);
        b = b + 1;
    }
    let mut i: usize = 0;
    assert(sample.take(0) =~= Seq::<u8>::empty());
    while i < n
        invariant
            n == sample_len(data@.len()),
            n <= data@.len(),
            n <= 1024,
            sample == data@.take(n as int),
            i <= n,
            counts@.len() == 256,
            forall|x: u8| #[trigger] counts@[x as int] == byte_count(sample.take(i as int), x),
        decreases n - i,
    {
        let x = data[i];
        proof {
            assert(sample.take(i + 1).drop_last() =~= sample.take(i as int));
            assert(sample.take(i + 1).last() == x);
            lemma_byte_count_bound(sample.take(i as int), x);
        }
        let c = counts[x as usize];
        counts.set(x as usize, c + 1);
        proof {
            assert forall|y: u8| #[trigger] counts@[y as int] == byte_count(sample.take(i + 1), y) by {
                if y != x {
                    assert((y as int) != (x as int));
                }
            }
        }
        i = i + 1;
    }
    proof {
        assert(sample.take(n as int) =~= sample);
    }
    counts
}

/// The smaller of two counts.
pub open spec fn min_count(a: int, b: int) -> int {
    if a < b {
        a
    } else {
        b
    }
}

/// With parallel streams and dynamic adjustment on, a file of at least
/// 10 MB gets base streams by throughput band (2 up to 100 MB/s, 4 above
/// that up to 1 GB/s, 8 above 1 GB/s), one more per whole 100 MiB of the
/// file up to 8 more, and never more than twice the configured stream count.
/// Files under 10 MB use one stream, and with dynamic adjustment off the
/// configured count is used.
pub proof fn lemma_stream_count_by_band(c: AdaptiveTuningConfig, file_size: u64, throughput_bps: u64)
    requires
        c.parallel_config.stream_count * 2 <= usize::MAX,
    ensures
        ({
            let extra = min_count((file_size / 104857600) as int, 8);
            let cap = c.parallel_config.stream_count * 2;
            let n = spec_stream_count(c, file_size, throughput_bps) as int;
            &&& !c.enable_parallel_streams ==> n == 1
            &&& c.enable_parallel_streams && !c.parallel_config.dynamic_adjustment ==> n == c.parallel_config.stream_count
            &&& c.enable_parallel_streams && c.parallel_config.dynamic_adjustment ==> {
                &&& file_size < 10_485_760 ==> n == 1
                &&& file_size >= 10_485_760 && throughput_bps <= 100_000_000 ==> n == min_count(2 + extra, cap)
                &&& file_size >= 10_485_760 && 100_000_000 < throughput_bps <= 1_000_000_000 ==> n == min_count(
                    4 + extra,
                    cap,
                )
                &&& file_size >= 10_485_760 && throughput_bps > 1_000_000_000 ==> n == min_count(8 + extra, cap)
            }
        }),
{
}

/// A faster link never gets fewer streams, nor does a bigger file (with at
/// least one configured stream).
pub proof fn lemma_stream_count_monotone(c: AdaptiveTuningConfig, f1: u64, f2: u64, t1: u64, t2: u64)
    requires
        1 <= c.parallel_config.stream_count,
        c.parallel_config.stream_count * 2 <= usize::MAX,
        f1 <= f2,
        t1 <= t2,
    ensures
        spec_stream_count(c, f1, t1) <= spec_stream_count(c, f2, t2),
{
    assert(f1 / 104857600 <= f2 / 104857600) by (nonlinear_arith)
        requires
            f1 <= f2,
    ;
}

} // verus!
