//! Configuration of parallel transfers over several streams, and the byte
//! tally of a batch of chunks sent in parallel.

use vstd::prelude::*;

verus! {

/// Configuration for parallel transfers.
#[derive(Debug, Clone, Copy, PartialEq, Eq, Structural)]
pub struct ParallelConfig {
    /// Number of parallel streams to use
    pub num_streams: usize,
    /// Maximum number of chunks in flight per stream
    pub chunks_per_stream: usize,
    /// Buffer size for each stream
    pub stream_buffer_size: usize,
    /// Enable stream multiplexing
    pub enable_multiplexing: bool,
}

impl Default for ParallelConfig {
    /// 4 streams, 8 chunks in flight each, 64 KB buffers, multiplexed.
    fn default() -> (c: Self)
        ensures
            c == (ParallelConfig {
                num_streams: 4,
                chunks_per_stream: 8,
                stream_buffer_size: 65536,
                enable_multiplexing: true,
            }),
    {
        ParallelConfig { num_streams: 4, chunks_per_stream: 8, stream_buffer_size: 65536, enable_multiplexing: true }
    }
}

/// Total number of bytes in a batch of chunks.
pub open spec fn batch_bytes(chunks: Seq<(u64, Vec<u8>)>) -> int
    decreases chunks.len(),
{
    if chunks.len() == 0 {
        0
    } else {
        batch_bytes(chunks.drop_last()) + chunks.last().1@.len()
    }
}

proof fn lemma_batch_prefix(chunks: Seq<(u64, Vec<u8>)>, i: int)
    requires
        0 <= i <= chunks.len(),
    ensures
        0 <= batch_bytes(chunks.take(i)) <= batch_bytes(chunks),
    decreases chunks.len(),
{
    if chunks.len() > 0 {
        if i == chunks.len() {
            assert(chunks.take(i) =~= chunks);
            lemma_batch_prefix(chunks.drop_last(), i - 1);
            assert(chunks.drop_last().take(i - 1) =~= chunks.drop_last());
        } else {
            assert(chunks.take(i) =~= chunks.drop_last().take(i));
            lemma_batch_prefix(chunks.drop_last(), i);
        }
    } else {
        assert(chunks.take(i) =~= chunks);
    }
}

/// Bytes in a batch of `(chunk id, data)` pairs sent in parallel.
pub fn total_chunk_bytes(chunks: &Vec<(u64, Vec<u8>)>) -> (n: u64)
    requires
        batch_bytes(chunks@) <= u64::MAX,
    ensures
        n == batch_bytes(chunks@),
{
    let mut total: u64 = 0;
    let mut i: usize = 0;
    while i < chunks.len()
        invariant
            i <= chunks@.len(),
            batch_bytes(chunks@) <= u64::MAX,
            total == batch_bytes(chunks@.take(i as int)),
        decreases chunks@.len() - i,
    {
        proof {
            assert(chunks@.take(i + 1).drop_last() =~= chunks@.take(i as int));
            lemma_batch_prefix(chunks@, i + 1);
        }
        total = total + chunks[i].1.len() as u64;
        i = i + 1;
    }
    assert(chunks@.take(i as int) =~= chunks@);
    total
}

} // verus!
