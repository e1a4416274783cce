//! Storage I/O strategy selection and direct-I/O alignment arithmetic.
//!
//! Reading and writing files is done by the caller with the strategy chosen
//! here.

use vstd::prelude::*;

verus! {

/// Direct I/O alignment requirement.
pub const DIRECT_IO_ALIGNMENT: usize = 4096;

/// Read-ahead buffer size (1 MB).
pub const READAHEAD_SIZE: usize = 1048576;

/// Threshold for using direct I/O (10 MB).
pub const DIRECT_IO_THRESHOLD: u64 = 10485760;

/// I/O strategy selection based on file characteristics.
#[derive(Debug, Clone, Copy, PartialEq, Eq, Structural)]
pub enum IoStrategy {
    /// Standard buffered I/O (for small files)
    Buffered,
    /// Direct I/O bypassing page cache (for large files)
    Direct,
    /// Memory-mapped I/O (for random access)
    MemoryMapped,
    /// Parallel I/O with multiple streams
    Parallel,
}

/// Storage I/O configuration.
#[derive(Debug, Clone, Copy, PartialEq, Eq, Structural)]
pub struct StorageIoConfig {
    /// Enable direct I/O for large files
    pub enable_direct_io: bool,
    /// Enable read-ahead optimization
    pub enable_readahead: bool,
    /// Number of parallel I/O streams
    pub parallel_streams: usize,
    /// Direct I/O threshold in bytes
    pub direct_io_threshold: u64,
    /// Read-ahead buffer size
    pub readahead_size: usize,
}

impl Default for StorageIoConfig {
    /// Direct I/O and read-ahead on, 4 streams, 10 MB threshold, 1 MB read-ahead.
    fn default() -> (c: Self)
        ensures
            c == (StorageIoConfig {
                enable_direct_io: true,
                enable_readahead: true,
                parallel_streams: 4,
                direct_io_threshold: DIRECT_IO_THRESHOLD,
                readahead_size: READAHEAD_SIZE,
            }),
    {
        StorageIoConfig {
            enable_direct_io: true,
            enable_readahead: true,
            parallel_streams: 4,
            direct_io_threshold: DIRECT_IO_THRESHOLD,
            readahead_size: READAHEAD_SIZE,
        }
    }
}

/// The strategy for a file: large files (over the threshold, with
/// direct I/O enabled) go direct when read sequentially and memory-mapped
/// otherwise; files over 1 MB go parallel when more than one stream is
/// configured; the rest are buffered.
pub open spec fn spec_select_strategy(c: StorageIoConfig, file_size: u64, sequential: bool) -> IoStrategy {
    if file_size > c.direct_io_threshold && c.enable_direct_io {
        if sequential {
            IoStrategy::Direct
        } else {
            IoStrategy::MemoryMapped
        }
    } else if file_size > 1048576 && c.parallel_streams > 1 {
        IoStrategy::Parallel
    } else {
        IoStrategy::Buffered
    }
}

/// Storage I/O optimizer.
pub struct StorageIo {
    config: StorageIoConfig,
}

impl StorageIo {
    /// The optimizer's configuration.
    pub closed spec fn spec_config(&self) -> StorageIoConfig {
        self.config
    }

    /// Create a new storage I/O optimizer.
    pub fn new(config: StorageIoConfig) -> (s: Self)
        ensures
            s.spec_config() == config,
    {
        StorageIo { config }
    }

    /// Create with default configuration.
    pub fn default() -> (s: Self)
        ensures
            s.spec_config() == (StorageIoConfig {
                enable_direct_io: true,
                enable_readahead: true,
                parallel_streams: 4,
                direct_io_threshold: DIRECT_IO_THRESHOLD,
                readahead_size: READAHEAD_SIZE,
            }),
    {
        Self::new(StorageIoConfig::default())
    }

    /// The configuration in use.
    pub fn config(&self) -> (c: StorageIoConfig)
        ensures
            c == self.spec_config(),
    {
        self.config
    }

    /// Select optimal I/O strategy for a file.
    pub fn select_strategy(&self, file_size: u64, sequential: bool) -> (r: IoStrategy)
        ensures
            r == spec_select_strategy(self.spec_config(), file_size, sequential),
    {
        Self::select_strategy_static(&self.config, file_size, sequential)
    }

    /// Select the I/O strategy under a given configuration.
    pub fn select_strategy_static(config: &StorageIoConfig, file_size: u64, sequential: bool) -> (r: IoStrategy)
        ensures
            r == spec_select_strategy(*config, file_size, sequential),
    {
        if file_size > config.direct_io_threshold && config.enable_direct_io {
            if sequential {
                IoStrategy::Direct
            } else {
                IoStrategy::MemoryMapped
            }
        } else if file_size > 1048576 && config.parallel_streams > 1 {
            IoStrategy::Parallel
        } else {
            IoStrategy::Buffered
        }
    }

    /// Align size up to the nearest multiple of alignment (a power of two).
    pub fn align_up(size: usize, alignment: usize) -> (r: usize)
        requires
            alignment >= 1,
            size + alignment <= usize::MAX,
        ensures
            r == (size + alignment - 1) as usize & !((alignment - 1) as usize),
    {
        (size + alignment - 1) & !(alignment - 1)
    }

    /// Check if a size is a multiple of the alignment.
    pub fn is_aligned(size: usize, alignment: usize) -> (r: bool)
        requires
            alignment > 0,
        ensures
            r == (size % alignment == 0),
    {
        size % alignment == 0
    }
}

/// Rounding up to the direct-I/O alignment gives the least multiple of 4096
/// at or above the size.
pub proof fn lemma_align_up_4096(size: usize)
    requires
        size + 4095 <= usize::MAX,
    ensures
        ((size + 4095) as usize & !(4095usize)) % 4096 == 0,
        size <= ((size + 4095) as usize & !(4095usize)),
        ((size + 4095) as usize & !(4095usize)) < size + 4096,
{
    let t = (size + 4095) as usize;
    assert(t & !(4095usize) == t - t % 4096) by (bit_vector);
    assert((t - t % 4096) % 4096 == 0) by (bit_vector)
        requires
            t & !(4095usize) == t - t % 4096,
    ;
}

} // verus!
