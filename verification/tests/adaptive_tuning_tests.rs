use qltp_transport::adaptive_tuning::{AdaptiveTuning, AdaptiveTuningConfig, CompressionStrategy, ParallelStreamConfig, sample_byte_counts};

#[test]
fn test_config_defaults() {
    let config = AdaptiveTuningConfig::default();
    assert!(config.enable_compression);
    assert!(config.enable_parallel_streams);
    assert!(config.enable_dynamic_buffers);
    assert_eq!(config.min_buffer_size, 64 * 1024);
    assert_eq!(config.max_buffer_size, 16 * 1024 * 1024);
}

#[test]
fn test_buffer_size_calculation() {
    let tuning = AdaptiveTuning::default();
    let buffer_size = tuning.calculate_buffer_size(125_000_000, 50);
    assert!(buffer_size >= 64 * 1024);
    assert!(buffer_size <= 16 * 1024 * 1024);
    assert_eq!(buffer_size, 6_250_000);
    assert_eq!(tuning.calculate_buffer_size(1_000, 1), 64 * 1024);
    assert_eq!(tuning.calculate_buffer_size(u64::MAX, u64::MAX), 16 * 1024 * 1024);
}

#[test]
fn test_stream_count_calculation() {
    let tuning = AdaptiveTuning::default();
    assert_eq!(tuning.calculate_stream_count(1024 * 1024, 100_000_000), 1);
    let streams = tuning.calculate_stream_count(1024 * 1024 * 1024, 1_000_000_000);
    assert!(streams > 1);
    // 1 GB at 1 GB/s: 4 base streams plus 8 for the size, capped at 8
    assert_eq!(streams, 8);
    let fixed = AdaptiveTuning::new(AdaptiveTuningConfig {
        parallel_config: ParallelStreamConfig { dynamic_adjustment: false, ..Default::default() },
        ..Default::default()
    });
    assert_eq!(fixed.calculate_stream_count(1024 * 1024 * 1024, 1), 4);
}

#[test]
fn test_chunk_size_calculation() {
    let tuning = AdaptiveTuning::default();
    let chunk_size = tuning.calculate_chunk_size(100 * 1024 * 1024, 4);
    assert!(chunk_size >= 1024 * 1024);
    assert!(chunk_size % (1024 * 1024) == 0);
    assert_eq!(chunk_size, 25 * 1024 * 1024);
    assert_eq!(tuning.calculate_chunk_size(12345, 1), 12345);
    assert_eq!(tuning.calculate_chunk_size(10, 4), 1024 * 1024);
}

#[test]
fn disabled_features() {
    let t = AdaptiveTuning::new(AdaptiveTuningConfig {
        enable_dynamic_buffers: false,
        enable_parallel_streams: false,
        ..Default::default()
    });
    assert_eq!(t.calculate_buffer_size(125_000_000, 50), 64 * 1024);
    assert_eq!(t.calculate_stream_count(1 << 40, 1 << 40), 1);
    assert!(!t.config().enable_dynamic_buffers);
    assert_ne!(CompressionStrategy::Fast, CompressionStrategy::NoCompression);
}

#[test]
fn sample_byte_counts_histogram() {
    let data = vec![1u8, 2, 2, 3, 3, 3];
    let counts = sample_byte_counts(&data);
    assert_eq!(counts.len(), 256);
    assert_eq!(counts[1], 1);
    assert_eq!(counts[2], 2);
    assert_eq!(counts[3], 3);
    assert_eq!(counts[0], 0);
}

#[test]
fn sample_byte_counts_looks_at_first_kilobyte() {
    let mut data = vec![9u8; 1024];
    data.extend(vec![5u8; 4000]);
    let counts = sample_byte_counts(&data);
    assert_eq!(counts[9], 1024);
    assert_eq!(counts[5], 0);
    assert_eq!(counts.iter().map(|c| *c as u64).sum::<u64>(), 1024);
}
