use qltp_transport::parallel::{total_chunk_bytes, ParallelConfig};

#[test]
fn test_parallel_config_default() {
    let config = ParallelConfig::default();
    assert_eq!(config.num_streams, 4);
    assert_eq!(config.chunks_per_stream, 8);
    assert_eq!(config.stream_buffer_size, 65536);
    assert!(config.enable_multiplexing);
}

#[test]
fn batch_byte_tally() {
    let chunks = vec![(0u64, vec![1u8; 10]), (1, vec![]), (2, vec![2u8; 5])];
    assert_eq!(total_chunk_bytes(&chunks), 15);
    assert_eq!(total_chunk_bytes(&vec![]), 0);
}
