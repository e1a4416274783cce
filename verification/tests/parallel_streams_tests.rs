use qltp_transport::parallel_streams::{
    ParallelStreamConfig, ParallelStreamManager, StreamChunk, StreamError, StreamState,
};

#[test]
fn test_stream_allocation() {
    let mut manager = ParallelStreamManager::default();
    let stream1 = manager.allocate_stream().unwrap();
    let stream2 = manager.allocate_stream().unwrap();
    assert_eq!(stream1, 0);
    assert_eq!(stream2, 1);
}

#[test]
fn test_data_splitting() {
    let config = ParallelStreamConfig { stream_count: 4, chunk_size: 1024, ..Default::default() };
    let manager = ParallelStreamManager::new(config);
    let data = vec![0u8; 10 * 1024];
    let chunks = manager.split_data(&data).unwrap();
    assert!(!chunks.is_empty());
    assert!(chunks.len() >= 4);
    let total_size: usize = chunks.iter().map(|c| c.data.len()).sum();
    assert_eq!(total_size, data.len());
}

#[test]
fn test_chunk_reassembly() {
    let config = ParallelStreamConfig { stream_count: 2, chunk_size: 1024, ..Default::default() };
    let manager = ParallelStreamManager::new(config);
    let original_data = vec![42u8; 5 * 1024];
    let chunks = manager.split_data(&original_data).unwrap();
    let reassembled = manager.reassemble_chunks(chunks).unwrap();
    assert_eq!(reassembled, original_data);
}

#[test]
fn test_stream_stats() {
    let mut manager = ParallelStreamManager::default();
    let stream_id = manager.allocate_stream().unwrap();
    manager.update_stream_stats(stream_id, 1024, 1).unwrap();
    let stats = manager.get_stream_stats(stream_id).unwrap();
    assert_eq!(stats.bytes_sent, 1024);
    assert_eq!(stats.chunks_sent, 1);
    assert_eq!(stats.state, StreamState::Sending);
}

#[test]
fn test_stream_completion() {
    let mut manager = ParallelStreamManager::default();
    let stream_id = manager.allocate_stream().unwrap();
    manager.complete_stream(stream_id).unwrap();
    let stats = manager.get_stream_stats(stream_id).unwrap();
    assert_eq!(stats.state, StreamState::Completed);
}

#[test]
fn test_optimal_stream_calculation() {
    assert_eq!(ParallelStreamManager::calculate_optimal_streams(5 * 1024 * 1024, 1_000_000_000), 1);
    assert_eq!(ParallelStreamManager::calculate_optimal_streams(1_000 * 1024 * 1024, 2_000_000_000), 8);
    assert_eq!(ParallelStreamManager::calculate_optimal_streams(1_000 * 1024 * 1024, 500_000_000), 4);
    assert_eq!(ParallelStreamManager::calculate_optimal_streams(1_000 * 1024 * 1024, 50_000_000), 2);
}

#[test]
fn test_dynamic_adjustment() {
    let config = ParallelStreamConfig { stream_count: 4, dynamic_adjustment: true, ..Default::default() };
    let mut manager = ParallelStreamManager::new(config);
    manager.adjust_stream_count(500_000_000, 1_000_000_000);
    assert_eq!(manager.stream_count(), 5);
    manager.adjust_stream_count(1_500_000_000, 1_000_000_000);
    assert_eq!(manager.stream_count(), 4);
}

#[test]
fn test_reset() {
    let mut manager = ParallelStreamManager::default();
    manager.allocate_stream().unwrap();
    manager.allocate_stream().unwrap();
    manager.reset();
    let stream_id = manager.allocate_stream().unwrap();
    assert_eq!(stream_id, 0);
}

#[test]
fn split_layout_over_streams() {
    let config = ParallelStreamConfig { stream_count: 2, chunk_size: 3, ..Default::default() };
    let manager = ParallelStreamManager::new(config);
    let data: Vec<u8> = (0..10).collect();
    let chunks = manager.split_data(&data).unwrap();
    // 4 chunks of at most 3 bytes, 2 per stream
    assert_eq!(chunks.len(), 4);
    let layout: Vec<(u64, u64, u64, bool)> =
        chunks.iter().map(|c| (c.stream_id, c.sequence, c.total_chunks, c.is_final)).collect();
    assert_eq!(layout, vec![(0, 0, 2, false), (0, 1, 2, true), (1, 0, 2, false), (1, 1, 2, true)]);
    assert_eq!(chunks[3].data, vec![9]);
    assert!(manager.split_data(&[]).unwrap().is_empty());
}

#[test]
fn reassembly_sorts_by_stream_then_sequence() {
    let manager = ParallelStreamManager::default();
    let mk = |stream_id: u64, sequence: u64, data: Vec<u8>| StreamChunk {
        stream_id,
        sequence,
        total_chunks: 2,
        data,
        is_final: false,
    };
    let chunks = vec![mk(1, 1, vec![6]), mk(0, 1, vec![3, 4]), mk(1, 0, vec![5]), mk(0, 0, vec![1, 2])];
    assert_eq!(manager.reassemble_chunks(chunks).unwrap(), vec![1, 2, 3, 4, 5, 6]);
}

#[test]
fn unknown_streams_are_reported() {
    let mut manager = ParallelStreamManager::default();
    assert_eq!(manager.update_stream_stats(3, 1, 1), Err(StreamError::NotFound(3)));
    assert_eq!(manager.get_stream_stats(3).unwrap_err(), StreamError::NotFound(3));
    assert_eq!(manager.complete_stream(3), Ok(()));
    manager.allocate_stream().unwrap();
    let all = manager.get_all_stats();
    assert_eq!(all.len(), 1);
    assert_eq!(all[0].stream_id, 0);
    assert_eq!(all[0].state, StreamState::Idle);
}

#[test]
fn adjustment_bounds_and_switch() {
    let mut manager = ParallelStreamManager::new(ParallelStreamConfig { stream_count: 16, ..Default::default() });
    manager.adjust_stream_count(0, 1_000);
    assert_eq!(manager.stream_count(), 16);
    let mut one = ParallelStreamManager::new(ParallelStreamConfig { stream_count: 1, ..Default::default() });
    one.adjust_stream_count(10_000, 1_000);
    assert_eq!(one.stream_count(), 1);
    let mut fixed = ParallelStreamManager::new(ParallelStreamConfig { dynamic_adjustment: false, ..Default::default() });
    fixed.adjust_stream_count(0, 1_000);
    assert_eq!(fixed.stream_count(), 4);
    assert_eq!(fixed.chunk_size(), 1024 * 1024);
}

#[test]
fn split_counts_the_chunks_of_each_stream() {
    let config = ParallelStreamConfig { stream_count: 2, chunk_size: 1024, ..Default::default() };
    let manager = ParallelStreamManager::new(config);
    let data = vec![42u8; 5 * 1024];
    let chunks = manager.split_data(&data).unwrap();
    let layout: Vec<(u64, u64, u64, bool)> =
        chunks.iter().map(|c| (c.stream_id, c.sequence, c.total_chunks, c.is_final)).collect();
    assert_eq!(
        layout,
        vec![(0, 0, 3, false), (0, 1, 3, false), (0, 2, 3, true), (1, 0, 2, false), (1, 1, 2, true)]
    );
    assert!(chunks.iter().all(|c| c.data.len() == 1024));
}

#[test]
fn split_chunks_reassemble_in_any_order() {
    let config = ParallelStreamConfig { stream_count: 3, chunk_size: 100, ..Default::default() };
    let manager = ParallelStreamManager::new(config);
    let data: Vec<u8> = (0..1234u32).map(|i| (i * 7 % 251) as u8).collect();
    let chunks = manager.split_data(&data).unwrap();
    let mut reversed = chunks.clone();
    reversed.reverse();
    assert_eq!(manager.reassemble_chunks(reversed).unwrap(), data);
    let mut rotated = chunks.clone();
    rotated.rotate_left(5);
    assert_eq!(manager.reassemble_chunks(rotated).unwrap(), data);
}
