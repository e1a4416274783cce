use qltp_transport::error::Error;
use qltp_transport::messages::ErrorCode;
use qltp_transport::transfer_flow::{
    check_transfer_ack, check_transfer_complete, retry_limit_error,
    chunk_flags_for, chunk_offset, storage_file_name, total_chunks_for, AckTracker, ChunkReceiver, PendingAck, ReceiveError, SendCounters,
};

#[test]
fn chunk_counts_and_offsets() {
    assert_eq!(total_chunks_for(0, 4096), 0);
    assert_eq!(total_chunks_for(1, 4096), 1);
    assert_eq!(total_chunks_for(4096, 4096), 1);
    assert_eq!(total_chunks_for(4097, 4096), 2);
    assert_eq!(chunk_offset(3, 4096), 12_288);
    assert_eq!(chunk_offset(u32::MAX, u32::MAX), (u32::MAX as u64) * (u32::MAX as u64));
}

#[test]
fn only_last_chunk_is_flagged() {
    assert!(chunk_flags_for(2, 3).is_last_chunk());
    assert!(!chunk_flags_for(1, 3).is_last_chunk());
    assert_eq!(chunk_flags_for(0, 1).0, 4);
}

#[test]
fn acks_remove_and_failures_count() {
    let mut t = AckTracker::new();
    t.track(0, 100);
    t.track(1, 110);
    t.track(2, 120);
    assert_eq!(t.len(), 3);
    assert!(t.window_full(3));
    assert!(!t.window_full(4));
    t.acknowledge(1, true);
    assert_eq!(t.len(), 2);
    t.acknowledge(0, false);
    t.acknowledge(7, true);
    assert_eq!(t.len(), 2);
    // chunk 0 counted one retry: with a limit of 1 it can no longer be retried
    assert_eq!(t.expire(10_000, 5_000, 1), Err(0));
    let retried = t.expire(10_000, 5_000, 2).unwrap();
    assert_eq!(retried, vec![0, 2]);
    // stamped as sent again: nothing is due at the same instant
    assert_eq!(t.expire(10_000, 5_000, 2).unwrap(), Vec::<u32>::new());
    t.acknowledge(0, true);
    t.acknowledge(2, true);
    assert!(t.is_empty());
}

#[test]
fn expiry_respects_the_timeout() {
    let mut t = AckTracker::new();
    t.track(5, 1_000);
    assert_eq!(t.expire(6_000, 5_000, 3).unwrap(), Vec::<u32>::new());
    assert_eq!(t.expire(6_001, 5_000, 3).unwrap(), vec![5]);
    // a send time in the future is never due
    t.track(6, 9_000);
    assert_eq!(t.expire(6_001, 0, 3).unwrap(), Vec::<u32>::new());
    // tracking again resets the retries
    t.track(5, 20_000);
    assert_eq!(t.len(), 2);
    let _ = PendingAck { chunk_index: 0, sent_at_ms: 0, retries: 0 };
}

#[test]
fn receiver_counts_matching_chunks() {
    let mut r = ChunkReceiver::new(77, 2);
    assert!(!r.is_complete());
    assert_eq!(r.accept(78, 10), Err(ReceiveError::TransferIdMismatch));
    assert_eq!(r.bytes_received, 0);
    r.accept(77, 10).unwrap();
    r.accept(77, 5).unwrap();
    assert_eq!(r.bytes_received, 15);
    assert_eq!(r.chunks_received, 2);
    assert!(r.is_complete());
}

#[test]
fn transfer_config_defaults() {
    let c = qltp_transport::transfer_flow::TransferConfig::default();
    assert_eq!(c.chunk_size, 4096);
    assert_eq!(c.send_window, 256);
    assert!(c.compression);
    assert_eq!(c.ack_timeout, std::time::Duration::from_secs(5));
}

#[test]
fn reply_status_checks() {
    assert_eq!(check_transfer_ack(ErrorCode::Success), Ok(()));
    assert_eq!(
        check_transfer_ack(ErrorCode::InsufficientSpace),
        Err(Error::Protocol("Server rejected transfer: InsufficientSpace".to_string()))
    );
    assert_eq!(
        check_transfer_complete(ErrorCode::ChecksumMismatch),
        Err(Error::Protocol("Transfer failed: ChecksumMismatch".to_string()))
    );
    assert_eq!(retry_limit_error(12, 5), Error::Protocol("Chunk 12 exceeded max retries (5)".to_string()));
}

#[test]
fn ack_tracker_reports_retries() {
    let mut t = AckTracker::new();
    assert_eq!(t.retries_of(3), None);
    t.track(3, 100);
    assert_eq!(t.retries_of(3), Some(0));
    t.acknowledge(3, false);
    t.acknowledge(3, false);
    assert_eq!(t.retries_of(3), Some(2));
    t.acknowledge(3, true);
    assert_eq!(t.retries_of(3), None);
}

#[test]
fn test_transfer_config_default() {
    let config = qltp_transport::transfer_flow::TransferConfig::default();
    assert_eq!(config.chunk_size, 4096);
    assert_eq!(config.send_window, 256);
    assert!(config.compression);
}

#[test]
fn received_files_stay_in_the_output_directory() {
    assert_eq!(storage_file_name("report.pdf"), Some("report.pdf".to_string()));
    assert_eq!(storage_file_name("../../etc/passwd"), Some("passwd".to_string()));
    assert_eq!(storage_file_name("/abs/path/data.bin"), Some("data.bin".to_string()));
    assert_eq!(storage_file_name("dir\\sub\\x.txt"), Some("x.txt".to_string()));
    assert_eq!(storage_file_name(".."), None);
    assert_eq!(storage_file_name("a/.."), None);
    assert_eq!(storage_file_name("dir/"), None);
    assert_eq!(storage_file_name(""), None);
    assert_eq!(storage_file_name("."), None);
}

#[test]
fn sender_counters_add_up() {
    let mut c = SendCounters::new();
    c.record_chunk(4096, 1000);
    c.record_chunk(100, 100);
    c.record_retry();
    assert_eq!(
        c,
        SendCounters { bytes_transferred: 4196, compressed_bytes: 1100, chunks_sent: 2, chunks_retried: 1 }
    );
}
