use qltp_transport::storage_io::{IoStrategy, StorageIo, StorageIoConfig, DIRECT_IO_THRESHOLD, READAHEAD_SIZE};

#[test]
fn test_alignment() {
    assert_eq!(StorageIo::align_up(0, 4096), 0);
    assert_eq!(StorageIo::align_up(1, 4096), 4096);
    assert_eq!(StorageIo::align_up(4096, 4096), 4096);
    assert_eq!(StorageIo::align_up(4097, 4096), 8192);
    assert_eq!(StorageIo::align_up(8192, 4096), 8192);
}

#[test]
fn test_is_aligned() {
    assert!(StorageIo::is_aligned(0, 4096));
    assert!(!StorageIo::is_aligned(1, 4096));
    assert!(StorageIo::is_aligned(4096, 4096));
    assert!(!StorageIo::is_aligned(4097, 4096));
    assert!(StorageIo::is_aligned(8192, 4096));
}

#[test]
fn test_strategy_selection() {
    let config = StorageIoConfig::default();
    let storage_io = StorageIo::new(config);
    assert_eq!(storage_io.select_strategy(1024, true), IoStrategy::Buffered);
    assert_eq!(storage_io.select_strategy(100 * 1024 * 1024, true), IoStrategy::Direct);
    assert_eq!(storage_io.select_strategy(100 * 1024 * 1024, false), IoStrategy::MemoryMapped);
}

#[test]
fn test_config_default() {
    let config = StorageIoConfig::default();
    assert!(config.enable_direct_io);
    assert!(config.enable_readahead);
    assert_eq!(config.parallel_streams, 4);
    assert_eq!(config.direct_io_threshold, DIRECT_IO_THRESHOLD);
    assert_eq!(config.readahead_size, READAHEAD_SIZE);
}

#[test]
fn medium_files_go_parallel() {
    let io = StorageIo::default();
    assert_eq!(io.select_strategy(2 * 1024 * 1024, true), IoStrategy::Parallel);
    assert_eq!(io.select_strategy(1024 * 1024, true), IoStrategy::Buffered);
    let mut cfg = StorageIoConfig::default();
    cfg.parallel_streams = 1;
    cfg.enable_direct_io = false;
    assert_eq!(StorageIo::select_strategy_static(&cfg, 100 * 1024 * 1024, true), IoStrategy::Buffered);
    assert_eq!(StorageIo::new(cfg).config().parallel_streams, 1);
}

#[test]
fn alignment_to_other_powers() {
    assert_eq!(StorageIo::align_up(5, 8), 8);
    assert_eq!(StorageIo::align_up(17, 16), 32);
    assert!(StorageIo::is_aligned(512, 512));
}

#[test]
fn threshold_sized_file_is_not_direct() {
    let s = StorageIo::new(StorageIoConfig::default());
    assert_eq!(s.select_strategy(10 * 1024 * 1024, true), IoStrategy::Parallel);
    assert_eq!(s.select_strategy(10 * 1024 * 1024 + 1, true), IoStrategy::Direct);
}
