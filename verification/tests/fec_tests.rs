use qltp_transport::fec::{FecBlock, FecCodec, FecConfig, FecError, LossProfile};
use qltp_transport::fec_manager::{loss_profile, FecManager};
use std::collections::HashMap;
use qltp_transport::gf256::gf_mul_exec;

#[test]
fn test_fec_encode_decode_no_loss() {
    let codec = FecCodec::default();
    let data = b"Hello, World! This is a test of FEC encoding.".to_vec();

    let blocks = codec.encode(&data).unwrap();
    assert!(!blocks.is_empty());

    let lost_shards = HashMap::new();
    let decoded = codec.decode(blocks, &lost_shards).unwrap();

    // Verify data integrity (may have padding)
    assert!(decoded.starts_with(&data));
}

#[test]
fn test_fec_recovery_single_loss() {
    let codec = FecCodec::default();
    let data = vec![42u8; 8192]; // 8 KB

    let blocks = codec.encode(&data).unwrap();

    // Simulate loss of first shard in first block
    let mut lost_shards = HashMap::new();
    lost_shards.insert(0, vec![0]);

    let decoded = codec.decode(blocks, &lost_shards).unwrap();
    assert!(decoded.starts_with(&data));
}

#[test]
fn test_fec_adaptive_adjustment() {
    let mut codec = FecCodec::new(FecConfig::default());
    assert_eq!(codec.config().data_shards, 8);
    assert_eq!(codec.config().parity_shards, 2);

    // High packet loss (8%) selects the high-loss configuration
    codec.apply_loss_profile(LossProfile::High);
    assert_eq!(codec.config().data_shards, 4);
    assert_eq!(codec.config().parity_shards, 2);

    // Low packet loss (0.5%) selects the low-loss configuration
    codec.apply_loss_profile(LossProfile::Low);
    assert_eq!(codec.config().data_shards, 16);
    assert_eq!(codec.config().parity_shards, 1);
}

#[test]
fn non_adaptive_codec_keeps_its_configuration() {
    let mut codec = FecCodec::new(FecConfig { data_shards: 8, parity_shards: 2, shard_size: 1024, adaptive: false });
    codec.apply_loss_profile(LossProfile::High);
    assert_eq!(codec.config().data_shards, 8);
    assert_eq!(codec.config().parity_shards, 2);
}

#[test]
fn loss_profiles_and_recoverable_loss() {
    assert_eq!(FecConfig::low_loss().max_recoverable_loss(), 1);
    assert_eq!(FecConfig::medium_loss().data_shards, 8);
    assert_eq!(FecConfig::high_loss().data_shards, 4);
    let d = FecConfig::default();
    assert_eq!((d.data_shards, d.parity_shards, d.shard_size, d.adaptive), (8, 2, 1024, true));
}

#[test]
fn encoding_pads_shards_and_numbers_blocks() {
    let codec = FecCodec::new(FecConfig { data_shards: 2, parity_shards: 1, shard_size: 4, adaptive: false });
    let data: Vec<u8> = (1..=10).collect();
    let blocks = codec.encode(&data).unwrap();
    // 10 bytes in 4-byte shards: 3 shards, two per block
    assert_eq!(blocks.len(), 2);
    assert_eq!(blocks[0].block_id, 0);
    assert_eq!(blocks[1].block_id, 1);
    assert_eq!(blocks[0].data_shards, vec![vec![1, 2, 3, 4], vec![5, 6, 7, 8]]);
    assert_eq!(blocks[1].data_shards, vec![vec![9, 10, 0, 0], vec![0, 0, 0, 0]]);
    assert_eq!(blocks[0].total_shards, 3);
    assert_eq!(blocks[1].parity_shards.len(), 1);
}

#[test]
fn parity_weights_shards() {
    let codec = FecCodec::new(FecConfig { data_shards: 2, parity_shards: 2, shard_size: 2, adaptive: false });
    let shards = vec![vec![1u8, 2], vec![3u8, 4]];
    let parity = codec.generate_parity_shards(&shards, 2);
    // parity 0 is the plain XOR; parity p > 0 weighs shard i by i + p in
    // the field of 256 elements (times 2 is a shift for these bytes)
    assert_eq!(parity, vec![vec![1 ^ 3, 2 ^ 4], vec![1 ^ 6, 2 ^ 8]]);
}

#[test]
fn first_shard_is_rebuilt_from_parity() {
    let codec = FecCodec::new(FecConfig { data_shards: 3, parity_shards: 1, shard_size: 3, adaptive: false });
    let data: Vec<u8> = vec![10, 20, 30, 40, 50, 60, 70, 80, 90];
    let blocks = codec.encode(&data).unwrap();
    let mut damaged = blocks.clone();
    damaged[0].data_shards[0] = vec![0, 0, 0];
    let mut lost = HashMap::new();
    lost.insert(0u64, vec![0usize]);
    let decoded = codec.decode(damaged, &lost).unwrap();
    assert_eq!(decoded, data);
}

#[test]
fn any_single_lost_shard_is_rebuilt_exactly() {
    let codec = FecCodec::new(FecConfig { data_shards: 4, parity_shards: 2, shard_size: 8, adaptive: false });
    let data = vec![1u8; 64];
    let blocks = codec.encode(&data).unwrap();
    for lost_index in 0..4usize {
        let mut damaged = blocks.clone();
        damaged[0].data_shards[lost_index] = vec![0xAB; 8];
        damaged[1].data_shards[3 - lost_index] = vec![0x55; 8];
        let mut lost = HashMap::new();
        lost.insert(0u64, vec![lost_index]);
        lost.insert(1u64, vec![3 - lost_index, 5]);
        let decoded = codec.decode(damaged, &lost).unwrap();
        assert_eq!(decoded, data);
    }
}

#[test]
fn two_lost_shards_are_rebuilt_exactly() {
    let codec = FecCodec::default();
    let data: Vec<u8> = (0..16384u32).map(|i| (i * 37 + 11) as u8).collect();
    let blocks = codec.encode(&data).unwrap();
    assert_eq!(blocks.len(), 2);
    let mut damaged = blocks.clone();
    damaged[0].data_shards[2] = vec![0xFF; 1024];
    damaged[0].data_shards[5] = vec![0x00; 1024];
    damaged[1].data_shards[7] = vec![0x42; 1024];
    damaged[1].data_shards[0] = vec![0x99; 1024];
    let mut lost = HashMap::new();
    lost.insert(0u64, vec![5usize, 2]);
    lost.insert(1u64, vec![0usize, 7]);
    let decoded = codec.decode(damaged, &lost).unwrap();
    assert_eq!(decoded, data);
}

#[test]
fn as_many_lost_shards_as_parity_shards_are_rebuilt_exactly() {
    let codec = FecCodec::new(FecConfig { data_shards: 6, parity_shards: 4, shard_size: 16, adaptive: false });
    let data: Vec<u8> = (0..192u32).map(|i| (i * 73 + 5) as u8).collect();
    let blocks = codec.encode(&data).unwrap();
    assert_eq!(blocks.len(), 2);
    let mut damaged = blocks.clone();
    for &i in &[0usize, 2, 3, 5] {
        damaged[0].data_shards[i] = vec![i as u8; 16];
    }
    for &i in &[1usize, 4, 5] {
        damaged[1].data_shards[i] = vec![0xEE; 16];
    }
    let mut lost = HashMap::new();
    lost.insert(0u64, vec![5usize, 0, 3, 2]);
    lost.insert(1u64, vec![4usize, 1, 5]);
    let decoded = codec.decode(damaged, &lost).unwrap();
    assert_eq!(decoded, data);
}

#[test]
fn gf_products_follow_the_field() {
    assert_eq!(gf_mul_exec(0x57, 0x83), 0xc1);
    assert_eq!(gf_mul_exec(0x57, 0x13), 0xfe);
    assert_eq!(gf_mul_exec(0x80, 0x02), 0x1b);
    assert_eq!(gf_mul_exec(0xAB, 0x01), 0xAB);
}

#[test]
fn too_many_losses_are_unrecoverable() {
    let codec = FecCodec::default();
    let data = vec![7u8; 4096];
    let blocks = codec.encode(&data).unwrap();
    let mut lost = HashMap::new();
    lost.insert(0u64, vec![0usize, 1, 2]);
    let err = codec.decode(blocks, &lost).unwrap_err();
    assert_eq!(err, FecError::Unrecoverable { block_id: 0, lost: 3, recoverable: 2 });
}

#[test]
fn recover_shards_leaves_unlisted_shards() {
    let codec = FecCodec::new(FecConfig { data_shards: 2, parity_shards: 1, shard_size: 2, adaptive: false });
    let block = FecBlock {
        block_id: 0,
        data_shards: vec![vec![0, 0], vec![3, 4]],
        parity_shards: vec![vec![1 ^ 3, 2 ^ 4]],
        total_shards: 3,
    };
    let recovered = codec.recover_shards(&block, &[0]).unwrap();
    assert_eq!(recovered, vec![vec![1, 2], vec![3, 4]]);
    let untouched = codec.recover_shards(&block, &[]).unwrap();
    assert_eq!(untouched, block.data_shards);
}

#[test]
fn empty_data_encodes_to_no_blocks() {
    let codec = FecCodec::default();
    let blocks = codec.encode(&[]).unwrap();
    assert!(blocks.is_empty());
    assert_eq!(codec.decode(blocks, &HashMap::new()).unwrap(), Vec::<u8>::new());
}

#[test]
fn test_fec_manager() {
    let mut manager = FecManager::default();
    let data = vec![1u8; 4096];

    // Encode
    let blocks = manager.encode(&data).unwrap();
    assert!(manager.stats().blocks_encoded > 0);

    // Decode with no loss
    let lost_shards = HashMap::new();
    let decoded = manager.decode(blocks, &lost_shards).unwrap();

    assert!(decoded.starts_with(&data));
    assert!(manager.stats().blocks_decoded > 0);
}

#[test]
fn fec_manager_counts_loss_and_retunes() {
    let mut manager = FecManager::default();
    let data = vec![7u8; 8192];
    let blocks = manager.encode(&data).unwrap();
    assert_eq!(blocks.len(), 1);
    assert_eq!(manager.stats().blocks_encoded, 1);
    let mut lost_shards = HashMap::new();
    lost_shards.insert(0u64, vec![0usize]);
    let decoded = manager.decode(blocks, &lost_shards).unwrap();
    assert!(decoded.starts_with(&data));
    let s = *manager.stats();
    assert_eq!(s.packets_lost, 1);
    assert_eq!(s.packets_recovered, 1);
    // one lost packet out of 10: 10% loss, the high-loss profile
    assert_eq!(s.loss_rate_num, 1);
    assert_eq!(s.loss_rate_den, 10);
    assert_eq!(manager.config().data_shards, 4);
    assert_eq!(manager.config().parity_shards, 2);
    assert_eq!((s.overhead_parity, s.overhead_data), (2, 4));
    manager.reset_stats();
    let r = *manager.stats();
    assert_eq!(r.packets_lost, 0);
    assert_eq!(r.blocks_encoded, 0);
    assert_eq!((r.overhead_parity, r.overhead_data), (2, 4));
}

#[test]
fn fec_manager_unrecoverable_counts_loss_only() {
    let mut manager = FecManager::default();
    let data = vec![3u8; 100];
    let blocks = manager.encode(&data).unwrap();
    let mut lost_shards = HashMap::new();
    lost_shards.insert(0u64, vec![0usize, 1, 2]);
    lost_shards.insert(9u64, vec![1usize]);
    assert!(manager.decode(blocks, &lost_shards).is_err());
    assert_eq!(manager.stats().packets_lost, 4);
    assert_eq!(manager.stats().blocks_decoded, 0);
    assert_eq!(manager.config().data_shards, 8);
}

#[test]
fn loss_profile_thresholds() {
    assert_eq!(loss_profile(0, 0), LossProfile::Low);
    assert_eq!(loss_profile(5, 1000), LossProfile::Low);
    assert_eq!(loss_profile(1, 100), LossProfile::Medium);
    assert_eq!(loss_profile(4, 100), LossProfile::Medium);
    assert_eq!(loss_profile(5, 100), LossProfile::High);
}
