use qltp_transport::digest::calculate_chunk_hash;
use qltp_transport::resume::{ResumeManager, TransferState};

fn sha256_abc() -> [u8; 32] {
    [
        0xba, 0x78, 0x16, 0xbf, 0x8f, 0x01, 0xcf, 0xea, 0x41, 0x41, 0x40, 0xde, 0x5d, 0xae, 0x22, 0x23, 0xb0, 0x03,
        0x61, 0xa3, 0x96, 0x17, 0x7a, 0x9c, 0xb4, 0x10, 0xff, 0x61, 0xf2, 0x00, 0x15, 0xad,
    ]
}

#[test]
fn chunk_hash_is_sha256() {
    assert_eq!(calculate_chunk_hash(b"abc"), sha256_abc());
}

#[test]
fn transfer_state_progress() {
    let mut state = TransferState::new(42, "/tmp/test.bin".to_string(), 1024000, 250, 4096, [0u8; 32]);
    assert_eq!(state.last_chunk_index, 0);
    assert_eq!(state.partial_file_hash, [0u8; 32]);
    state.update_progress(50, 204800);
    assert_eq!(state.last_chunk_index, 50);
    assert_eq!(state.last_chunk_offset, 204800);
    assert!(!state.is_complete());
    state.update_progress(249, 1019904);
    assert!(state.is_complete());
}

#[test]
fn partial_hash_covers_the_sent_prefix() {
    let mut state = TransferState::new(1, "f".to_string(), 5, 1, 5, [0u8; 32]);
    state.update_progress(0, 3);
    state.apply_partial_hash(b"abcde");
    assert_eq!(state.partial_file_hash, sha256_abc());
    state.update_progress(0, 100);
    state.apply_partial_hash(b"abc");
    assert_eq!(state.partial_file_hash, sha256_abc());
}

#[test]
fn state_file_names_round_trip() {
    let id: u128 = 0x550e8400_e29b_41d4_a716_446655440000;
    let name = ResumeManager::state_file_name(id);
    assert_eq!(name, "550e8400-e29b-41d4-a716-446655440000.state");
    assert_eq!(ResumeManager::transfer_id_of_file(&name), Some(id));
    assert_eq!(ResumeManager::transfer_id_of_file("notes.txt"), None);
    assert_eq!(ResumeManager::transfer_id_of_file(".state"), None);
    assert_eq!(ResumeManager::transfer_id_of_file("garbage.state"), None);
}

#[test]
fn expired_states_are_selected() {
    let mk = |id: u128, last: u64| {
        let mut s = TransferState::new(id, "f".to_string(), 1, 1, 1, [0u8; 32]);
        s.last_update = last;
        s
    };
    let day = 86_400u64;
    let now = 100 * day;
    let states = vec![mk(1, now - 10 * day), mk(2, now - day), mk(3, now - 8 * day)];
    assert_eq!(ResumeManager::expired_states(&states, now, 7), vec![1, 3]);
    assert!(ResumeManager::is_expired(0, now, 7));
    assert!(!ResumeManager::is_expired(now - 7 * day, now, 7));
    let m = ResumeManager::new("/var/lib/qltp");
    assert_eq!(m.state_dir(), "/var/lib/qltp");
    assert!(ResumeManager::now_secs() > 0);
}
