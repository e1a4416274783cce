use qltp_transport::messages::{
    Capabilities, ChunkAckMessage, ChunkDataMessage, ChunkFlags, CompressionType, ErrorCode, ErrorMessage,
    HashAlgorithm, HelloMessage, Message, MessageHeader, MessageType, TransferAckMessage,
    TransferStartMessage, WelcomeMessage, DEFAULT_CHUNK_SIZE, MAX_PAYLOAD_SIZE, PROTOCOL_MAGIC,
    PROTOCOL_VERSION,
};

#[test]
fn test_capabilities() {
    let caps = Capabilities::default_client();
    assert!(caps.has(Capabilities::COMPRESSION_LZ4));
    assert!(caps.has(Capabilities::COMPRESSION_ZSTD));
    assert!(caps.has(Capabilities::DEDUPLICATION));
    assert!(caps.has(Capabilities::RESUME));
    assert!(!caps.has(Capabilities::TLS));
}

#[test]
fn test_chunk_flags() {
    let flags = ChunkFlags::new().with_compressed().with_last_chunk();
    assert!(flags.is_compressed());
    assert!(flags.is_last_chunk());
    assert!(!flags.is_deduplicated());
}

#[test]
fn test_message_type_conversion() {
    assert_eq!(MessageType::from_u8(0x01), Some(MessageType::Hello));
    assert_eq!(MessageType::from_u8(0x04), Some(MessageType::TransferAck));
    assert_eq!(MessageType::from_u8(0x05), Some(MessageType::ChunkData));
    assert_eq!(MessageType::from_u8(0xFF), None);
}

#[test]
fn message_codes_round_trip() {
    for code in 0u8..=255 {
        if let Some(t) = MessageType::from_u8(code) {
            assert_eq!(t.to_u8(), code);
        }
    }
    assert_eq!(MessageType::Goodbye.to_u8(), 0x0F);
    assert_eq!(MessageType::from_u8(0x00), None);
    assert_eq!(MessageType::from_u8(0x10), None);
}

#[test]
fn default_client_capability_bits() {
    assert_eq!(Capabilities::default_client().0, 79);
    assert_eq!(Capabilities::default().0, 0);
    assert!(Capabilities::default_client().has(Capabilities::PARALLEL_STREAMS));
    assert!(!Capabilities::default_client().has(Capabilities::QUIC));
    let tls = Capabilities::new().with_tls();
    assert_eq!(tls.0, Capabilities::TLS);
}

#[test]
fn chunk_flag_bits_are_independent() {
    let f = ChunkFlags::default().with_deduplicated();
    assert_eq!(f.0, 2);
    assert!(f.is_deduplicated());
    assert!(!f.is_compressed());
    assert!(!f.is_last_chunk());
}

#[test]
fn header_constructor_and_size() {
    let h = MessageHeader::new(MessageType::Ping, 7, 12);
    assert_eq!(h.message_type, MessageType::Ping);
    assert_eq!(h.flags, 0);
    assert_eq!(h.sequence_number, 0);
    assert_eq!(h.session_id, 7);
    assert_eq!(h.payload_length, 12);
    assert_eq!(h.checksum, 0);
    assert_eq!(MessageHeader::size(), 30);
}

#[test]
fn protocol_constants() {
    assert_eq!(PROTOCOL_MAGIC, 0x514C5450);
    assert_eq!(PROTOCOL_VERSION, 1);
    assert_eq!(MAX_PAYLOAD_SIZE, 16 * 1024 * 1024);
    assert_eq!(DEFAULT_CHUNK_SIZE, 4096);
}

#[test]
fn error_message_without_context() {
    let m = ErrorMessage::new(ErrorCode::Timeout, "late".to_string());
    assert_eq!(m.error_code, ErrorCode::Timeout);
    assert_eq!(m.message, "late");
    assert!(m.context.is_none());
}

#[test]
fn test_hello_message() {
    let client_id = uuid::Uuid::new_v4().as_u128();
    let caps = Capabilities::default_client();
    let hello = HelloMessage::new(client_id, caps);

    assert_eq!(hello.magic, PROTOCOL_MAGIC);
    assert_eq!(hello.version, PROTOCOL_VERSION);
    assert_eq!(hello.client_id, client_id);
}

#[test]
fn welcome_message_defaults() {
    let w = WelcomeMessage::new(7, 9);
    assert_eq!(w.magic, PROTOCOL_MAGIC);
    assert_eq!(w.status, ErrorCode::Success);
    assert_eq!((w.server_id, w.session_id), (7, 9));
    assert_eq!(w.max_chunk_size, DEFAULT_CHUNK_SIZE);
    assert_eq!(w.max_parallel_streams, 4);
}

#[test]
fn transfer_start_and_chunk_messages() {
    let start = TransferStartMessage::new("a.bin".to_string(), 10000, 3, 4096, [1u8; 32]);
    assert_eq!(start.file_name, "a.bin");
    assert_eq!(start.compression, CompressionType::Lz4);
    assert_eq!(start.hash_algorithm, HashAlgorithm::Sha256);
    assert!(start.metadata.is_none());
    let other = TransferStartMessage::new("a.bin".to_string(), 10000, 3, 4096, [1u8; 32]);
    assert_ne!(start.transfer_id, other.transfer_id);

    let chunk = ChunkDataMessage::new(5, 2, 8192, vec![0u8; 100], [2u8; 32]);
    assert_eq!(chunk.original_size, 100);
    assert_eq!(chunk.compressed_size, 100);
    assert_eq!(chunk.compression_type, CompressionType::NoCompression);
    assert_eq!(chunk.flags, 0);
    let ack = ChunkAckMessage::new(5, 2, 100);
    assert_eq!(ack.status, ErrorCode::Success);
    assert_eq!(ack.received_size, 100);
}

#[test]
fn message_type_of_messages() {
    let hello = Message::Hello(HelloMessage::new(1, Capabilities::new()));
    assert_eq!(hello.message_type(), MessageType::Hello);
    let ack = Message::TransferAck(TransferAckMessage {
        transfer_id: 1,
        status: ErrorCode::Success,
        resume_offset: 0,
        available_space: 0,
        preferred_chunk_size: 4096,
    });
    // acknowledgments report the type of the message they answer
    assert_eq!(ack.message_type(), MessageType::TransferStart);
    assert_eq!(Message::Ping.message_type(), MessageType::Ping);
    assert_eq!(Message::Goodbye.message_type(), MessageType::Goodbye);
}
