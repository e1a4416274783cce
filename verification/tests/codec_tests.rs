use qltp_transport::codec::{CodecError, QltpCodec};
use qltp_transport::messages::{Capabilities, MessageType, MAX_PAYLOAD_SIZE, PROTOCOL_MAGIC, PROTOCOL_VERSION};

/// Payload of a hello message: magic, version, flags, client id,
/// capabilities and timestamp, serialized as the application does.
fn hello_payload(client_id: u128) -> Vec<u8> {
    let caps = Capabilities::default_client();
    bincode::serialize(&(PROTOCOL_MAGIC, PROTOCOL_VERSION, 0u8, client_id, caps.0, 1_700_000_000u64)).unwrap()
}

#[test]
fn test_codec_roundtrip() {
    let session_id: u128 = 0x0123_4567_89ab_cdef_0011_2233_4455_6677;
    let mut encoder = QltpCodec::new(session_id);
    let mut decoder = QltpCodec::new(session_id);
    let client_id: u128 = 42;
    let payload = hello_payload(client_id);

    let mut buf = Vec::new();
    encoder.encode(MessageType::Hello, &payload, &mut buf).unwrap();

    let decoded = decoder.decode(&mut buf).unwrap();
    assert!(decoded.is_some());
    let frame = decoded.unwrap();
    assert_eq!(frame.header.message_type, MessageType::Hello);
    assert_eq!(frame.header.session_id, session_id);
    let (magic, _v, _f, decoded_client, _c, _t): (u32, u8, u8, u128, u32, u64) =
        bincode::deserialize(&frame.payload).unwrap();
    assert_eq!(decoded_client, client_id);
    assert_eq!(magic, PROTOCOL_MAGIC);
    assert!(buf.is_empty());
}

#[test]
fn test_incomplete_message() {
    let session_id: u128 = 7;
    let mut decoder = QltpCodec::new(session_id);
    // Only header, no payload
    let mut buf = Vec::new();
    buf.push(0x01); // Message type
    buf.push(0x00); // Flags
    buf.extend_from_slice(&0u32.to_be_bytes()); // Sequence
    buf.extend_from_slice(&session_id.to_be_bytes());
    buf.extend_from_slice(&100u32.to_be_bytes()); // Payload length
    buf.extend_from_slice(&0u32.to_be_bytes()); // Checksum
    let result = decoder.decode(&mut buf).unwrap();
    assert!(result.is_none());
    assert_eq!(buf.len(), 30);
}

#[test]
fn test_checksum_validation() {
    let session_id: u128 = 99;
    let mut encoder = QltpCodec::new(session_id);
    let mut decoder = QltpCodec::new(session_id);
    let mut buf = Vec::new();
    encoder.encode(MessageType::Hello, &hello_payload(5), &mut buf).unwrap();
    // Corrupt checksum
    buf[26] ^= 0xFF;
    let result = decoder.decode(&mut buf);
    assert_eq!(result.unwrap_err(), CodecError::ChecksumMismatch);
}

#[test]
fn crc32_of_check_string() {
    assert_eq!(QltpCodec::calculate_checksum(b"123456789"), 0xCBF4_3926);
    assert_eq!(QltpCodec::calculate_checksum(b""), 0);
}

#[test]
fn header_layout_and_sequence_numbers() {
    let mut codec = QltpCodec::new(0x0102);
    let h0 = codec.encode_header(MessageType::Ping, 5, 0xAABBCCDD);
    let h1 = codec.encode_header(MessageType::Pong, 0, 0);
    assert_eq!(h0.len(), 30);
    assert_eq!(h0[0], 0x0A);
    assert_eq!(h0[1], 0);
    assert_eq!(&h0[2..6], &[0, 0, 0, 0]);
    assert_eq!(&h1[2..6], &[0, 0, 0, 1]);
    assert_eq!(&h0[20..22], &[0x01, 0x02]);
    assert_eq!(&h0[22..26], &[0, 0, 0, 5]);
    assert_eq!(&h0[26..30], &[0xAA, 0xBB, 0xCC, 0xDD]);
    let parsed = QltpCodec::decode_header(&h0).unwrap();
    assert_eq!(parsed.session_id, 0x0102);
    assert_eq!(parsed.checksum, 0xAABBCCDD);
    assert_eq!(parsed.payload_length, 5);
}

#[test]
fn unknown_type_and_oversized_payload_are_refused() {
    let mut codec = QltpCodec::new(1);
    let mut bad = codec.encode_header(MessageType::Ping, 0, 0);
    bad[0] = 0xEE;
    let mut buf = bad.clone();
    assert_eq!(codec.decode(&mut buf).unwrap_err(), CodecError::InvalidMessageType);
    assert_eq!(buf, bad);

    let mut big = codec.encode_header(MessageType::Ping, MAX_PAYLOAD_SIZE + 1, 0);
    let mut buf = big.clone();
    assert_eq!(codec.decode(&mut buf).unwrap_err(), CodecError::PayloadTooLarge);
    big.clear();

    let payload = vec![0u8; MAX_PAYLOAD_SIZE as usize + 1];
    let mut out = Vec::new();
    assert_eq!(codec.encode(MessageType::ChunkData, &payload, &mut out), Err(CodecError::PayloadTooLarge));
    assert!(out.is_empty());
}

#[test]
fn two_frames_decode_in_order() {
    let mut enc = QltpCodec::new(3);
    let mut dec = QltpCodec::new(3);
    let mut buf = Vec::new();
    enc.encode(MessageType::Ping, &[], &mut buf).unwrap();
    enc.encode(MessageType::ChunkData, &[1, 2, 3], &mut buf).unwrap();
    let f1 = dec.decode(&mut buf).unwrap().unwrap();
    assert_eq!(f1.header.message_type, MessageType::Ping);
    assert_eq!(f1.header.sequence_number, 0);
    let f2 = dec.decode(&mut buf).unwrap().unwrap();
    assert_eq!(f2.header.message_type, MessageType::ChunkData);
    assert_eq!(f2.header.sequence_number, 1);
    assert_eq!(f2.payload, vec![1, 2, 3]);
    assert!(dec.decode(&mut buf).unwrap().is_none());
}

#[test]
fn metadata_frames_are_unsupported() {
    let mut enc = QltpCodec::new(3);
    let mut dec = QltpCodec::new(3);
    let mut buf = Vec::new();
    enc.encode(MessageType::Metadata, &[9], &mut buf).unwrap();
    assert_eq!(dec.decode(&mut buf).unwrap_err(), CodecError::Unsupported);
    assert!(buf.is_empty());
}
