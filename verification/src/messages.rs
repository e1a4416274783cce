//! Protocol messages: capability and chunk flag sets, message and error
//! codes, and the message records themselves.
//!
//! Identifiers (sessions, clients, transfers) are 128-bit UUIDs, held here
//! as their `u128` value (the big-endian reading of their 16 bytes).

use vstd::prelude::*;
use crate::clock::unix_now_secs;

verus! {

/// Protocol magic number: "QLTP" in ASCII.
pub const PROTOCOL_MAGIC: u32 = 0x514C5450;

/// Current protocol version.
pub const PROTOCOL_VERSION: u8 = 0x01;

/// Maximum message payload size (16 MB).
pub const MAX_PAYLOAD_SIZE: u32 = 16777216;

/// Default chunk size (4 KB).
pub const DEFAULT_CHUNK_SIZE: u32 = 4096;

/// Protocol capabilities bitfield.
#[derive(Debug, Clone, Copy, PartialEq, Eq, Structural)]
pub struct Capabilities(pub u32);

impl Capabilities {
    pub const COMPRESSION_LZ4: u32 = 1;
    pub const COMPRESSION_ZSTD: u32 = 2;
    pub const DEDUPLICATION: u32 = 4;
    pub const RESUME: u32 = 8;
    pub const TLS: u32 = 16;
    pub const QUIC: u32 = 32;
    pub const PARALLEL_STREAMS: u32 = 64;
    pub const DELTA_ENCODING: u32 = 128;

    /// The empty capability set.
    pub fn new() -> (c: Self)
        ensures
            c.0 == 0,
    {
        Capabilities(0)
    }

    pub fn with_compression_lz4(self) -> (c: Self)
        ensures
            c.0 == self.0 | 1,
    {
        Capabilities(self.0 | Self::COMPRESSION_LZ4)
    }

    pub fn with_compression_zstd(self) -> (c: Self)
        ensures
            c.0 == self.0 | 2,
    {
        Capabilities(self.0 | Self::COMPRESSION_ZSTD)
    }

    pub fn with_deduplication(self) -> (c: Self)
        ensures
            c.0 == self.0 | 4,
    {
        Capabilities(self.0 | Self::DEDUPLICATION)
    }

    pub fn with_resume(self) -> (c: Self)
        ensures
            c.0 == self.0 | 8,
    {
        Capabilities(self.0 | Self::RESUME)
    }

    pub fn with_tls(self) -> (c: Self)
        ensures
            c.0 == self.0 | 16,
    {
        Capabilities(self.0 | Self::TLS)
    }

    pub fn with_parallel_streams(self) -> (c: Self)
        ensures
            c.0 == self.0 | 64,
    {
        Capabilities(self.0 | Self::PARALLEL_STREAMS)
    }

    /// Whether any bit of `capability` is set.
    pub fn has(&self, capability: u32) -> (r: bool)
        ensures
            r == (self.0 & capability != 0),
    {
        (self.0 & capability) != 0
    }

    /// The client's default set: LZ4, Zstd, deduplication, resume and
    /// parallel streams.
    pub fn default_client() -> (c: Self)
        ensures
            c.0 == 79,
    {
        let c = Self::new().with_compression_lz4().with_compression_zstd().with_deduplication().with_resume().with_parallel_streams();
        assert(((((0u32 | 1) | 2) | 4) | 8) | 64 == 79u32) by (bit_vector);
        c
    }

}

impl Default for Capabilities {
    /// The default set is empty.
    fn default() -> (c: Self)
        ensures
            c.0 == 0,
    {
        Self::new()
    }
}

/// Setting a capability bit makes `has` report it, and keeps every bit that
/// was set before.
pub proof fn lemma_capability_set_then_has(bits: u32, flag: u32, other: u32)
    requires
        flag != 0,
        bits & other != 0,
    ensures
        (bits | flag) & flag != 0,
        (bits | flag) & other != 0,
{
    assert((bits | flag) & flag != 0) by (bit_vector)
        requires
            flag != 0,
    ;
    assert((bits | flag) & other != 0) by (bit_vector)
        requires
            bits & other != 0,
    ;
}

/// The client's default capability set holds exactly LZ4, Zstd,
/// deduplication, resume and parallel streams.
pub proof fn lemma_default_client_bits()
    ensures
        79u32 & Capabilities::COMPRESSION_LZ4 != 0,
        79u32 & Capabilities::COMPRESSION_ZSTD != 0,
        79u32 & Capabilities::DEDUPLICATION != 0,
        79u32 & Capabilities::RESUME != 0,
        79u32 & Capabilities::PARALLEL_STREAMS != 0,
        79u32 & Capabilities::TLS == 0,
        79u32 & Capabilities::QUIC == 0,
        79u32 & Capabilities::DELTA_ENCODING == 0,
{
    assert(79u32 & 1 != 0 && 79u32 & 2 != 0 && 79u32 & 4 != 0 && 79u32 & 8 != 0 && 79u32 & 64 != 0
        && 79u32 & 16 == 0 && 79u32 & 32 == 0 && 79u32 & 128 == 0) by (bit_vector);
}

/// Message types.
#[derive(Debug, Clone, Copy, PartialEq, Eq, Structural)]
pub enum MessageType {
    Hello,
    Welcome,
    TransferStart,
    TransferAck,
    ChunkData,
    ChunkAck,
    TransferEnd,
    TransferComplete,
    Error,
    Ping,
    Pong,
    ResumeRequest,
    ResumeAck,
    Metadata,
    Goodbye,
}

/// Wire code of each message type.
pub open spec fn spec_message_code(t: MessageType) -> u8 {
    match t {
        MessageType::Hello => 0x01,
        MessageType::Welcome => 0x02,
        MessageType::TransferStart => 0x03,
        MessageType::TransferAck => 0x04,
        MessageType::ChunkData => 0x05,
        MessageType::ChunkAck => 0x06,
        MessageType::TransferEnd => 0x07,
        MessageType::TransferComplete => 0x08,
        MessageType::Error => 0x09,
        MessageType::Ping => 0x0A,
        MessageType::Pong => 0x0B,
        MessageType::ResumeRequest => 0x0C,
        MessageType::ResumeAck => 0x0D,
        MessageType::Metadata => 0x0E,
        MessageType::Goodbye => 0x0F,
    }
}

/// The message type whose code is `v`, if any.
pub open spec fn spec_message_type_of(v: u8) -> Option<MessageType> {
    if v == 0x01 {
        Some(MessageType::Hello)
    } else if v == 0x02 {
        Some(MessageType::Welcome)
    } else if v == 0x03 {
        Some(MessageType::TransferStart)
    } else if v == 0x04 {
        Some(MessageType::TransferAck)
    } else if v == 0x05 {
        Some(MessageType::ChunkData)
    } else if v == 0x06 {
        Some(MessageType::ChunkAck)
    } else if v == 0x07 {
        Some(MessageType::TransferEnd)
    } else if v == 0x08 {
        Some(MessageType::TransferComplete)
    } else if v == 0x09 {
        Some(MessageType::Error)
    } else if v == 0x0A {
        Some(MessageType::Ping)
    } else if v == 0x0B {
        Some(MessageType::Pong)
    } else if v == 0x0C {
        Some(MessageType::ResumeRequest)
    } else if v == 0x0D {
        Some(MessageType::ResumeAck)
    } else if v == 0x0E {
        Some(MessageType::Metadata)
    } else if v == 0x0F {
        Some(MessageType::Goodbye)
    } else {
        None
    }
}

impl MessageType {
    /// Decode a wire code.
    pub fn from_u8(value: u8) -> (r: Option<Self>)
        ensures
            r == spec_message_type_of(value),
    {
        match value {
            0x01 => Some(MessageType::Hello),
            0x02 => Some(MessageType::Welcome),
            0x03 => Some(MessageType::TransferStart),
            0x04 => Some(MessageType::TransferAck),
            0x05 => Some(MessageType::ChunkData),
            0x06 => Some(MessageType::ChunkAck),
            0x07 => Some(MessageType::TransferEnd),
            0x08 => Some(MessageType::TransferComplete),
            0x09 => Some(MessageType::Error),
            0x0A => Some(MessageType::Ping),
            0x0B => Some(MessageType::Pong),
            0x0C => Some(MessageType::ResumeRequest),
            0x0D => Some(MessageType::ResumeAck),
            0x0E => Some(MessageType::Metadata),
            0x0F => Some(MessageType::Goodbye),
            _ => None,
        }
    }

    /// The wire code of this message type.
    pub fn to_u8(&self) -> (r: u8)
        ensures
            r == spec_message_code(*self),
    {
        match self {
            MessageType::Hello => 0x01,
            MessageType::Welcome => 0x02,
            MessageType::TransferStart => 0x03,
            MessageType::TransferAck => 0x04,
            MessageType::ChunkData => 0x05,
            MessageType::ChunkAck => 0x06,
            MessageType::TransferEnd => 0x07,
            MessageType::TransferComplete => 0x08,
            MessageType::Error => 0x09,
            MessageType::Ping => 0x0A,
            MessageType::Pong => 0x0B,
            MessageType::ResumeRequest => 0x0C,
            MessageType::ResumeAck => 0x0D,
            MessageType::Metadata => 0x0E,
            MessageType::Goodbye => 0x0F,
        }
    }
}

/// Message codes round-trip: decoding the code of a type gives the type
/// back, and a code decodes to a type only if it is that type's code.
pub proof fn lemma_message_code_roundtrip(t: MessageType, v: u8)
    ensures
        spec_message_type_of(spec_message_code(t)) == Some(t),
        spec_message_type_of(v) == Some(t) ==> spec_message_code(t) == v,
        spec_message_type_of(v) is Some <==> 1 <= v <= 15,
{
}

/// Error codes.
#[derive(Debug, Clone, Copy, PartialEq, Eq, Structural)]
pub enum ErrorCode {
    Success,
    ProtocolError,
    InvalidMessage,
    UnsupportedVersion,
    AuthenticationFailed,
    InsufficientSpace,
    FileNotFound,
    PermissionDenied,
    ChecksumMismatch,
    Timeout,
    ConnectionLost,
    TransferAborted,
    ResourceExhausted,
}

/// The name of an error code, as its debug form prints it.
pub open spec fn spec_error_code_name(c: ErrorCode) -> Seq<char> {
    match c {
        ErrorCode::Success => "Success"@,
        ErrorCode::ProtocolError => "ProtocolError"@,
        ErrorCode::InvalidMessage => "InvalidMessage"@,
        ErrorCode::UnsupportedVersion => "UnsupportedVersion"@,
        ErrorCode::AuthenticationFailed => "AuthenticationFailed"@,
        ErrorCode::InsufficientSpace => "InsufficientSpace"@,
        ErrorCode::FileNotFound => "FileNotFound"@,
        ErrorCode::PermissionDenied => "PermissionDenied"@,
        ErrorCode::ChecksumMismatch => "ChecksumMismatch"@,
        ErrorCode::Timeout => "Timeout"@,
        ErrorCode::ConnectionLost => "ConnectionLost"@,
        ErrorCode::TransferAborted => "TransferAborted"@,
        ErrorCode::ResourceExhausted => "ResourceExhausted"@,
    }
}

impl ErrorCode {
    /// The code's name.
    pub fn name(&self) -> (s: &'static str)
        ensures
            s@ == spec_error_code_name(*self),
    {
        match self {
            ErrorCode::Success => "Success",
            ErrorCode::ProtocolError => "ProtocolError",
            ErrorCode::InvalidMessage => "InvalidMessage",
            ErrorCode::UnsupportedVersion => "UnsupportedVersion",
            ErrorCode::AuthenticationFailed => "AuthenticationFailed",
            ErrorCode::InsufficientSpace => "InsufficientSpace",
            ErrorCode::FileNotFound => "FileNotFound",
            ErrorCode::PermissionDenied => "PermissionDenied",
            ErrorCode::ChecksumMismatch => "ChecksumMismatch",
            ErrorCode::Timeout => "Timeout",
            ErrorCode::ConnectionLost => "ConnectionLost",
            ErrorCode::TransferAborted => "TransferAborted",
            ErrorCode::ResourceExhausted => "ResourceExhausted",
        }
    }
}

/// Compression algorithms.
#[derive(Debug, Clone, Copy, PartialEq, Eq, Structural)]
pub enum CompressionType {
    /// No compression (the `None` code on the wire)
    NoCompression,
    Lz4,
    Zstd,
}

/// Hash algorithms.
#[derive(Debug, Clone, Copy, PartialEq, Eq, Structural)]
pub enum HashAlgorithm {
    Sha256,
}

/// Chunk flags.
#[derive(Debug, Clone, Copy, PartialEq, Eq, Structural)]
pub struct ChunkFlags(pub u8);

impl ChunkFlags {
    pub const COMPRESSED: u8 = 1;
    pub const DEDUPLICATED: u8 = 2;
    pub const LAST_CHUNK: u8 = 4;
    pub const ENCRYPTED: u8 = 8;

    /// No flag set.
    pub fn new() -> (f: Self)
        ensures
            f.0 == 0,
    {
        ChunkFlags(0)
    }

    pub fn with_compressed(self) -> (f: Self)
        ensures
            f.0 == self.0 | 1,
    {
        ChunkFlags(self.0 | Self::COMPRESSED)
    }

    pub fn with_deduplicated(self) -> (f: Self)
        ensures
            f.0 == self.0 | 2,
    {
        ChunkFlags(self.0 | Self::DEDUPLICATED)
    }

    pub fn with_last_chunk(self) -> (f: Self)
        ensures
            f.0 == self.0 | 4,
    {
        ChunkFlags(self.0 | Self::LAST_CHUNK)
    }

    pub fn is_compressed(&self) -> (r: bool)
        ensures
            r == (self.0 & 1 != 0),
    {
        (self.0 & Self::COMPRESSED) != 0
    }

    pub fn is_deduplicated(&self) -> (r: bool)
        ensures
            r == (self.0 & 2 != 0),
    {
        (self.0 & Self::DEDUPLICATED) != 0
    }

    pub fn is_last_chunk(&self) -> (r: bool)
        ensures
            r == (self.0 & 4 != 0),
    {
        (self.0 & Self::LAST_CHUNK) != 0
    }

}

impl Default for ChunkFlags {
    /// The default flag set is empty.
    fn default() -> (f: Self)
        ensures
            f.0 == 0,
    {
        Self::new()
    }
}

/// Each chunk flag is independent of the others: setting one never sets or
/// clears another.
pub proof fn lemma_chunk_flags_independent(bits: u8)
    ensures
        (bits | 1) & 1 != 0,
        (bits | 2) & 2 != 0,
        (bits | 4) & 4 != 0,
        ((bits | 1) & 2 != 0) == (bits & 2 != 0),
        ((bits | 1) & 4 != 0) == (bits & 4 != 0),
        ((bits | 2) & 1 != 0) == (bits & 1 != 0),
        ((bits | 2) & 4 != 0) == (bits & 4 != 0),
        ((bits | 4) & 1 != 0) == (bits & 1 != 0),
        ((bits | 4) & 2 != 0) == (bits & 2 != 0),
{
    assert((bits | 1) & 1 != 0) by (bit_vector);
    assert((bits | 2) & 2 != 0) by (bit_vector);
    assert((bits | 4) & 4 != 0) by (bit_vector);
    assert(((bits | 1) & 2 != 0) == (bits & 2 != 0)) by (bit_vector);
    assert(((bits | 1) & 4 != 0) == (bits & 4 != 0)) by (bit_vector);
    assert(((bits | 2) & 1 != 0) == (bits & 1 != 0)) by (bit_vector);
    assert(((bits | 2) & 4 != 0) == (bits & 4 != 0)) by (bit_vector);
    assert(((bits | 4) & 1 != 0) == (bits & 1 != 0)) by (bit_vector);
    assert(((bits | 4) & 2 != 0) == (bits & 2 != 0)) by (bit_vector);
}

/// Base message header (30 bytes on the wire).
#[derive(Debug, Clone, Copy, PartialEq, Eq, Structural)]
pub struct MessageHeader {
    pub message_type: MessageType,
    pub flags: u8,
    pub sequence_number: u32,
    pub session_id: u128,
    pub payload_length: u32,
    pub checksum: u32,
}

impl MessageHeader {
    /// A header with zero flags, sequence number and checksum.
    pub fn new(message_type: MessageType, session_id: u128, payload_length: u32) -> (h: Self)
        ensures
            h == (MessageHeader {
                message_type,
                flags: 0,
                sequence_number: 0,
                session_id,
                payload_length,
                checksum: 0,
            }),
    {
        MessageHeader { message_type, flags: 0, sequence_number: 0, session_id, payload_length, checksum: 0 }
    }

    /// Size of the header on the wire.
    pub fn size() -> (n: usize)
        ensures
            n == 30,
    {
        30
    }
}

/// ERROR message.
#[derive(Debug, Clone)]
pub struct ErrorMessage {
    pub error_code: ErrorCode,
    pub message: String,
    pub context: Option<String>,
}

impl ErrorMessage {
    /// An error message without context.
    pub fn new(error_code: ErrorCode, message: String) -> (m: Self)
        ensures
            m.error_code == error_code,
            m.message@ == message@,
            m.context is None,
    {
        ErrorMessage { error_code, message, context: None }
    }
}

/// HELLO message.
#[derive(Debug, Clone, Copy, PartialEq, Eq, Structural)]
pub struct HelloMessage {
    pub magic: u32,
    pub version: u8,
    pub flags: u8,
    pub client_id: u128,
    pub capabilities: u32,
    pub timestamp: u64,
}

impl HelloMessage {
    /// A greeting from `client_id` offering `capabilities`, stamped with
    /// the current time in seconds.
    pub fn new(client_id: u128, capabilities: Capabilities) -> (m: Self)
        ensures
            m.magic == PROTOCOL_MAGIC,
            m.version == PROTOCOL_VERSION,
            m.flags == 0,
            m.client_id == client_id,
            m.capabilities == capabilities.0,
    {
        HelloMessage {
            magic: PROTOCOL_MAGIC,
            version: PROTOCOL_VERSION,
            flags: 0,
            client_id,
            capabilities: capabilities.0,
            timestamp: unix_now_secs(),
        }
    }
}

/// WELCOME message.
#[derive(Debug, Clone, Copy, PartialEq, Eq, Structural)]
pub struct WelcomeMessage {
    pub magic: u32,
    pub version: u8,
    pub status: ErrorCode,
    pub server_id: u128,
    pub session_id: u128,
    pub max_chunk_size: u32,
    pub max_parallel_streams: u16,
    pub timestamp: u64,
}

impl WelcomeMessage {
    /// A successful answer to a greeting, offering the default chunk size
    /// and 4 parallel streams, stamped with the current time in seconds.
    pub fn new(server_id: u128, session_id: u128) -> (m: Self)
        ensures
            m.magic == PROTOCOL_MAGIC,
            m.version == PROTOCOL_VERSION,
            m.status == ErrorCode::Success,
            m.server_id == server_id,
            m.session_id == session_id,
            m.max_chunk_size == DEFAULT_CHUNK_SIZE,
            m.max_parallel_streams == 4,
    {
        WelcomeMessage {
            magic: PROTOCOL_MAGIC,
            version: PROTOCOL_VERSION,
            status: ErrorCode::Success,
            server_id,
            session_id,
            max_chunk_size: DEFAULT_CHUNK_SIZE,
            max_parallel_streams: 4,
            timestamp: unix_now_secs(),
        }
    }
}

/// TRANSFER_START message.
#[derive(Debug, Clone)]
pub struct TransferStartMessage {
    pub transfer_id: u128,
    pub file_name: String,
    pub file_size: u64,
    pub total_chunks: u32,
    pub chunk_size: u32,
    pub compression: CompressionType,
    pub hash_algorithm: HashAlgorithm,
    pub file_hash: [u8; 32],
    pub metadata: Option<String>,
}

impl TransferStartMessage {
    /// The announcement of a new transfer under a fresh random identifier,
    /// LZ4-compressed and hashed with SHA-256, without metadata.
    pub fn new(file_name: String, file_size: u64, total_chunks: u32, chunk_size: u32, file_hash: [u8; 32]) -> (m: Self)
        ensures
            m.file_name@ == file_name@,
            m.file_size == file_size,
            m.total_chunks == total_chunks,
            m.chunk_size == chunk_size,
            m.compression == CompressionType::Lz4,
            m.hash_algorithm == HashAlgorithm::Sha256,
            m.file_hash@ == file_hash@,
            m.metadata is None,
    {
        TransferStartMessage {
            transfer_id: crate::session::random_uuid(),
            file_name,
            file_size,
            total_chunks,
            chunk_size,
            compression: CompressionType::Lz4,
            hash_algorithm: HashAlgorithm::Sha256,
            file_hash,
            metadata: None,
        }
    }
}

/// TRANSFER_ACK message.
#[derive(Debug, Clone, Copy, PartialEq, Eq, Structural)]
pub struct TransferAckMessage {
    pub transfer_id: u128,
    pub status: ErrorCode,
    pub resume_offset: u64,
    pub available_space: u64,
    pub preferred_chunk_size: u32,
}

/// CHUNK_DATA message.
#[derive(Debug, Clone)]
pub struct ChunkDataMessage {
    pub transfer_id: u128,
    pub chunk_index: u32,
    pub chunk_offset: u64,
    pub original_size: u32,
    pub compressed_size: u32,
    pub chunk_hash: [u8; 32],
    pub compression_type: CompressionType,
    pub flags: u8,
    pub data: Vec<u8>,
}

impl ChunkDataMessage {
    /// An uncompressed chunk; its sizes are the data's length taken modulo
    /// 2^32.
    pub fn new(transfer_id: u128, chunk_index: u32, chunk_offset: u64, data: Vec<u8>, chunk_hash: [u8; 32]) -> (m: Self)
        ensures
            m.transfer_id == transfer_id,
            m.chunk_index == chunk_index,
            m.chunk_offset == chunk_offset,
            m.original_size == data@.len() as u32,
            m.compressed_size == data@.len() as u32,
            m.chunk_hash@ == chunk_hash@,
            m.compression_type == CompressionType::NoCompression,
            m.flags == 0,
            m.data@ == data@,
    {
        let original_size = data.len() as u32;
        ChunkDataMessage {
            transfer_id,
            chunk_index,
            chunk_offset,
            original_size,
            compressed_size: original_size,
            chunk_hash,
            compression_type: CompressionType::NoCompression,
            flags: 0,
            data,
        }
    }
}

/// CHUNK_ACK message.
#[derive(Debug, Clone, Copy, PartialEq, Eq, Structural)]
pub struct ChunkAckMessage {
    pub transfer_id: u128,
    pub chunk_index: u32,
    pub status: ErrorCode,
    pub received_size: u32,
    pub timestamp: u64,
}

impl ChunkAckMessage {
    /// A successful acknowledgment of a chunk, stamped with the current
    /// time in seconds.
    pub fn new(transfer_id: u128, chunk_index: u32, received_size: u32) -> (m: Self)
        ensures
            m.transfer_id == transfer_id,
            m.chunk_index == chunk_index,
            m.status == ErrorCode::Success,
            m.received_size == received_size,
    {
        ChunkAckMessage {
            transfer_id,
            chunk_index,
            status: ErrorCode::Success,
            received_size,
            timestamp: unix_now_secs(),
        }
    }
}

/// TRANSFER_END message. The compression ratio, a 32-bit float on the
/// wire, is held by its IEEE 754 bit pattern.
#[derive(Debug, Clone, Copy)]
pub struct TransferEndMessage {
    pub transfer_id: u128,
    pub total_bytes_sent: u64,
    pub total_chunks: u32,
    pub compression_ratio_bits: u32,
    pub transfer_duration_ms: u64,
    pub file_hash: [u8; 32],
}

/// TRANSFER_COMPLETE message.
#[derive(Debug, Clone)]
pub struct TransferCompleteMessage {
    pub transfer_id: u128,
    pub status: ErrorCode,
    pub total_bytes_received: u64,
    pub verified_hash: [u8; 32],
    pub storage_path: String,
}

/// RESUME_REQUEST message.
#[derive(Debug, Clone, Copy)]
pub struct ResumeRequestMessage {
    pub transfer_id: u128,
    pub last_chunk_index: u32,
    pub last_chunk_offset: u64,
    pub partial_file_hash: [u8; 32],
}

/// RESUME_ACK message.
#[derive(Debug, Clone, Copy, PartialEq, Eq, Structural)]
pub struct ResumeAckMessage {
    pub transfer_id: u128,
    pub resume_from_chunk: u32,
    pub resume_from_offset: u64,
    pub status: ErrorCode,
}

/// Complete protocol message.
#[derive(Debug, Clone)]
pub enum Message {
    Hello(HelloMessage),
    Welcome(WelcomeMessage),
    TransferStart(TransferStartMessage),
    TransferAck(TransferAckMessage),
    ChunkData(ChunkDataMessage),
    ChunkAck(ChunkAckMessage),
    TransferEnd(TransferEndMessage),
    TransferComplete(TransferCompleteMessage),
    Error(ErrorMessage),
    Ping,
    Pong,
    ResumeRequest(ResumeRequestMessage),
    ResumeAck(ResumeAckMessage),
    Goodbye,
}

/// The type a message reports: its own, except that a transfer
/// acknowledgment reports `TransferStart` and a completion `TransferEnd`.
pub open spec fn spec_message_type(m: Message) -> MessageType {
    match m {
        Message::Hello(_) => MessageType::Hello,
        Message::Welcome(_) => MessageType::Welcome,
        Message::TransferStart(_) => MessageType::TransferStart,
        Message::TransferAck(_) => MessageType::TransferStart,
        Message::ChunkData(_) => MessageType::ChunkData,
        Message::ChunkAck(_) => MessageType::ChunkAck,
        Message::TransferEnd(_) => MessageType::TransferEnd,
        Message::TransferComplete(_) => MessageType::TransferEnd,
        Message::Error(_) => MessageType::Error,
        Message::Ping => MessageType::Ping,
        Message::Pong => MessageType::Pong,
        Message::ResumeRequest(_) => MessageType::ResumeRequest,
        Message::ResumeAck(_) => MessageType::ResumeAck,
        Message::Goodbye => MessageType::Goodbye,
    }
}

impl Message {
    /// The message's type (see `spec_message_type`).
    pub fn message_type(&self) -> (t: MessageType)
        ensures
            t == spec_message_type(*self),
    {
        match self {
            Message::Hello(_) => MessageType::Hello,
            Message::Welcome(_) => MessageType::Welcome,
            Message::TransferStart(_) => MessageType::TransferStart,
            Message::TransferAck(_) => MessageType::TransferStart,
            Message::ChunkData(_) => MessageType::ChunkData,
            Message::ChunkAck(_) => MessageType::ChunkAck,
            Message::TransferEnd(_) => MessageType::TransferEnd,
            Message::TransferComplete(_) => MessageType::TransferEnd,
            Message::Error(_) => MessageType::Error,
            Message::Ping => MessageType::Ping,
            Message::Pong => MessageType::Pong,
            Message::ResumeRequest(_) => MessageType::ResumeRequest,
            Message::ResumeAck(_) => MessageType::ResumeAck,
            Message::Goodbye => MessageType::Goodbye,
        }
    }
}

} // verus!
