//! Resumable transfers: the state saved for a transfer (how far it got, and
//! a digest of the part already sent), where that state is kept, and which
//! saved states are old enough to clean up.
//!
//! Reading and writing the state files is left to the caller; this module
//! decides their names and contents.

use vstd::prelude::*;
use vstd::string::StringExecFns;
use crate::digest::{sha256, sha256_digest};
use crate::clock::unix_now_secs;
use crate::session::{uuid_parse, uuid_text};
use crate::text::{chars_of, string_from_chars};

verus! {

/// Transfer state for resume capability.
#[derive(Debug, Clone)]
pub struct TransferState {
    /// Unique transfer ID
    pub transfer_id: u128,
    /// Original file path
    pub file_path: String,
    /// File size in bytes
    pub file_size: u64,
    /// Total number of chunks
    pub total_chunks: u32,
    /// Chunk size in bytes
    pub chunk_size: u32,
    /// Last successfully transferred chunk index
    pub last_chunk_index: u32,
    /// Byte offset of last chunk
    pub last_chunk_offset: u64,
    /// Hash of partial file (up to last_chunk_offset)
    pub partial_file_hash: [u8; 32],
    /// Full file hash (for verification)
    pub full_file_hash: [u8; 32],
    /// Timestamp of last update (seconds since the Unix epoch)
    pub last_update: u64,
}

/// The bytes that the partial digest covers: the file up to the last chunk
/// offset, or all of it when it is shorter.
pub open spec fn partial_prefix(file: Seq<u8>, offset: u64) -> Seq<u8> {
    if file.len() <= offset {
        file
    } else {
        file.subrange(0, offset as int)
    }
}

impl TransferState {
    /// A new state: nothing transferred yet, no partial digest, stamped now.
    pub fn new(
        transfer_id: u128,
        file_path: String,
        file_size: u64,
        total_chunks: u32,
        chunk_size: u32,
        full_file_hash: [u8; 32],
    ) -> (s: Self)
        ensures
            s.transfer_id == transfer_id,
            s.file_path == file_path,
            s.file_size == file_size,
            s.total_chunks == total_chunks,
            s.chunk_size == chunk_size,
            s.last_chunk_index == 0,
            s.last_chunk_offset == 0,
            s.partial_file_hash@ == Seq::new(32, |i: int| 0u8),
            s.full_file_hash == full_file_hash,
    {
        let zero = [0u8; 32];
        assert(zero@ =~= Seq::new(32, |i: int| 0u8));
        TransferState {
            transfer_id,
            file_path,
            file_size,
            total_chunks,
            chunk_size,
            last_chunk_index: 0,
            last_chunk_offset: 0,
            partial_file_hash: zero,
            full_file_hash,
            last_update: unix_now_secs(),
        }
    }

    /// Record that chunk `chunk_index`, at `chunk_offset`, was transferred.
    pub fn update_progress(&mut self, chunk_index: u32, chunk_offset: u64)
        ensures
            final(self).last_chunk_index == chunk_index,
            final(self).last_chunk_offset == chunk_offset,
            final(self).transfer_id == old(self).transfer_id,
            final(self).file_path == old(self).file_path,
            final(self).file_size == old(self).file_size,
            final(self).total_chunks == old(self).total_chunks,
            final(self).chunk_size == old(self).chunk_size,
            final(self).partial_file_hash == old(self).partial_file_hash,
            final(self).full_file_hash == old(self).full_file_hash,
    {
        self.last_chunk_index = chunk_index;
        self.last_chunk_offset = chunk_offset;
        self.last_update = unix_now_secs();
    }

    /// Set the partial digest from the file's contents: the digest of the
    /// file up to the last chunk offset (all of it when it is shorter).
    pub fn apply_partial_hash(&mut self, file: &[u8])
        ensures
            final(self).partial_file_hash@ == sha256(partial_prefix(file@, old(self).last_chunk_offset)),
            final(self).last_chunk_index == old(self).last_chunk_index,
            final(self).last_chunk_offset == old(self).last_chunk_offset,
            final(self).transfer_id == old(self).transfer_id,
            final(self).full_file_hash == old(self).full_file_hash,
    {
        let end: usize = if (file.len() as u64) <= self.last_chunk_offset {
            file.len()
        } else {
            self.last_chunk_offset as usize
        };
        let prefix = vstd::slice::slice_subrange(file, 0, end);
        proof {
            if file@.len() <= self.last_chunk_offset {
                assert(file@.subrange(0, end as int) =~= file@);
            }
        }
        self.partial_file_hash = sha256_digest(prefix);
    }

    /// Whether the last chunk was transferred.
    pub fn is_complete(&self) -> (b: bool)
        requires
            self.total_chunks > 0,
        ensures
            b == (self.last_chunk_index >= self.total_chunks - 1),
    {
        self.last_chunk_index >= self.total_chunks - 1
    }
}

/// Name of the file that keeps a transfer's state: its id's text and
/// `.state`.
pub open spec fn spec_state_file_name(transfer_id: u128) -> Seq<char> {
    uuid_text(transfer_id) + ".state"@
}

/// The transfer whose state a file name holds: a name made of a non-empty
/// stem and `.state`, whose stem reads as an identifier.
pub open spec fn spec_state_file_id(name: Seq<char>) -> Option<u128> {
    if name.len() > 6 && name.subrange(name.len() - 6, name.len() as int) == ".state"@ {
        uuid_parse(name.subrange(0, name.len() - 6))
    } else {
        None
    }
}

/// A saved state is older than `days` days at `now_secs`.
pub open spec fn spec_expired(last_update: u64, now_secs: u64, days: u64) -> bool {
    last_update < now_secs - days * 86400
}

/// Resume manager: where transfer states are kept.
pub struct ResumeManager {
    state_dir: String,
}

impl ResumeManager {
    /// The directory that holds the state files.
    pub closed spec fn spec_state_dir(&self) -> Seq<char> {
        self.state_dir@
    }

    /// Create a resume manager keeping states in `state_dir`.
    pub fn new(state_dir: &str) -> (m: Self)
        ensures
            m.spec_state_dir() == state_dir@,
    {
        ResumeManager { state_dir: String::from_str(state_dir) }
    }

    /// The directory that holds the state files.
    pub fn state_dir(&self) -> (d: &str)
        ensures
            d@ == self.spec_state_dir(),
    {
        self.state_dir.as_str()
    }

    /// Name of the file keeping a transfer's state.
    pub fn state_file_name(transfer_id: u128) -> (n: String)
        ensures
            n@ == spec_state_file_name(transfer_id),
    {
        let mut n = crate::session::SessionId::from_uuid(transfer_id).to_string();
        n.append(".state");
        n
    }

    /// The transfer whose state a file name keeps, if it is a state file.
    pub fn transfer_id_of_file(name: &str) -> (r: Option<u128>)
        ensures
            r == spec_state_file_id(name@),
            forall|id: u128| name@ == spec_state_file_name(id) ==> r == Some(id),
    {
        let chars = chars_of(name);
        let n = chars.len();
        proof {
            reveal_strlit(".state");
            assert forall|id: u128| name@ == spec_state_file_name(id) implies n > 6 && name@.subrange(
                n - 6,
                n as int,
            ) == ".state"@ by {
                assert(uuid_text(id).len() == 36);
                assert(name@.subrange(n - 6, n as int) =~= ".state"@);
            }
        }
        if n <= 6 {
            return None;
        }
        let suffix = string_from_chars(&chars, n - 6, n);
        if !crate::backend_capabilities::str_eq(suffix.as_str(), ".state") {
            return None;
        }
        let stem = string_from_chars(&chars, 0, n - 6);
        proof {
            assert forall|id: u128| name@ == spec_state_file_name(id) implies stem@ == uuid_text(id) by {
                assert(stem@ =~= (uuid_text(id) + ".state"@).subrange(0, n - 6));
                assert((uuid_text(id) + ".state"@).subrange(0, n - 6) =~= uuid_text(id));
            }
        }
        match crate::session::SessionId::from_string(stem.as_str()) {
            Ok(id) => Some(id.0),
            Err(_) => None,
        }
    }

    /// Whether a state last updated at `last_update` is older than `days`
    /// days at `now_secs`.
    pub fn is_expired(last_update: u64, now_secs: u64, days: u64) -> (b: bool)
        requires
            days * 86400 <= now_secs,
        ensures
            b == spec_expired(last_update, now_secs, days),
    {
        last_update < now_secs - days * 86400
    }

    /// The ids of the saved states that are older than `days` days, in the
    /// order given.
    pub fn expired_states(states: &Vec<TransferState>, now_secs: u64, days: u64) -> (v: Vec<u128>)
        requires
            days * 86400 <= now_secs,
        ensures
            v@ == states@.filter(|s: TransferState| spec_expired(s.last_update, now_secs, days)).map_values(
                |s: TransferState| s.transfer_id,
            ),
    {
        let ghost pred = |s: TransferState| spec_expired(s.last_update, now_secs, days);
        let mut out: Vec<u128> = Vec::new();
        let mut i: usize = 0;
        while i < states.len()
            invariant
                i <= states@.len(),
                days * 86400 <= now_secs,
                pred == (|s: TransferState| spec_expired(s.last_update, now_secs, days)),
                out@ == states@.take(i as int).filter(pred).map_values(|s: TransferState| s.transfer_id),
            decreases states@.len() - i,
        {
            reveal_with_fuel(Seq::<_>::filter, 1);
            assert(states@.take(i + 1).drop_last() =~= states@.take(i as int));
            assert(states@.take(i + 1).last() == states@[i as int]);
            if Self::is_expired(states[i].last_update, now_secs, days) {
                out.push(states[i].transfer_id);
                assert(out@ =~= states@.take(i as int).filter(pred).push(states@[i as int]).map_values(
                    |s: TransferState| s.transfer_id,
                ));
            }
            i = i + 1;
        }
        assert(states@.take(states@.len() as int) =~= states@);
        out
    }

    /// The current time in seconds since the Unix epoch.
    pub fn now_secs() -> (t: u64) {
        unix_now_secs()
    }
}

} // verus!
