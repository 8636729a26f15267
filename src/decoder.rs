//! The decoder's decisions. The driver probes the end of the file with
//! `has_append_file`, reads the trailer through `hide_spec_field_offset`,
//! `hide_spec_location` and `open_hide_spec`, checks the delimiter at the
//! recorded carrier size with `check_boundary`, and then, chunk by chunk,
//! reads a length field (`read_chunk_len`), the bytes it announces, hands
//! both to `decode_chunk`, writes the block, and reports to `block_written`.

use vstd::prelude::*;

use crate::chunk::{parsed_chunk, parse_chunk, ChunkSpec};
use crate::error::HideError;
use crate::file::HideSpec;
use crate::format::{
    field_value, is_magic, magic, parse_hex_field, FieldError, CHUNK_LEN_SIZE, CHUNK_SIZE,
    HASH_TEXT_SIZE, MAGIC_LEN,
};
use crate::progress::{report, sat_add, saturating_add, progress_report, CancelFlag, Flow};

verus! {

/// Asks the running decode to stop after its current chunk.
pub fn cancel(flag: &mut CancelFlag)
    ensures
        final(flag).cancelled,
{
    flag.cancelled = true;
}

/// Whether the file's contents `f` end with the magic delimiter after at
/// least one other byte.
pub open spec fn has_marker(f: Seq<u8>) -> bool {
    f.len() > MAGIC_LEN && f.subrange(f.len() - MAGIC_LEN, f.len() as int) == magic()
}

/// Where the delimiter would start in a file of `file_size` bytes, or
/// `None` when the file is not longer than the delimiter.
pub fn magic_offset(file_size: u64) -> (r: Option<u64>)
    ensures
        match r {
            Some(off) => file_size > MAGIC_LEN && off == file_size - MAGIC_LEN,
            None => file_size <= MAGIC_LEN,
        },
{
    if file_size <= MAGIC_LEN as u64 {
        None
    } else {
        Some(file_size - MAGIC_LEN as u64)
    }
}

/// Whether a file of `file_size` bytes whose last bytes are `tail` carries
/// a hidden payload: it is longer than the delimiter and ends with it.
pub fn has_append_file(file_size: u64, tail: &[u8]) -> (r: bool)
    ensures
        r == (file_size > MAGIC_LEN && tail@ == magic()),
{
    file_size > MAGIC_LEN as u64 && is_magic(tail)
}

/// Checks the delimiter found at the recorded end of the carrier.
pub fn check_boundary(marker: &[u8]) -> (r: Result<(), HideError>)
    ensures
        match r {
            Ok(()) => marker@ == magic(),
            Err(e) => e == HideError::MarkerNotFound && marker@ != magic(),
        },
{
    if is_magic(marker) {
        Ok(())
    } else {
        Err(HideError::MarkerNotFound)
    }
}

/// Largest ciphertext-plus-digest length the decoder accepts for one chunk.
pub const MAX_CHUNK_PAYLOAD: usize = 4 * CHUNK_SIZE;

/// What a chunk's length field announces, as `read_chunk_len` returns it.
pub open spec fn chunk_length(field: Seq<u8>) -> Result<nat, HideError> {
    match field_value(field) {
        Err(FieldError::Empty) => Err(HideError::EmptyLength),
        Err(FieldError::NotHex) => Err(HideError::InvalidLength),
        Ok(len) => if len > MAX_CHUNK_PAYLOAD {
            Err(HideError::ChunkTooLarge)
        } else {
            Ok(len)
        },
    }
}

/// Reads a chunk's length field.
pub fn read_chunk_len(field: &[u8]) -> (r: Result<usize, HideError>)
    requires
        field@.len() == CHUNK_LEN_SIZE,
    ensures
        chunk_length(field@) == match r {
            Ok(v) => Ok::<nat, HideError>(v as nat),
            Err(e) => Err::<nat, HideError>(e),
        },
        r matches Ok(v) ==> v <= MAX_CHUNK_PAYLOAD,
{
    match parse_hex_field(field) {
        Err(FieldError::Empty) => Err(HideError::EmptyLength),
        Err(FieldError::NotHex) => Err(HideError::InvalidLength),
        Ok(v) => if v > MAX_CHUNK_PAYLOAD as u64 {
            Err(HideError::ChunkTooLarge)
        } else {
            Ok(v as usize)
        },
    }
}

/// What decoding the chunk with length field `field` and body `payload` gives.
pub open spec fn decoded_chunk(password: Seq<char>, field: Seq<u8>, payload: Seq<u8>) -> Result<
    Seq<u8>,
    HideError,
> {
    if payload.len() < HASH_TEXT_SIZE {
        Err(HideError::BufferTooSmall)
    } else {
        parsed_chunk(password, field + payload)
    }
}

/// Puts a chunk back together from its length field and body, and parses it.
pub fn decode_chunk(password: &str, field: &[u8], payload: &[u8]) -> (r: Result<
    ChunkSpec,
    HideError,
>)
    requires
        field@.len() == CHUNK_LEN_SIZE,
        payload@.len() <= MAX_CHUNK_PAYLOAD,
    ensures
        decoded_chunk(password@, field@, payload@) == match r {
            Ok(cs) => Ok::<Seq<u8>, HideError>(cs.data@),
            Err(e) => Err::<Seq<u8>, HideError>(e),
        },
{
    if payload.len() < HASH_TEXT_SIZE {
        return Err(HideError::BufferTooSmall);
    }
    let mut buf: Vec<u8> = Vec::new();
    buf.extend_from_slice(field);
    buf.extend_from_slice(payload);
    assert(buf@ =~= field@ + payload@);
    parse_chunk(password, buf.as_slice())
}

/// Running totals of one decode.
pub struct Decoder {
    /// Chunk stream size recorded in the trailer.
    pub append_size: u64,
    /// Chunk stream bytes consumed so far, length fields included.
    pub current: u64,
    /// Chunks decoded so far.
    pub chunks: u64,
}

impl Decoder {
    /// Totals for decoding the payload that `spec` describes.
    pub fn new(spec: &HideSpec) -> (r: Decoder)
        ensures
            r.append_size == spec.append_size,
            r.current == 0,
            r.chunks == 0,
    {
        Decoder { append_size: spec.append_size, current: 0, chunks: 0 }
    }

    /// Accounts for a chunk of `chunk_len` announced bytes whose block was
    /// just written. The stream ends once the bytes consumed reach the
    /// recorded size.
    pub fn block_written(&mut self, chunk_len: usize, cancelled: bool) -> (f: Flow)
        ensures
            final(self).append_size == old(self).append_size,
            final(self).current == sat_add(old(self).current as nat, (CHUNK_LEN_SIZE + chunk_len) as nat),
            final(self).chunks == sat_add(old(self).chunks as nat, 1),
            f == if cancelled {
                Flow::Cancelled
            } else {
                Flow::Next {
                    progress: report(
                        final(self).chunks as nat,
                        final(self).current as nat,
                        final(self).append_size as nat,
                    ),
                    more: final(self).current < final(self).append_size,
                }
            },
    {
        let step: u64 = saturating_add(CHUNK_LEN_SIZE as u64, chunk_len as u64);
        self.current = saturating_add(self.current, step);
        self.chunks = saturating_add(self.chunks, 1);
        if cancelled {
            return Flow::Cancelled;
        }
        Flow::Next {
            progress: progress_report(self.chunks, self.current, self.append_size),
            more: self.current < self.append_size,
        }
    }
}

} // verus!
