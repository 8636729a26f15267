//! Everything that can go wrong while framing, encoding or decoding.

use vstd::prelude::*;

verus! {

/// Why an encode or decode step failed.
#[derive(Debug, Clone, Copy, PartialEq, Eq, Structural)]
pub enum HideError {
    /// A chunk, or the whole chunk stream, is above `MAX_FILE_SIZE`, or the
    /// encrypted hide-spec is above `CHUNK_SIZE`.
    TooLarge,
    /// A buffer is too short to hold a chunk.
    BufferTooSmall,
    /// A length field holds only whitespace.
    EmptyLength,
    /// A length field holds something other than hexadecimal digits.
    InvalidLength,
    /// A length field announces more bytes than the buffer holds.
    LengthExceedsBuffer,
    /// A chunk's digest does not match its ciphertext.
    ChecksumMismatch,
    /// Decryption failed, or gave a result that cannot be right.
    WrongPassword,
    /// The file is too short to hold a trailer.
    NoHideSpec,
    /// The trailer's length field is above `CHUNK_SIZE`, or points before the file.
    InvalidHideSpec,
    /// The magic delimiter is not where the trailer says the payload starts.
    MarkerNotFound,
    /// A chunk's length field is above four times `CHUNK_SIZE`.
    ChunkTooLarge,
}

} // verus!
