//! The values handed to the encoder and the decoder.

use vstd::prelude::*;

verus! {

/// A file the engine reads or writes.
pub struct FileSpec {
    pub path: String,
    pub name: String,
    pub size: u64,
}

/// The trailer record: where the hidden payload starts and how long its
/// encrypted chunk stream is.
pub struct HideSpec {
    pub append_name: String,
    /// Bytes of the encrypted chunk stream, length fields included.
    pub append_size: u64,
    /// Length of the carrier before anything was appended.
    pub src_size: u64,
}

} // verus!
