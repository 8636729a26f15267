//! The encoder's decisions. The driver copies the carrier in blocks of at
//! most `CHUNK_SIZE` bytes, writes the magic delimiter, turns each block of
//! the append file into a chunk with `append_block`, and reports every
//! written block to `block_written`, which says whether to go on. The
//! trailer comes from `hide_spec` and `make_trailer`.

use vstd::prelude::*;

use crate::chunk::{chunk_bytes, chunk_made, make_chunk};
use crate::crypto::cipher_text;
use crate::error::HideError;
use crate::file::{FileSpec, HideSpec};
use crate::format::{CHUNK_SIZE, HASH_TEXT_SIZE, MAX_FILE_SIZE};
use crate::progress::{report, sat_add, saturating_add, progress_report, CancelFlag, Flow};

verus! {

/// Asks the running encode to stop after its current block.
pub fn cancel(flag: &mut CancelFlag)
    ensures
        final(flag).cancelled,
{
    flag.cancelled = true;
}

/// Running totals of one encode.
pub struct Encoder {
    /// Carrier and append sizes together.
    pub total: u64,
    /// Plaintext bytes read from either input so far.
    pub current: u64,
    /// Blocks written so far, from either input.
    pub chunks: u64,
    /// Bytes of chunk stream written so far.
    pub encrypted_size: u64,
    /// The carrier's size.
    pub src_size: u64,
}

impl Encoder {
    pub open spec fn wf(&self) -> bool {
        self.encrypted_size <= MAX_FILE_SIZE
    }

    /// Totals for encoding `append` behind `src`.
    pub fn new(src: &FileSpec, append: &FileSpec) -> (r: Encoder)
        ensures
            r.wf(),
            r.total == sat_add(src.size as nat, append.size as nat),
            r.current == 0,
            r.chunks == 0,
            r.encrypted_size == 0,
            r.src_size == src.size,
    {
        Encoder {
            total: saturating_add(src.size, append.size),
            current: 0,
            chunks: 0,
            encrypted_size: 0,
            src_size: src.size,
        }
    }

    /// Turns a block of the append file into the chunk to write. Fails with
    /// `TooLarge`, and leaves the totals alone, exactly when the chunk cannot
    /// be made or would take the chunk stream above `MAX_FILE_SIZE`.
    pub fn append_block(&mut self, password: &str, block: &[u8]) -> (r: Result<
        Vec<u8>,
        HideError,
    >)
        requires
            old(self).wf(),
        ensures
            final(self).wf(),
            final(self).total == old(self).total,
            final(self).current == old(self).current,
            final(self).chunks == old(self).chunks,
            final(self).src_size == old(self).src_size,
            match r {
                Ok(c) => {
                    &&& chunk_made(password@, block@, c@)
                    &&& final(self).encrypted_size == old(self).encrypted_size + c@.len()
                },
                Err(e) => {
                    &&& e == HideError::TooLarge
                    &&& final(self).encrypted_size == old(self).encrypted_size
                    &&& (cipher_text(password@, block@).len() + HASH_TEXT_SIZE > MAX_FILE_SIZE
                        || old(self).encrypted_size + chunk_bytes(password@, block@).len()
                        > MAX_FILE_SIZE)
                },
            },
    {
        let c = match make_chunk(password, block) {
            Ok(c) => c,
            Err(e) => return Err(e),
        };
        if c.len() as u64 > MAX_FILE_SIZE - self.encrypted_size {
            return Err(HideError::TooLarge);
        }
        self.encrypted_size = self.encrypted_size + c.len() as u64;
        Ok(c)
    }

    /// Accounts for a block of `len` bytes that was just written. An empty
    /// block means the current input is used up and changes nothing; after
    /// any other block the driver reads on, however short the block was.
    pub fn block_written(&mut self, len: usize, cancelled: bool) -> (f: Flow)
        requires
            len <= CHUNK_SIZE,
        ensures
            final(self).total == old(self).total,
            final(self).encrypted_size == old(self).encrypted_size,
            final(self).src_size == old(self).src_size,
            len == 0 ==> {
                &&& final(self).current == old(self).current
                &&& final(self).chunks == old(self).chunks
                &&& f == Flow::Next { progress: None, more: false }
            },
            len > 0 ==> {
                &&& final(self).current == sat_add(old(self).current as nat, len as nat)
                &&& final(self).chunks == sat_add(old(self).chunks as nat, 1)
                &&& f == if cancelled {
                    Flow::Cancelled
                } else {
                    Flow::Next {
                        progress: report(
                            final(self).chunks as nat,
                            final(self).current as nat,
                            final(self).total as nat,
                        ),
                        more: true,
                    }
                }
            },
    {
        if len == 0 {
            return Flow::Next { progress: None, more: false };
        }
        self.current = saturating_add(self.current, len as u64);
        self.chunks = saturating_add(self.chunks, 1);
        if cancelled {
            return Flow::Cancelled;
        }
        Flow::Next {
            progress: progress_report(self.chunks, self.current, self.total),
            more: true,
        }
    }

    /// The trailer record for this run.
    pub fn hide_spec(&self, append_name: String) -> (r: HideSpec)
        ensures
            r.append_name == append_name,
            r.append_size == self.encrypted_size,
            r.src_size == self.src_size,
    {
        HideSpec { append_name, append_size: self.encrypted_size, src_size: self.src_size }
    }
}

} // verus!
