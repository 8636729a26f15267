//! The chunk codec: `length field || ciphertext || digest`, where the length
//! field counts the ciphertext and the digest, and the digest is taken over
//! the ciphertext.

use vstd::prelude::*;
use vstd::slice::slice_subrange;
use vstd::slice::slice_to_vec;

use crate::crypto::{cipher_text, decrypt, digest_text, encrypt, hash, plain_text, sealed_len};
use crate::error::HideError;
use crate::format::{
    bytes_eq, field_value, hex_field, hex_str, lemma_hex_field_round_trip, parse_hex_field,
    FieldError, CHUNK_LEN_SIZE, CHUNK_SIZE, HASH_TEXT_SIZE, MAX_FILE_SIZE, MIN_CHUNK_LEN,
};

verus! {

/// The plaintext a chunk carries.
pub struct ChunkSpec {
    pub data: Vec<u8>,
}

/// The chunk for `block` under `password`.
pub open spec fn chunk_bytes(password: Seq<char>, block: Seq<u8>) -> Seq<u8> {
    let ct = cipher_text(password, block);
    hex_field((ct.len() + HASH_TEXT_SIZE) as nat) + ct + digest_text(ct)
}

/// `c` is what `make_chunk` returns for `password` and `block`: the chunk
/// bytes, together with what the cipher and the digest promised on the way.
pub open spec fn chunk_made(password: Seq<char>, block: Seq<u8>, c: Seq<u8>) -> bool {
    let ct = cipher_text(password, block);
    &&& c == chunk_bytes(password, block)
    &&& ct.len() + HASH_TEXT_SIZE <= MAX_FILE_SIZE
    &&& ct.len() == sealed_len(block.len())
    &&& digest_text(ct).len() == HASH_TEXT_SIZE
    &&& plain_text(password, ct) == Some(block)
}

/// The ciphertext region of a chunk buffer.
pub open spec fn cipher_region(c: Seq<u8>) -> Seq<u8> {
    c.subrange(CHUNK_LEN_SIZE as int, c.len() - HASH_TEXT_SIZE)
}

/// The digest region of a chunk buffer.
pub open spec fn digest_region(c: Seq<u8>) -> Seq<u8> {
    c.subrange(c.len() - HASH_TEXT_SIZE, c.len() as int)
}

/// What parsing the chunk buffer `c` under `password` gives: the digest is
/// checked first, then the ciphertext is decrypted and the block's size bounded.
pub open spec fn parsed_chunk(password: Seq<char>, c: Seq<u8>) -> Result<Seq<u8>, HideError> {
    let ct = cipher_region(c);
    if digest_text(ct) != digest_region(c) {
        Err(HideError::ChecksumMismatch)
    } else {
        match plain_text(password, ct) {
            None => Err(HideError::WrongPassword),
            Some(d) => if d.len() > CHUNK_SIZE {
                Err(HideError::WrongPassword)
            } else {
                Ok(d)
            },
        }
    }
}

/// Encrypts `buffer` and frames it as a chunk. Fails with `TooLarge` exactly
/// when the ciphertext and digest together would be above `MAX_FILE_SIZE`.
pub fn make_chunk(password: &str, buffer: &[u8]) -> (r: Result<Vec<u8>, HideError>)
    ensures
        match r {
            Ok(c) => chunk_made(password@, buffer@, c@),
            Err(e) => e == HideError::TooLarge && cipher_text(password@, buffer@).len()
                + HASH_TEXT_SIZE > MAX_FILE_SIZE,
        },
{
    let encrypt_text = encrypt(password, buffer);
    let hash_text = hash(encrypt_text.as_slice());
    if encrypt_text.len() as u64 > MAX_FILE_SIZE {
        return Err(HideError::TooLarge);
    }
    let text_len = encrypt_text.len() + hash_text.len();
    let hex_text_len = match hex_str(text_len as u64) {
        Some(v) => v,
        None => return Err(HideError::TooLarge),
    };
    let mut chunk: Vec<u8> = hex_text_len;
    chunk.extend_from_slice(encrypt_text.as_slice());
    chunk.extend_from_slice(hash_text.as_slice());
    assert(chunk@ =~= chunk_bytes(password@, buffer@));
    Ok(chunk)
}

/// Checks and decrypts one chunk buffer, as `parsed_chunk` describes.
pub fn parse_chunk(password: &str, buffer: &[u8]) -> (r: Result<ChunkSpec, HideError>)
    requires
        buffer@.len() >= MIN_CHUNK_LEN,
    ensures
        parsed_chunk(password@, buffer@) == match r {
            Ok(cs) => Ok::<Seq<u8>, HideError>(cs.data@),
            Err(e) => Err::<Seq<u8>, HideError>(e),
        },
{
    let n = buffer.len();
    let encrypt_text = slice_subrange(buffer, CHUNK_LEN_SIZE, n - HASH_TEXT_SIZE);
    let hash_text = slice_subrange(buffer, n - HASH_TEXT_SIZE, n);
    let expected = hash(encrypt_text);
    if !bytes_eq(hash_text, expected.as_slice()) {
        return Err(HideError::ChecksumMismatch);
    }
    match decrypt(password, encrypt_text) {
        None => Err(HideError::WrongPassword),
        Some(data) => {
            if data.len() > CHUNK_SIZE {
                Err(HideError::WrongPassword)
            } else {
                Ok(ChunkSpec { data })
            }
        },
    }
}

/// What `get_chunk_from_buffer` returns for `b`.
pub open spec fn chunk_in_buffer(b: Seq<u8>) -> Result<Seq<u8>, HideError> {
    if b.len() <= MIN_CHUNK_LEN {
        Err(HideError::BufferTooSmall)
    } else {
        match field_value(b.subrange(0, CHUNK_LEN_SIZE as int)) {
            Err(FieldError::Empty) => Err(HideError::EmptyLength),
            Err(FieldError::NotHex) => Err(HideError::InvalidLength),
            Ok(len) => if len > b.len() - CHUNK_LEN_SIZE {
                Err(HideError::LengthExceedsBuffer)
            } else {
                Ok(b.subrange(0, CHUNK_LEN_SIZE + len))
            },
        }
    }
}

/// Cuts the first chunk out of `buffer`: its length field and the bytes
/// that the field announces.
pub fn get_chunk_from_buffer(buffer: &[u8]) -> (r: Result<Vec<u8>, HideError>)
    ensures
        chunk_in_buffer(buffer@) == match r {
            Ok(c) => Ok::<Seq<u8>, HideError>(c@),
            Err(e) => Err::<Seq<u8>, HideError>(e),
        },
{
    if buffer.len() <= MIN_CHUNK_LEN {
        return Err(HideError::BufferTooSmall);
    }
    let field = slice_subrange(buffer, 0, CHUNK_LEN_SIZE);
    let text_len = match parse_hex_field(field) {
        Err(FieldError::Empty) => return Err(HideError::EmptyLength),
        Err(FieldError::NotHex) => return Err(HideError::InvalidLength),
        Ok(v) => v,
    };
    if text_len > (buffer.len() - CHUNK_LEN_SIZE) as u64 {
        return Err(HideError::LengthExceedsBuffer);
    }
    let end: usize = CHUNK_LEN_SIZE + text_len as usize;
    Ok(slice_to_vec(slice_subrange(buffer, 0, end)))
}

proof fn lemma_chunk_regions(password: Seq<char>, block: Seq<u8>, c: Seq<u8>)
    requires
        chunk_made(password, block, c),
    ensures
        c.len() >= MIN_CHUNK_LEN,
        cipher_region(c) == cipher_text(password, block),
        digest_region(c) == digest_text(cipher_text(password, block)),
{
    let ct = cipher_text(password, block);
    lemma_hex_field_round_trip((ct.len() + HASH_TEXT_SIZE) as nat);
    assert(cipher_region(c) =~= ct);
    assert(digest_region(c) =~= digest_text(ct));
}

/// A chunk made from a block of at most `CHUNK_SIZE` bytes parses back to
/// that block under the same password.
pub proof fn lemma_chunk_round_trip(password: Seq<char>, block: Seq<u8>, c: Seq<u8>)
    requires
        0 < block.len() <= CHUNK_SIZE,
        chunk_made(password, block, c),
    ensures
        c.len() >= MIN_CHUNK_LEN,
        parsed_chunk(password, c) == Ok::<Seq<u8>, HideError>(block),
{
    lemma_chunk_regions(password, block, c);
}

/// Changing one byte of a chunk's ciphertext region makes parsing fail with
/// a checksum error, and not a decryption error, unless the changed
/// ciphertext has the same digest as the unchanged one.
pub proof fn lemma_chunk_tamper(password: Seq<char>, block: Seq<u8>, c: Seq<u8>, i: int, x: u8)
    requires
        chunk_made(password, block, c),
        CHUNK_LEN_SIZE <= i < c.len() - HASH_TEXT_SIZE,
        x != c[i],
        digest_text(cipher_region(c.update(i, x))) != digest_text(cipher_region(c)),
    ensures
        parsed_chunk(password, c.update(i, x)) == Err::<Seq<u8>, HideError>(
            HideError::ChecksumMismatch,
        ),
{
    lemma_chunk_regions(password, block, c);
    assert(digest_region(c.update(i, x)) =~= digest_region(c));
}

/// Under another password, parsing a chunk fails with `WrongPassword`
/// whenever decrypting its ciphertext under that password fails or gives
/// more than `CHUNK_SIZE` bytes: the digest does not depend on the password,
/// so the checksum passes and decryption decides.
pub proof fn lemma_chunk_wrong_password(
    password: Seq<char>,
    other: Seq<char>,
    block: Seq<u8>,
    c: Seq<u8>,
)
    requires
        password != other,
        chunk_made(password, block, c),
        !(plain_text(other, cipher_text(password, block)) matches Some(d) && d.len() <= CHUNK_SIZE),
    ensures
        parsed_chunk(other, c) == Err::<Seq<u8>, HideError>(HideError::WrongPassword),
{
    lemma_chunk_regions(password, block, c);
}

} // verus!
