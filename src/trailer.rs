//! The hide-spec trailer at the end of an encoded file:
//! `ciphertext || length field || magic`, where the ciphertext is the
//! encrypted hide-spec text and the length field counts it.

use vstd::prelude::*;

use crate::crypto::{cipher_text, decrypt, encrypt, plain_text};
use crate::error::HideError;
use crate::format::{
    field_value, hex_field, hex_str, lemma_hex_field_round_trip, magic, magic_bytes,
    parse_hex_field, FieldError, CHUNK_LEN_SIZE, CHUNK_SIZE, MAGIC_LEN,
};

verus! {

/// Length field and magic delimiter together, the fixed tail of every trailer.
pub const TRAILER_TAIL_LEN: usize = CHUNK_LEN_SIZE + MAGIC_LEN;

/// The trailer for the hide-spec text `text` under `password`.
pub open spec fn trailer_bytes(password: Seq<char>, text: Seq<u8>) -> Seq<u8> {
    let ct = cipher_text(password, text);
    ct + hex_field(ct.len()) + magic()
}

/// `t` is what `make_trailer` returns for `password` and `text`.
pub open spec fn trailer_made(password: Seq<char>, text: Seq<u8>, t: Seq<u8>) -> bool {
    let ct = cipher_text(password, text);
    &&& t == trailer_bytes(password, text)
    &&& ct.len() <= CHUNK_SIZE
    &&& plain_text(password, ct) == Some(text)
}

/// Encrypts the hide-spec text and frames it as a trailer. Fails with
/// `TooLarge` exactly when the ciphertext is above `CHUNK_SIZE`, the most
/// that the decoder accepts for it.
pub fn make_trailer(password: &str, text: &[u8]) -> (r: Result<Vec<u8>, HideError>)
    ensures
        match r {
            Ok(t) => trailer_made(password@, text@, t@),
            Err(e) => e == HideError::TooLarge && cipher_text(password@, text@).len()
                > CHUNK_SIZE,
        },
{
    let mut out = encrypt(password, text);
    if out.len() > CHUNK_SIZE {
        return Err(HideError::TooLarge);
    }
    let len_field = match hex_str(out.len() as u64) {
        Some(v) => v,
        None => return Err(HideError::TooLarge),
    };
    let m = magic_bytes();
    out.extend_from_slice(len_field.as_slice());
    out.extend_from_slice(m.as_slice());
    assert(out@ =~= trailer_bytes(password@, text@));
    Ok(out)
}

/// Where the trailer's length field starts in a file of `file_size` bytes.
pub open spec fn field_offset(file_size: nat) -> Result<nat, HideError> {
    if file_size <= TRAILER_TAIL_LEN {
        Err(HideError::NoHideSpec)
    } else {
        Ok((file_size - TRAILER_TAIL_LEN) as nat)
    }
}

/// Offset of the trailer's length field; fails with `NoHideSpec` on a file
/// too short to hold one.
pub fn hide_spec_field_offset(file_size: u64) -> (r: Result<u64, HideError>)
    ensures
        field_offset(file_size as nat) == match r {
            Ok(v) => Ok::<nat, HideError>(v as nat),
            Err(e) => Err::<nat, HideError>(e),
        },
{
    if file_size <= TRAILER_TAIL_LEN as u64 {
        Err(HideError::NoHideSpec)
    } else {
        Ok(file_size - TRAILER_TAIL_LEN as u64)
    }
}

/// Where the encrypted hide-spec lies, as (offset, length), in a file of
/// `file_size` bytes whose trailer length field is `field`.
pub open spec fn hide_spec_span(file_size: nat, field: Seq<u8>) -> Result<(nat, nat), HideError> {
    match field_value(field) {
        Err(FieldError::Empty) => Err(HideError::EmptyLength),
        Err(FieldError::NotHex) => Err(HideError::InvalidLength),
        Ok(len) => if len > CHUNK_SIZE || file_size < TRAILER_TAIL_LEN + len {
            Err(HideError::InvalidHideSpec)
        } else {
            Ok(((file_size - TRAILER_TAIL_LEN - len) as nat, len))
        },
    }
}

/// Reads the trailer's length field and locates the encrypted hide-spec.
pub fn hide_spec_location(file_size: u64, field: &[u8]) -> (r: Result<(u64, usize), HideError>)
    requires
        field@.len() == CHUNK_LEN_SIZE,
    ensures
        hide_spec_span(file_size as nat, field@) == match r {
            Ok((off, len)) => Ok::<(nat, nat), HideError>((off as nat, len as nat)),
            Err(e) => Err::<(nat, nat), HideError>(e),
        },
{
    let len = match parse_hex_field(field) {
        Err(FieldError::Empty) => return Err(HideError::EmptyLength),
        Err(FieldError::NotHex) => return Err(HideError::InvalidLength),
        Ok(v) => v,
    };
    if len > CHUNK_SIZE as u64 || file_size < TRAILER_TAIL_LEN as u64 + len {
        return Err(HideError::InvalidHideSpec);
    }
    Ok((file_size - TRAILER_TAIL_LEN as u64 - len, len as usize))
}

/// Decrypts the hide-spec ciphertext; any failure means a wrong password.
pub fn open_hide_spec(password: &str, data: &[u8]) -> (r: Result<Vec<u8>, HideError>)
    ensures
        match r {
            Ok(v) => plain_text(password@, data@) == Some(v@),
            Err(e) => e == HideError::WrongPassword && plain_text(password@, data@) is None,
        },
{
    match decrypt(password, data) {
        Some(v) => Ok(v),
        None => Err(HideError::WrongPassword),
    }
}

/// In a file whose last bytes are a trailer made for `text`, with at least
/// one byte before it, the length field, the span it gives and the
/// decrypted hide-spec lead back to `text`.
pub proof fn lemma_trailer_round_trip(
    password: Seq<char>,
    text: Seq<u8>,
    prefix: Seq<u8>,
    t: Seq<u8>,
)
    requires
        trailer_made(password, text, t),
        prefix.len() > 0,
    ensures
        ({
            let f = prefix + t;
            let ct = cipher_text(password, text);
            let off = (f.len() - TRAILER_TAIL_LEN) as nat;
            &&& field_offset(f.len()) == Ok::<nat, HideError>(off)
            &&& hide_spec_span(f.len(), f.subrange(off as int, off + CHUNK_LEN_SIZE))
                == Ok::<(nat, nat), HideError>((prefix.len(), ct.len()))
            &&& f.subrange(prefix.len() as int, (prefix.len() + ct.len()) as int) == ct
            &&& plain_text(password, ct) == Some(text)
        }),
{
    let f = prefix + t;
    let ct = cipher_text(password, text);
    lemma_hex_field_round_trip(ct.len());
    let off = f.len() - TRAILER_TAIL_LEN;
    assert(f.subrange(off, off + CHUNK_LEN_SIZE) =~= hex_field(ct.len()));
    assert(field_value(hex_field(ct.len())) == Ok::<nat, FieldError>(ct.len()));
    assert(f.subrange(prefix.len() as int, (prefix.len() + ct.len()) as int) =~= ct);
}

} // verus!
