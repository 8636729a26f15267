//! The symmetric cipher and the digest, taken from outside crates.

use magic_crypt::MagicCryptTrait;
use vstd::prelude::*;

use crate::format::HASH_TEXT_SIZE;

verus! {

/// Base64 text of the AES-256 ciphertext of `data` under `password`.
pub uninterp spec fn cipher_text(password: Seq<char>, data: Seq<u8>) -> Seq<u8>;

/// Plaintext that decrypting `cipher` under `password` yields, if any.
pub uninterp spec fn plain_text(password: Seq<char>, cipher: Seq<u8>) -> Option<Seq<u8>>;

/// Lowercase hexadecimal MD5 digest of `data`.
pub uninterp spec fn digest_text(data: Seq<u8>) -> Seq<u8>;

/// Length of the base64 text of an AES-CBC ciphertext with PKCS7 padding
/// for `n` bytes of plaintext: the padded length is `(n + 16) & !15`, and
/// padded base64 takes four characters for every three bytes begun.
pub open spec fn sealed_len(n: nat) -> nat {
    4 * (((n + 16) / 16 * 16 + 2) / 3)
}

/// Relies on magic_crypt's `MagicCrypt::new` (AES-256, key from the password,
/// no IV) and `encrypt_bytes_to_base64`: a deterministic ciphertext, padded
/// to whole AES blocks and written in standard base64, which
/// `decrypt_base64_to_bytes` under the same password turns back into `data`.
#[verifier::external_body]
pub(crate) fn encrypt(password: &str, data: &[u8]) -> (r: Vec<u8>)
    ensures
        r@ == cipher_text(password@, data@),
        r@.len() == sealed_len(data@.len()),
        plain_text(password@, r@) == Some(data@),
{
    let mc = magic_crypt::MagicCrypt::new(password, magic_crypt::SecureBit::Bit256, None::<String>);
    mc.encrypt_bytes_to_base64(data).into_bytes()
}

/// Relies on magic_crypt's `decrypt_base64_to_bytes` with the cipher that
/// `encrypt` builds; its error (bad base64 or bad padding) becomes `None`.
#[verifier::external_body]
pub(crate) fn decrypt(password: &str, cipher: &[u8]) -> (r: Option<Vec<u8>>)
    ensures
        match r {
            Some(v) => plain_text(password@, cipher@) == Some(v@),
            None => plain_text(password@, cipher@) is None,
        },
{
    let mc = magic_crypt::MagicCrypt::new(password, magic_crypt::SecureBit::Bit256, None::<String>);
    mc.decrypt_base64_to_bytes(String::from_utf8_lossy(cipher)).ok()
}

/// Relies on `md5::compute` and the digest's `LowerHex` formatting, which
/// prints each of the 16 bytes as two lowercase hexadecimal digits.
#[verifier::external_body]
pub(crate) fn hash(data: &[u8]) -> (r: Vec<u8>)
    ensures
        r@ == digest_text(data@),
        r@.len() == HASH_TEXT_SIZE,
{
    format!("{:x}", md5::compute(data)).into_bytes()
}

} // verus!
