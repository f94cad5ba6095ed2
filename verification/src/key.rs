//! The secret key that names this endpoint, as it lies in a file.
use vstd::prelude::*;

verus! {

/// Number of bytes that make a secret key.
pub const KEY_LEN: usize = 32;

/// Why the content of a file is not a secret key.
#[derive(Debug, Clone, Copy, PartialEq, Eq, Structural)]
pub enum KeyError {
    /// The file holds this many bytes, and a key has `KEY_LEN`.
    WrongLength(usize),
}

/// The secret key of the peer-to-peer transport. Nothing is known of what is
/// inside one.
#[verifier::external_type_specification]
#[verifier::external_body]
pub struct ExSecretKey(iroh::SecretKey);

/// The secret key that `iroh::SecretKey::from_bytes` makes of `bytes`.
pub uninterp spec fn secret_key_of(bytes: Seq<u8>) -> iroh::SecretKey;

/// Calls `iroh::SecretKey::from_bytes`, which makes the secret key that the
/// 32 bytes represent. The result is the same for the same bytes; nothing
/// else is claimed of it.
#[verifier::external_body]
fn secret_key_from_bytes(bytes: &[u8; 32]) -> (key: iroh::SecretKey)
    ensures
        key == secret_key_of(bytes@),
{
    iroh::SecretKey::from_bytes(bytes)
}

/// Reads a secret key from the content of its file: the key that the bytes
/// represent where there are `KEY_LEN` of them, and no key otherwise.
pub fn secret_key_from_file(content: &[u8]) -> (r: Result<iroh::SecretKey, KeyError>)
    ensures
        match r {
            Ok(key) => content@.len() == KEY_LEN && key == secret_key_of(content@),
            Err(e) => content@.len() != KEY_LEN && e == KeyError::WrongLength(content.len()),
        },
{
    if content.len() != KEY_LEN {
        return Err(KeyError::WrongLength(content.len()));
    }
    let mut bytes = [0u8; 32];
    let mut i: usize = 0;
    while i < KEY_LEN
        invariant
            i <= KEY_LEN,
            content@.len() == KEY_LEN,
            forall|j: int| 0 <= j < i ==> bytes@[j] == content@[j],
        decreases KEY_LEN - i,
    {
        bytes[i] = content[i];
        i = i + 1;
    }
    assert(bytes@ == content@);
    Ok(secret_key_from_bytes(&bytes))
}

} // verus!
