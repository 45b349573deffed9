//! Symmetric encryption of secret variable values. The cipher itself is an
//! outside crate; its results are named, never restated, and everything
//! that decides on them is verified against the names.

use vstd::prelude::*;
use magic_crypt::MagicCryptTrait;

verus! {

/// The base64 ciphertext that the AES-256 helper produces for a plaintext
/// under a key. The helper derives its key and IV from the key string
/// alone, so the result depends on the two arguments only.
pub uninterp spec fn encrypted_of(key: Seq<char>, plain: Seq<char>) -> Seq<char>;

/// The plaintext that the AES-256 helper recovers from base64 ciphertext
/// under a key, or nothing when the input is not valid ciphertext for
/// that key.
pub uninterp spec fn decrypted_of(key: Seq<char>, cipher: Seq<char>) -> Option<Seq<char>>;

/// Relies on magic-crypt's `MagicCrypt256::encrypt_str_to_base64`:
/// AES-256-CBC under a key digest with a fixed IV, so the ciphertext is a
/// function of key and input alone.
#[verifier::external_body]
pub fn encrypt(key: &str, input: &str) -> (r: String)
    ensures
        r@ == encrypted_of(key@, input@),
{
    let mc = <magic_crypt::MagicCrypt256 as MagicCryptTrait>::new(key.as_bytes(), None::<&[u8]>);
    mc.encrypt_str_to_base64(input)
}

/// Relies on magic-crypt's `MagicCrypt256::decrypt_base64_to_string`: the
/// inverse decode, failing on input that is no valid ciphertext under the
/// key.
#[verifier::external_body]
pub fn decrypt(key: &str, input: &str) -> (r: Option<String>)
    ensures
        (r is Some) == (decrypted_of(key@, input@) is Some),
        r matches Some(s) ==> decrypted_of(key@, input@) == Some(s@),
{
    let mc = <magic_crypt::MagicCrypt256 as MagicCryptTrait>::new(key.as_bytes(), None::<&[u8]>);
    match mc.decrypt_base64_to_string(input) {
        Ok(s) => Some(s),
        Err(_) => None,
    }
}

} // verus!
