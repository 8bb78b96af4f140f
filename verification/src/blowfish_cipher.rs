//! Blowfish in 64-bit cipher feedback mode, through the `blowfish` and
//! `cfb-mode` crates.

use vstd::prelude::*;
use cfb_mode::cipher::{AsyncStreamCipher, KeyIvInit};

verus! {

/// Blowfish accepts keys of 4 to 56 bytes.
pub open spec fn bf_key_ok(key: Seq<u8>) -> bool {
    4 <= key.len() <= 56
}

/// The text of the error that a key of another length gives.
pub open spec fn invalid_length_message() -> Seq<char> {
    seq!['I', 'n', 'v', 'a', 'l', 'i', 'd', ' ', 'L', 'e', 'n', 'g', 't', 'h']
}

/// What Blowfish-CFB64 encryption with `key` and the big-endian bytes of
/// `iv` makes of `data`.
pub uninterp spec fn bf_cfb64_encrypt(key: Seq<u8>, iv: u64, data: Seq<u8>) -> Seq<u8>;

/// What Blowfish-CFB64 decryption with `key` and the big-endian bytes of
/// `iv` makes of `data`.
pub uninterp spec fn bf_cfb64_decrypt(key: Seq<u8>, iv: u64, data: Seq<u8>) -> Seq<u8>;

/// The result holds the bytes `x`.
pub open spec fn cipher_result_is(r: Result<Vec<u8>, String>, x: Seq<u8>) -> bool {
    r matches Ok(v) && v@ == x
}

/// `cfb_mode::Encryptor::<blowfish::Blowfish>::new_from_slices` and
/// `AsyncStreamCipher::encrypt`: fails with `InvalidLength` (whose text is
/// "Invalid Length") unless the key has 4 to 56 bytes; else encrypts a
/// copy of `data`. CFB is a stream mode: the output is as long as the input.
#[verifier::external_body]
fn cfb_encrypt(key: &[u8], iv: u64, data: &[u8]) -> (r: Result<Vec<u8>, String>)
    ensures
        r is Ok <==> bf_key_ok(key@),
        r matches Err(msg) ==> msg@ == invalid_length_message(),
        bf_key_ok(key@) ==> cipher_result_is(r, bf_cfb64_encrypt(key@, iv, data@)),
        r matches Ok(v) ==> v@.len() == data@.len(),
{
    match cfb_mode::Encryptor::<blowfish::Blowfish>::new_from_slices(key, &iv.to_be_bytes()) {
        Ok(c) => {
            let mut buf = data.to_vec();
            c.encrypt(&mut buf);
            Ok(buf)
        },
        Err(e) => Err(e.to_string()),
    }
}

/// `cfb_mode::Decryptor::<blowfish::Blowfish>::new_from_slices` and
/// `AsyncStreamCipher::decrypt`: fails as [`cfb_encrypt`] does, else
/// decrypts a copy of `data`; decryption with the same key and iv gives back
/// what encryption was given.
#[verifier::external_body]
fn cfb_decrypt(key: &[u8], iv: u64, data: &[u8]) -> (r: Result<Vec<u8>, String>)
    ensures
        r is Ok <==> bf_key_ok(key@),
        r matches Err(msg) ==> msg@ == invalid_length_message(),
        bf_key_ok(key@) ==> cipher_result_is(r, bf_cfb64_decrypt(key@, iv, data@)),
        bf_key_ok(key@) ==> forall|x: Seq<u8>| #[trigger] bf_cfb64_encrypt(key@, iv, x) == data@
            ==> cipher_result_is(r, x),
{
    match cfb_mode::Decryptor::<blowfish::Blowfish>::new_from_slices(key, &iv.to_be_bytes()) {
        Ok(c) => {
            let mut buf = data.to_vec();
            c.decrypt(&mut buf);
            Ok(buf)
        },
        Err(e) => Err(e.to_string()),
    }
}

/// Blowfish in 64-bit cipher feedback mode.
pub struct Blowfish();

impl Blowfish {
    /// Encrypts `plaintext` with `key` and initial vector `iv`; fails when
    /// the key does not have 4 to 56 bytes.
    pub fn encrypt(key: &[u8], iv: u64, plaintext: &[u8]) -> (r: Result<Vec<u8>, String>)
        ensures
            r is Ok <==> bf_key_ok(key@),
            r matches Err(msg) ==> msg@ == invalid_length_message(),
            bf_key_ok(key@) ==> cipher_result_is(r, bf_cfb64_encrypt(key@, iv, plaintext@)),
            r matches Ok(v) ==> v@.len() == plaintext@.len(),
    {
        cfb_encrypt(key, iv, plaintext)
    }

    /// Decrypts `ciphertext` with `key` and initial vector `iv`; fails when
    /// the key does not have 4 to 56 bytes. What [`Blowfish::encrypt`] made
    /// with the same key and vector comes back as it was.
    pub fn decrypt(key: &[u8], iv: u64, ciphertext: &[u8]) -> (r: Result<Vec<u8>, String>)
        ensures
            r is Ok <==> bf_key_ok(key@),
            r matches Err(msg) ==> msg@ == invalid_length_message(),
            bf_key_ok(key@) ==> cipher_result_is(r, bf_cfb64_decrypt(key@, iv, ciphertext@)),
            bf_key_ok(key@) ==> forall|x: Seq<u8>| #[trigger] bf_cfb64_encrypt(key@, iv, x)
                == ciphertext@ ==> cipher_result_is(r, x),
    {
        cfb_decrypt(key, iv, ciphertext)
    }
}

} // verus!
