use crate::error::PipelineError;
use aes::Aes128;
use block_modes::block_padding::Pkcs7;
use block_modes::{BlockMode, Cbc};
use vstd::prelude::*;

verus! {

/// Bytes in one cipher block, in the key and in the initialization vector.
pub const BLOCK_SIZE: usize = 16;

/// What an `EncryptionKey` holds.
pub struct KeyModel {
    pub key: Seq<u8>,
    pub iv: Seq<u8>,
}

/// The key and initialization vector shared by the segments of one job.
/// Both are 16 bytes long; the value does not change once it is made.
#[derive(Debug, PartialEq, Eq)]
pub struct EncryptionKey {
    key: Vec<u8>,
    iv: Vec<u8>,
}

impl View for EncryptionKey {
    type V = KeyModel;

    closed spec fn view(&self) -> KeyModel {
        KeyModel { key: self.key@, iv: self.iv@ }
    }
}

impl EncryptionKey {
    #[verifier::type_invariant]
    spec fn lengths_fit(&self) -> bool {
        self.key@.len() == BLOCK_SIZE && self.iv@.len() == BLOCK_SIZE
    }

    /// Makes a key from the raw key bytes and the decoded initialization
    /// vector. Each must be 16 bytes long; the key is looked at first.
    pub fn new(key: Vec<u8>, iv: Vec<u8>) -> (r: Result<EncryptionKey, PipelineError>)
        ensures
            match key_check(key@, iv@) {
                Ok(_) => r matches Ok(k) && k@ == (KeyModel { key: key@, iv: iv@ }),
                Err(e) => r matches Err(x) && x == e,
            },
    {
        if key.len() != BLOCK_SIZE {
            Err(PipelineError::KeyLength)
        } else if iv.len() != BLOCK_SIZE {
            Err(PipelineError::IvFormat)
        } else {
            Ok(EncryptionKey { key, iv })
        }
    }

    pub fn key(&self) -> (k: &[u8])
        ensures
            k@ == self@.key,
            k@.len() == BLOCK_SIZE,
    {
        proof {
            use_type_invariant(self);
        }
        self.key.as_slice()
    }

    pub fn iv(&self) -> (v: &[u8])
        ensures
            v@ == self@.iv,
            v@.len() == BLOCK_SIZE,
    {
        proof {
            use_type_invariant(self);
        }
        self.iv.as_slice()
    }
}

/// Whether `EncryptionKey::new` accepts the two byte strings, and the error
/// where it does not.
pub open spec fn key_check(key: Seq<u8>, iv: Seq<u8>) -> Result<(), PipelineError> {
    if key.len() != BLOCK_SIZE {
        Err(PipelineError::KeyLength)
    } else if iv.len() != BLOCK_SIZE {
        Err(PipelineError::IvFormat)
    } else {
        Ok(())
    }
}

impl Clone for EncryptionKey {
    fn clone(&self) -> (r: EncryptionKey)
        ensures
            r@ == self@,
    {
        proof {
            use_type_invariant(self);
        }
        EncryptionKey { key: self.key.clone(), iv: self.iv.clone() }
    }
}

/// The plaintext that AES-128 in CBC mode with PKCS#7 padding gives for
/// `ciphertext` under `key` and `iv`; `None` where the cipher rejects the
/// key, the vector or the data.
pub uninterp spec fn aes128_cbc_pkcs7_plaintext(key: Seq<u8>, iv: Seq<u8>, ciphertext: Seq<u8>) -> Option<
    Seq<u8>,
>;

/// Runs `Cbc::<Aes128, Pkcs7>::new_from_slices(key, iv)` of `block_modes`
/// and then `decrypt_vec(ciphertext)` on the cipher it returns.
///
/// Trusted: the result is the named plaintext of the three arguments, and
/// `None` exactly where either call returns an error.
#[verifier::external_body]
fn cbc_decrypt(key: &[u8], iv: &[u8], ciphertext: &[u8]) -> (r: Option<Vec<u8>>)
    ensures
        r matches Some(p) ==> aes128_cbc_pkcs7_plaintext(key@, iv@, ciphertext@) == Some(p@),
        r is None ==> aes128_cbc_pkcs7_plaintext(key@, iv@, ciphertext@) is None,
{
    Cbc::<Aes128, Pkcs7>::new_from_slices(key, iv).ok()?.decrypt_vec(ciphertext).ok()
}

/// What decryption makes of the cipher's answer for data of length `len`:
/// data that is no whole number of blocks is refused before the cipher is
/// asked; data the cipher rejects has bad padding.
pub open spec fn decrypt_outcome(len: nat, answer: Option<Seq<u8>>) -> Result<
    Seq<u8>,
    PipelineError,
> {
    if len % (BLOCK_SIZE as nat) != 0 {
        Err(PipelineError::BlockAlignment)
    } else {
        match answer {
            Some(p) => Ok(p),
            None => Err(PipelineError::Padding),
        }
    }
}

/// The plaintext of `ciphertext` under `key`, or why there is none.
pub open spec fn decrypted(key: KeyModel, ciphertext: Seq<u8>) -> Result<Seq<u8>, PipelineError> {
    decrypt_outcome(ciphertext.len(), aes128_cbc_pkcs7_plaintext(key.key, key.iv, ciphertext))
}

/// The plaintext of a fetched segment: decrypted where the job has a key,
/// the bytes as they came where it has none.
pub open spec fn segment_plaintext(key: Option<KeyModel>, body: Seq<u8>) -> Result<
    Seq<u8>,
    PipelineError,
> {
    match key {
        Some(k) => decrypted(k, body),
        None => Ok(body),
    }
}

/// Turns the cipher's answer for aligned data into the segment's outcome.
pub fn plaintext_from(answer: Option<Vec<u8>>) -> (r: Result<Vec<u8>, PipelineError>)
    ensures
        answer matches Some(p) ==> r == Ok::<Vec<u8>, PipelineError>(p),
        answer is None ==> r == Err::<Vec<u8>, PipelineError>(PipelineError::Padding),
{
    match answer {
        Some(p) => Ok(p),
        None => Err(PipelineError::Padding),
    }
}

/// Decrypts one segment with AES-128 in CBC mode and removes the padding.
///
/// Fails with `BlockAlignment` where the length is no multiple of 16, and
/// with `Padding` where the decrypted data does not end in valid padding.
pub fn decrypt(ciphertext: &[u8], key: &EncryptionKey) -> (r: Result<Vec<u8>, PipelineError>)
    ensures
        r is Ok <==> decrypted(key@, ciphertext@) is Ok,
        r matches Ok(p) ==> decrypted(key@, ciphertext@) == Ok::<Seq<u8>, PipelineError>(p@),
        r matches Err(e) ==> decrypted(key@, ciphertext@) == Err::<Seq<u8>, PipelineError>(e),
{
    if ciphertext.len() % BLOCK_SIZE != 0 {
        return Err(PipelineError::BlockAlignment);
    }
    plaintext_from(cbc_decrypt(key.key(), key.iv(), ciphertext))
}

/// The plaintext of a fetched segment. Without a key this is the identity.
pub fn decrypt_segment(body: Vec<u8>, key: Option<&EncryptionKey>) -> (r: Result<
    Vec<u8>,
    PipelineError,
>)
    ensures
        key is None ==> r == Ok::<Vec<u8>, PipelineError>(body),
        r is Ok <==> segment_plaintext(key_model(key), body@) is Ok,
        r matches Ok(p) ==> segment_plaintext(key_model(key), body@) == Ok::<
            Seq<u8>,
            PipelineError,
        >(p@),
        r matches Err(e) ==> segment_plaintext(key_model(key), body@) == Err::<
            Seq<u8>,
            PipelineError,
        >(e),
{
    match key {
        Some(k) => decrypt(body.as_slice(), k),
        None => Ok(body),
    }
}

/// What an optional key holds.
pub open spec fn key_model(key: Option<&EncryptionKey>) -> Option<KeyModel> {
    match key {
        Some(k) => Some(k@),
        None => None,
    }
}

/// What an optional key holds.
pub open spec fn owned_key_model(key: Option<EncryptionKey>) -> Option<KeyModel> {
    match key {
        Some(k) => Some(k@),
        None => None,
    }
}

} // verus!
