//! Authenticated encryption of stored payloads with AES-256-GCM: the output is
//! the 12-byte nonce followed by the sealed bytes.

use vstd::prelude::*;
use aes_gcm::aead::{Aead, AeadCore, KeyInit, OsRng};

verus! {

/// The largest plaintext AES-GCM accepts, in bytes (`aes_gcm::P_MAX`).
pub open spec fn plaintext_max() -> nat {
    0x10_0000_0000
}

/// The sealed bytes (ciphertext and 16-byte tag) that AES-256-GCM produces for
/// a key, a nonce and a plaintext, with no associated data.
pub uninterp spec fn aes256gcm_seal(key: Seq<u8>, nonce: Seq<u8>, plaintext: Seq<u8>) -> Seq<u8>;

/// The plaintext AES-256-GCM recovers from sealed bytes, or `None` when the
/// bytes do not authenticate under the key and nonce.
pub uninterp spec fn aes256gcm_open(key: Seq<u8>, nonce: Seq<u8>, sealed: Seq<u8>) -> Option<Seq<u8>>;

/// `Aes256Gcm::generate_nonce(&mut OsRng)`: the contract claims only that the
/// nonce has the 96 bits of the cipher's nonce size; its bytes are random.
#[verifier::external_body]
fn generate_nonce() -> (n: Vec<u8>)
    ensures
        n@.len() == 12,
{
    aes_gcm::Aes256Gcm::generate_nonce(&mut OsRng).to_vec()
}

/// `Aes256Gcm::new(key).encrypt(nonce, plaintext)`. The contract claims what the
/// crate's source shows: refusal exactly for plaintexts longer than `P_MAX`,
/// output = ciphertext of the plaintext's length followed by a 16-byte tag, and,
/// as the crate's documentation shows, decryption with the same key and nonce
/// gives the plaintext back.
#[verifier::external_body]
fn seal(key: &[u8; 32], nonce: &[u8], plaintext: &[u8]) -> (r: Option<Vec<u8>>)
    requires
        nonce@.len() == 12,
    ensures
        r is Some <==> plaintext@.len() <= plaintext_max(),
        r matches Some(c) ==> {
            &&& c@ == aes256gcm_seal(key@, nonce@, plaintext@)
            &&& c@.len() == plaintext@.len() + 16
            &&& aes256gcm_open(key@, nonce@, c@) == Some(plaintext@)
        },
{
    let cipher = aes_gcm::Aes256Gcm::new(aes_gcm::Key::<aes_gcm::Aes256Gcm>::from_slice(key));
    cipher.encrypt(aes_gcm::Nonce::from_slice(nonce), plaintext).ok()
}

/// `Aes256Gcm::new(key).decrypt(nonce, sealed)`. The contract claims the result
/// is the function `aes256gcm_open` of key, nonce and input.
#[verifier::external_body]
fn open(key: &[u8; 32], nonce: &[u8], sealed: &[u8]) -> (r: Option<Vec<u8>>)
    requires
        nonce@.len() == 12,
    ensures
        match r {
            Some(p) => aes256gcm_open(key@, nonce@, sealed@) == Some(p@),
            None => aes256gcm_open(key@, nonce@, sealed@) is None,
        },
{
    let cipher = aes_gcm::Aes256Gcm::new(aes_gcm::Key::<aes_gcm::Aes256Gcm>::from_slice(key));
    cipher.decrypt(aes_gcm::Nonce::from_slice(nonce), sealed).ok()
}

/// Errors of encryption and decryption.
#[derive(Debug, Clone, Copy, PartialEq, Eq, Structural)]
pub enum EncryptError {
    /// The plaintext is longer than AES-GCM accepts.
    EncryptFailed,
    /// The input is shorter than a nonce.
    InvalidCiphertextLength,
    /// The input does not authenticate under the key.
    DecryptFailed,
}

/// Whether `out` is an encryption of `plaintext` under `key`: a 12-byte nonce,
/// then the sealed bytes of the plaintext under that nonce.
pub open spec fn is_encryption_of(key: Seq<u8>, plaintext: Seq<u8>, out: Seq<u8>) -> bool {
    &&& out.len() >= 12
    &&& out.subrange(12, out.len() as int) == aes256gcm_seal(key, out.subrange(0, 12), plaintext)
    &&& aes256gcm_open(key, out.subrange(0, 12), out.subrange(12, out.len() as int)) == Some(plaintext)
}

/// What decrypting `input` under `key` gives.
pub open spec fn decryption_of(key: Seq<u8>, input: Seq<u8>) -> Result<Seq<u8>, EncryptError> {
    if input.len() < 12 {
        Err(EncryptError::InvalidCiphertextLength)
    } else {
        match aes256gcm_open(key, input.subrange(0, 12), input.subrange(12, input.len() as int)) {
            Some(p) => Ok(p),
            None => Err(EncryptError::DecryptFailed),
        }
    }
}

/// Encrypts and decrypts with one 256-bit key.
pub struct Encryptor {
    key: [u8; 32],
}

impl Encryptor {
    /// The key the encryptor uses.
    pub closed spec fn key(&self) -> Seq<u8> {
        self.key@
    }

    /// An encryptor with the given key.
    pub fn from_key(key: &[u8; 32]) -> (e: Self)
        ensures
            e.key() == key@,
    {
        Encryptor { key: *key }
    }

    /// Encrypts under the given 12-byte nonce; the output is the nonce followed
    /// by the ciphertext and tag.
    pub fn encrypt_with_nonce(&self, nonce: &[u8], plaintext: &[u8]) -> (r: Result<Vec<u8>, EncryptError>)
        requires
            nonce@.len() == 12,
        ensures
            r is Ok <==> plaintext@.len() <= plaintext_max(),
            r is Err ==> r == Err::<Vec<u8>, EncryptError>(EncryptError::EncryptFailed),
            r matches Ok(out) ==> {
                &&& out@ == nonce@ + aes256gcm_seal(self.key(), nonce@, plaintext@)
                &&& is_encryption_of(self.key(), plaintext@, out@)
                &&& out@.len() == plaintext@.len() + 28
            },
    {
        match seal(&self.key, nonce, plaintext) {
            Some(sealed) => {
                let mut out: Vec<u8> = Vec::new();
                let mut i: usize = 0;
                while i < nonce.len()
                    invariant
                        i <= nonce.len(),
                        out@ == nonce@.take(i as int),
                    decreases nonce.len() - i,
                {
                    out.push(nonce[i]);
                    assert(nonce@.take(i + 1) =~= nonce@.take(i as int).push(nonce@[i as int]));
                    i = i + 1;
                }
                assert(nonce@.take(nonce.len() as int) =~= nonce@);
                let ghost t = sealed@;
                let mut tail = sealed;
                out.append(&mut tail);
                assert(out@ =~= nonce@ + t);
                assert(out@.subrange(0, 12) =~= nonce@);
                assert(out@.subrange(12, out@.len() as int) =~= t);
                Ok(out)
            },
            None => Err(EncryptError::EncryptFailed),
        }
    }

    /// Encrypts under a fresh random nonce; the output is the nonce followed by
    /// the ciphertext and tag.
    pub fn encrypt(&self, plaintext: &[u8]) -> (r: Result<Vec<u8>, EncryptError>)
        ensures
            r is Ok <==> plaintext@.len() <= plaintext_max(),
            r is Err ==> r == Err::<Vec<u8>, EncryptError>(EncryptError::EncryptFailed),
            r matches Ok(out) ==> is_encryption_of(self.key(), plaintext@, out@)
                && out@.len() == plaintext@.len() + 28,
    {
        let nonce = generate_nonce();
        self.encrypt_with_nonce(nonce.as_slice(), plaintext)
    }

    /// Decrypts an output of `encrypt`: the first 12 bytes are the nonce.
    pub fn decrypt(&self, ciphertext: &[u8]) -> (r: Result<Vec<u8>, EncryptError>)
        ensures
            match r {
                Ok(p) => decryption_of(self.key(), ciphertext@) == Ok::<Seq<u8>, EncryptError>(p@),
                Err(e) => decryption_of(self.key(), ciphertext@) == Err::<Seq<u8>, EncryptError>(e),
            },
    {
        if ciphertext.len() < 12 {
            return Err(EncryptError::InvalidCiphertextLength);
        }
        let (nonce, sealed) = ciphertext.split_at(12);
        match open(&self.key, nonce, sealed) {
            Some(p) => Ok(p),
            None => Err(EncryptError::DecryptFailed),
        }
    }
}

/// Law: decrypting an encryption under the same key gives the plaintext back.
pub proof fn law_decrypt_inverts_encrypt(key: Seq<u8>, plaintext: Seq<u8>, out: Seq<u8>)
    requires
        is_encryption_of(key, plaintext, out),
    ensures
        decryption_of(key, out) == Ok::<Seq<u8>, EncryptError>(plaintext),
{
}

} // verus!
