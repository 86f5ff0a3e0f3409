//! Local encryption of stored Jira credentials with AES-256-GCM under a key
//! derived by HKDF-SHA256 from the user id.
use vstd::prelude::*;
use vstd::utf8::encode_utf8;

#[allow(deprecated)]
use aes_gcm::aead::{Aead, AeadCore, KeyInit, OsRng};
#[allow(deprecated)]
use aes_gcm::{Aes256Gcm, Key, Nonce};

verus! {

broadcast use vstd::string::group_string_axioms;

/// Errors of local credential encryption.
#[derive(Debug, Clone, Copy, PartialEq, Eq, Structural)]
pub enum CryptoError {
    EncryptionFailed,
    DecryptionFailed,
    InvalidData,
}

impl CryptoError {
    /// The message of the error, as it is displayed.
    pub fn to_string(&self) -> (r: String)
        ensures
            r@ == match self {
                CryptoError::EncryptionFailed => "Encryption failed"@,
                CryptoError::DecryptionFailed => "Decryption failed"@,
                CryptoError::InvalidData => "Invalid encrypted data: too short"@,
            },
    {
        let mut r = String::new();
        match self {
            CryptoError::EncryptionFailed => crate::text::push_str(&mut r, "Encryption failed"),
            CryptoError::DecryptionFailed => crate::text::push_str(&mut r, "Decryption failed"),
            CryptoError::InvalidData => crate::text::push_str(
                &mut r,
                "Invalid encrypted data: too short",
            ),
        }
        r
    }
}

// ---------------------------------------------------------------------------
// Outside calls
// ---------------------------------------------------------------------------

/// What HKDF-SHA256 yields as a 32-byte key for a salt, input key material and
/// info string.
pub uninterp spec fn hkdf_sha256_key(salt: Seq<u8>, ikm: Seq<u8>, info: Seq<u8>) -> Seq<u8>;

/// What AES-256-GCM encryption (empty associated data) yields for a key,
/// nonce and plaintext: the ciphertext with its tag.
pub uninterp spec fn gcm_seal(key: Seq<u8>, nonce: Seq<u8>, plaintext: Seq<u8>) -> Seq<u8>;

/// What AES-256-GCM decryption (empty associated data) yields for a key,
/// nonce and ciphertext: the plaintext, or nothing when authentication fails.
pub uninterp spec fn gcm_open(key: Seq<u8>, nonce: Seq<u8>, ciphertext: Seq<u8>) -> Option<
    Seq<u8>,
>;

/// The largest plaintext that AES-GCM encrypts (`aes_gcm::P_MAX`).
pub open spec fn gcm_plaintext_max() -> nat {
    68719476736
}

/// `Hkdf::<Sha256>::new(Some(salt), ikm)` followed by `expand(info)` into a
/// 32-byte buffer; 32 bytes is a valid output length, so the expansion does
/// not fail. The key is named.
#[verifier::external_body]
fn hkdf_expand_key(salt: &[u8], ikm: &[u8], info: &[u8]) -> (r: Vec<u8>)
    ensures
        r@ == hkdf_sha256_key(salt@, ikm@, info@),
        r@.len() == 32,
{
    let hk = hkdf::Hkdf::<sha2::Sha256>::new(Some(salt), ikm);
    let mut key = [0u8;32];
    hk.expand(info, &mut key).expect("32 bytes is a valid HKDF-SHA256 output length");
    key.to_vec()
}

/// `Aes256Gcm::generate_nonce(&mut OsRng)`: 12 random bytes; nothing else is
/// known of them. `OsRng` panics when the operating system's random source
/// fails; no input of the library causes that, and it is not stated here.
#[verifier::external_body]
fn random_nonce() -> (r: Vec<u8>)
    ensures
        r@.len() == 12,
{
    #[allow(deprecated)]
    let nonce = Aes256Gcm::generate_nonce(&mut OsRng);
    nonce.as_slice().to_vec()
}

/// `Aes256Gcm::encrypt` under the given key and nonce: it fails exactly for a
/// plaintext longer than `P_MAX`; the ciphertext is named, it is the
/// plaintext's length plus the 16-byte tag, and decrypting it under the same
/// key and nonce gives the plaintext back (AEAD correctness).
#[verifier::external_body]
fn gcm_encrypt(key: &[u8], nonce: &[u8], plaintext: &[u8]) -> (r: Option<Vec<u8>>)
    requires
        key@.len() == 32,
        nonce@.len() == 12,
    ensures
        r is Some <==> plaintext@.len() <= gcm_plaintext_max(),
        r matches Some(c) ==> c@.len() == plaintext@.len() + 16,
        r matches Some(c) ==> c@ == gcm_seal(key@, nonce@, plaintext@) && gcm_open(
            key@,
            nonce@,
            c@,
        ) == Some(plaintext@),
{
    #[allow(deprecated)]
    let cipher = Aes256Gcm::new(Key::<Aes256Gcm>::from_slice(key));
    #[allow(deprecated)]
    let n = Nonce::from_slice(nonce);
    cipher.encrypt(n, plaintext).ok()
}

/// `Aes256Gcm::decrypt` under the given key and nonce; the outcome is named.
#[verifier::external_body]
fn gcm_decrypt(key: &[u8], nonce: &[u8], ciphertext: &[u8]) -> (r: Option<Vec<u8>>)
    requires
        key@.len() == 32,
        nonce@.len() == 12,
    ensures
        match r {
            Some(p) => gcm_open(key@, nonce@, ciphertext@) == Some(p@),
            None => gcm_open(key@, nonce@, ciphertext@) is None,
        },
{
    #[allow(deprecated)]
    let cipher = Aes256Gcm::new(Key::<Aes256Gcm>::from_slice(key));
    #[allow(deprecated)]
    let n = Nonce::from_slice(nonce);
    cipher.decrypt(n, ciphertext).ok()
}

// ---------------------------------------------------------------------------
// Specification
// ---------------------------------------------------------------------------

/// The salt of the key derivation.
pub open spec fn local_salt() -> Seq<u8> {
    "vibe-kanban-local-jira-v2"@.map_values(|c: char| c as u8)
}

/// The info string of the key derivation.
pub open spec fn local_info() -> Seq<u8> {
    "vibe-kanban-aes-key"@.map_values(|c: char| c as u8)
}

/// The key derived for a user id.
pub open spec fn key_for_user(user_id: Seq<char>) -> Seq<u8> {
    hkdf_sha256_key(local_salt(), encode_utf8(user_id), local_info())
}

/// The outcome of decrypting a blob (12-byte nonce, then ciphertext) under a key.
pub open spec fn decrypt_outcome(key: Seq<u8>, blob: Seq<u8>) -> Result<Seq<u8>, CryptoError> {
    if blob.len() < 12 {
        Err(CryptoError::InvalidData)
    } else {
        match gcm_open(key, blob.take(12), blob.skip(12)) {
            Some(p) => Ok(p),
            None => Err(CryptoError::DecryptionFailed),
        }
    }
}

/// A blob that holds `data` encrypted under `key`: a nonce, then the sealed data.
pub open spec fn sealed_under(key: Seq<u8>, data: Seq<u8>, blob: Seq<u8>) -> bool {
    blob.len() >= 12 && blob.skip(12) == gcm_seal(key, blob.take(12), data) && gcm_open(
        key,
        blob.take(12),
        blob.skip(12),
    ) == Some(data)
}

// ---------------------------------------------------------------------------
// Implementation
// ---------------------------------------------------------------------------

/// Encrypts and decrypts local credentials under a key derived from the user id.
pub struct LocalCrypto {
    key: Vec<u8>,
}

/// A cipher is viewed as its key; the key stays private to this module, and
/// `new` states which key a user gets (`key_for_user`).
impl View for LocalCrypto {
    type V = Seq<u8>;

    closed spec fn view(&self) -> Seq<u8> {
        self.key@
    }
}

impl LocalCrypto {
    /// The key is 32 bytes long.
    pub closed spec fn wf(&self) -> bool {
        self.key@.len() == 32
    }

    /// A cipher under the key derived from `user_id`.
    pub fn new(user_id: &str) -> (r: LocalCrypto)
        ensures
            r.wf(),
            r@ == key_for_user(user_id@),
    {
        let salt = "vibe-kanban-local-jira-v2".as_bytes();
        let info = "vibe-kanban-aes-key".as_bytes();
        proof {
            reveal_strlit("vibe-kanban-local-jira-v2");
            reveal_strlit("vibe-kanban-aes-key");
            vstd::utf8::is_ascii_chars_encode_utf8("vibe-kanban-local-jira-v2"@);
            vstd::utf8::is_ascii_chars_encode_utf8("vibe-kanban-aes-key"@);
            assert(salt@ =~= local_salt());
            assert(info@ =~= local_info());
        }
        let key = hkdf_expand_key(salt, user_id.as_bytes(), info);
        LocalCrypto { key }
    }

    /// Encrypts `data` under a fresh random nonce; the blob is the nonce
    /// followed by the ciphertext.
    pub fn encrypt(&self, data: &[u8]) -> (r: Result<Vec<u8>, CryptoError>)
        requires
            self.wf(),
        ensures
            r is Ok <==> data@.len() <= gcm_plaintext_max(),
            r matches Ok(blob) ==> sealed_under(self@, data@, blob@),
            r matches Ok(blob) ==> blob@.len() == 12 + data@.len() + 16,
            r matches Err(e) ==> e == CryptoError::EncryptionFailed,
    {
        let nonce = random_nonce();
        let ciphertext = match gcm_encrypt(self.key.as_slice(), nonce.as_slice(), data) {
            Some(c) => c,
            None => {
                return Err(CryptoError::EncryptionFailed);
            },
        };
        let mut result: Vec<u8> = Vec::new();
        let mut i: usize = 0;
        while i < nonce.len()
            invariant
                i <= nonce.len(),
                result@ == nonce@.take(i as int),
            decreases nonce.len() - i,
        {
            result.push(nonce[i]);
            i += 1;
            assert(result@ =~= nonce@.take(i as int));
        }
        let mut j: usize = 0;
        while j < ciphertext.len()
            invariant
                j <= ciphertext.len(),
                nonce@.len() == 12,
                result@ == nonce@ + ciphertext@.take(j as int),
            decreases ciphertext.len() - j,
        {
            result.push(ciphertext[j]);
            j += 1;
            assert(result@ =~= nonce@ + ciphertext@.take(j as int));
        }
        assert(result@.take(12) =~= nonce@);
        assert(result@.skip(12) =~= ciphertext@);
        Ok(result)
    }

    /// Decrypts a blob made by `encrypt`: a 12-byte nonce, then the ciphertext.
    pub fn decrypt(&self, blob: &[u8]) -> (r: Result<Vec<u8>, CryptoError>)
        requires
            self.wf(),
        ensures
            match r {
                Ok(p) => decrypt_outcome(self@, blob@) == Ok::<Seq<u8>, CryptoError>(p@),
                Err(e) => decrypt_outcome(self@, blob@) == Err::<Seq<u8>, CryptoError>(e),
            },
    {
        if blob.len() < 12 {
            return Err(CryptoError::InvalidData);
        }
        let mut nonce: Vec<u8> = Vec::new();
        let mut ciphertext: Vec<u8> = Vec::new();
        let mut i: usize = 0;
        while i < blob.len()
            invariant
                12 <= blob.len(),
                i <= blob.len(),
                i <= 12 ==> nonce@ == blob@.take(i as int) && ciphertext@.len() == 0,
                i > 12 ==> nonce@ == blob@.take(12) && ciphertext@ == blob@.subrange(12, i as int),
            decreases blob.len() - i,
        {
            if i < 12 {
                nonce.push(blob[i]);
            } else {
                ciphertext.push(blob[i]);
            }
            i += 1;
            assert(i <= 12 ==> nonce@ =~= blob@.take(i as int));
            assert(i > 12 ==> ciphertext@ =~= blob@.subrange(12, i as int));
        }
        if blob.len() == 12 {
            assert(ciphertext@ =~= blob@.skip(12));
        } else {
            assert(ciphertext@ =~= blob@.skip(12));
        }
        match gcm_decrypt(self.key.as_slice(), nonce.as_slice(), ciphertext.as_slice()) {
            Some(p) => Ok(p),
            None => Err(CryptoError::DecryptionFailed),
        }
    }
}

/// Decryption undoes encryption: a blob that `encrypt` produced for `data`
/// decrypts, under the same key, to `data`.
pub proof fn lemma_decrypt_inverts_encrypt(key: Seq<u8>, data: Seq<u8>, blob: Seq<u8>)
    requires
        sealed_under(key, data, blob),
    ensures
        decrypt_outcome(key, blob) == Ok::<Seq<u8>, CryptoError>(data),
{
}

} // verus!
