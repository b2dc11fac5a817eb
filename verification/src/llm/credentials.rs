//! Server-side encryption of stored LLM provider API keys: AES-256-GCM under
//! a key derived (SHA-256) from key material independent of the JWT signing
//! key; stored as `v1:` followed by base64url(nonce ‖ ciphertext).

use vstd::prelude::*;
use aes_gcm::aead::{Aead, AeadCore, KeyInit};
use base64::Engine;
use sha2::Digest;
use vstd::string::*;
use vstd::utf8::{decode_utf8, encode_utf8, valid_utf8};
use crate::llm::models::LLMError;
use crate::text::{chars_of, starts_with, starts_with_exec, string_of, trim, trim_exec};

verus! {

/// Prefix of the stored format (its version).
pub const CREDENTIAL_VERSION: &'static str = "v1:";

/// Domain separator hashed before the key material.
pub const KEY_DOMAIN: &'static str = "stellar.llm-provider.credentials.v1\0";

// ---------------------------------------------------------------------------
// Outside functions
// ---------------------------------------------------------------------------

/// The SHA-256 digest of `data`.
pub uninterp spec fn sha256_digest(data: Seq<u8>) -> Seq<u8>;

/// AES-256-GCM ciphertext (with its 16-byte tag) of `plaintext` under `key`
/// and `nonce`. The crate seals plaintexts of at most `P_MAX` (2^36) bytes
/// and refuses longer ones; no clause speaks of the name beyond that bound.
pub uninterp spec fn aead_seal(key: Seq<u8>, nonce: Seq<u8>, plaintext: Seq<u8>) -> Seq<u8>;

/// AES-256-GCM opening of `ciphertext` (None when authentication fails).
pub uninterp spec fn aead_open(key: Seq<u8>, nonce: Seq<u8>, ciphertext: Seq<u8>) -> Option<Seq<u8>>;

/// URL-safe base64 without padding of `data`.
pub uninterp spec fn b64url_encode(data: Seq<u8>) -> Seq<char>;

/// URL-safe base64 (no padding) decoding of `text` (None when malformed).
pub uninterp spec fn b64url_decode(text: Seq<char>) -> Option<Seq<u8>>;

/// `sha2::Sha256` digest of `data` (32 bytes).
#[verifier::external_body]
fn sha256(data: &[u8]) -> (r: Vec<u8>)
    ensures
        r@ == sha256_digest(data@),
        r@.len() == 32,
{
    sha2::Sha256::digest(data).to_vec()
}

/// `aes_gcm::Aes256Gcm` encryption of `plaintext` under a 32-byte key and a
/// 12-byte nonce; the ciphertext is the plaintext's length plus the 16-byte
/// tag. The crate refuses (here `None`) exactly the plaintexts longer than
/// `P_MAX` (2^36 bytes).
#[verifier::external_body]
fn aes_gcm_encrypt(key: &[u8], nonce: &[u8], plaintext: &[u8]) -> (r: Option<Vec<u8>>)
    requires
        key@.len() == 32,
        nonce@.len() == 12,
    ensures
        r is Some <==> plaintext@.len() <= 0x10_0000_0000,
        r matches Some(c) ==> c@ == aead_seal(key@, nonce@, plaintext@) && c@.len()
            == plaintext@.len() + 16,
{
    let cipher = aes_gcm::Aes256Gcm::new_from_slice(key).ok()?;
    cipher.encrypt(aes_gcm::Nonce::from_slice(nonce), plaintext).ok()
}

/// `aes_gcm::Aes256Gcm` decryption of `ciphertext` under a 32-byte key and a
/// 12-byte nonce. It opens what the same key and nonce sealed from a
/// plaintext of at most `P_MAX` (2^36) bytes; nothing is claimed of longer
/// plaintexts.
#[verifier::external_body]
fn aes_gcm_decrypt(key: &[u8], nonce: &[u8], ciphertext: &[u8]) -> (r: Option<Vec<u8>>)
    requires
        key@.len() == 32,
        nonce@.len() == 12,
    ensures
        match r {
            Some(p) => aead_open(key@, nonce@, ciphertext@) == Some(p@),
            None => aead_open(key@, nonce@, ciphertext@) is None,
        },
        r is None ==> forall|pt: Seq<u8>|
            pt.len() <= 0x10_0000_0000 ==> ciphertext@ != aead_seal(key@, nonce@, pt),
        r matches Some(p) ==> forall|pt: Seq<u8>|
            pt.len() <= 0x10_0000_0000 && ciphertext@ == aead_seal(key@, nonce@, pt) ==> p@ == pt,
{
    let cipher = aes_gcm::Aes256Gcm::new_from_slice(key).ok()?;
    cipher.decrypt(aes_gcm::Nonce::from_slice(nonce), ciphertext).ok()
}

/// A fresh random 12-byte nonce from the operating system
/// (`Aes256Gcm::generate_nonce` with `OsRng`); nothing but its length is
/// claimed.
#[verifier::external_body]
fn random_nonce() -> (r: Vec<u8>)
    ensures
        r@.len() == 12,
{
    aes_gcm::Aes256Gcm::generate_nonce(&mut aes_gcm::aead::OsRng).to_vec()
}

/// `base64::engine::general_purpose::URL_SAFE_NO_PAD.encode`.
#[verifier::external_body]
fn b64_encode(data: &[u8]) -> (r: String)
    ensures
        r@ == b64url_encode(data@),
{
    base64::engine::general_purpose::URL_SAFE_NO_PAD.encode(data)
}

/// `base64::engine::general_purpose::URL_SAFE_NO_PAD.decode`; it decodes
/// what the same engine encoded.
#[verifier::external_body]
fn b64_decode(text: &str) -> (r: Option<Vec<u8>>)
    ensures
        match r {
            Some(b) => b64url_decode(text@) == Some(b@),
            None => b64url_decode(text@) is None,
        },
        r is None ==> forall|b: Seq<u8>| text@ != b64url_encode(b),
        r matches Some(x) ==> forall|b: Seq<u8>| text@ == b64url_encode(b) ==> x@ == b,
{
    base64::engine::general_purpose::URL_SAFE_NO_PAD.decode(text).ok()
}

/// `String::from_utf8`: the text the bytes encode, if they are valid UTF-8.
#[verifier::external_body]
fn string_from_utf8(bytes: Vec<u8>) -> (r: Option<String>)
    ensures
        r is Some <==> valid_utf8(bytes@),
        r matches Some(s) ==> s@ == decode_utf8(bytes@),
{
    String::from_utf8(bytes).ok()
}

// ---------------------------------------------------------------------------
// The cipher
// ---------------------------------------------------------------------------

/// Encrypts provider credentials with a key derived from key material.
pub struct LlmCredentialCipher {
    key: Option<Vec<u8>>,
}

/// The key derived from key material: none for blank material, otherwise
/// SHA-256 of the domain separator followed by the trimmed material.
pub open spec fn derived_key(material: Seq<char>) -> Option<Seq<u8>> {
    if trim(material).len() == 0 {
        None
    } else {
        Some(sha256_digest(encode_utf8(KEY_DOMAIN@ + trim(material))))
    }
}

/// The stored form of `plaintext` under `key` and `nonce`.
pub open spec fn sealed_form(key: Seq<u8>, nonce: Seq<u8>, plaintext: Seq<char>) -> Seq<char> {
    CREDENTIAL_VERSION@ + b64url_encode(nonce + aead_seal(key, nonce, encode_utf8(plaintext)))
}

/// A nonce of the right length, a plaintext the cipher accepts (at most 2^36
/// bytes) and a non-empty sealed text (AES-GCM always appends its tag).
pub open spec fn seal_ok(key: Seq<u8>, nonce: Seq<u8>, plaintext: Seq<char>) -> bool {
    &&& nonce.len() == 12
    &&& encode_utf8(plaintext).len() <= 0x10_0000_0000
    &&& aead_seal(key, nonce, encode_utf8(plaintext)).len() > 0
}

/// How a stored value decrypts under `key`: the plain text, or the message
/// of the API error it is refused with (`None` when no key is configured),
/// checked in this order: the version prefix, the base64 payload, its length
/// (a nonce and at least one byte), the key, authentication, UTF-8.
pub open spec fn decryption(key: Option<Seq<u8>>, value: Seq<char>) -> Result<Seq<char>, Option<Seq<char>>> {
    if !encrypted_form(value) {
        Err(Some("Unsupported encrypted LLM API key format"@))
    } else {
        match b64url_decode(value.skip(3)) {
            None => Err(Some("Invalid encrypted LLM API key"@)),
            Some(payload) => if payload.len() <= 12 {
                Err(Some("Invalid encrypted LLM API key"@))
            } else {
                match key {
                    None => Err(None),
                    Some(k) => match aead_open(k, payload.take(12), payload.skip(12)) {
                        None => Err(Some("Unable to decrypt LLM API key"@)),
                        Some(plain) => if valid_utf8(plain) {
                            Ok(decode_utf8(plain))
                        } else {
                            Err(Some("Invalid decrypted LLM API key"@))
                        },
                    },
                }
            },
        }
    }
}

/// Stored value carries the version prefix.
pub open spec fn encrypted_form(value: Seq<char>) -> bool {
    starts_with(value, CREDENTIAL_VERSION@)
}

impl LlmCredentialCipher {
    /// The derived key (absent when the key material was blank).
    pub closed spec fn key_spec(&self) -> Option<Seq<u8>> {
        match self.key {
            Some(k) => Some(k@),
            None => None,
        }
    }

    /// Builds the cipher from key material (blank material disables it).
    pub fn new(key_material: &str) -> (r: Self)
        ensures
            r.key_spec() == derived_key(key_material@),
            r.key_spec() matches Some(k) ==> k.len() == 32,
            r.well_formed(),
    {
        let m = chars_of(key_material);
        let t = trim_exec(m.as_slice());
        if t.len() == 0 {
            return LlmCredentialCipher { key: None };
        }
        let mut input = String::from_str(KEY_DOMAIN);
        let ts = string_of(t.as_slice());
        input.append(ts.as_str());
        let digest = sha256(input.as_str().as_bytes());
        LlmCredentialCipher { key: Some(digest) }
    }

    /// Whether the cipher has a key.
    pub closed spec fn well_formed(&self) -> bool {
        self.key matches Some(k) ==> k@.len() == 32
    }

    /// Encrypts an API key into its stored form (fresh random nonce).
    pub fn encrypt(&self, plaintext: &str) -> (r: Result<String, LLMError>)
        requires
            self.well_formed(),
        ensures
            self.key_spec() is None ==> r matches Err(LLMError::CredentialEncryptionUnavailable),
            r matches Ok(v) ==> exists|n: Seq<u8>|
                #![trigger sealed_form(self.key_spec()->0, n, plaintext@)]
                self.key_spec() is Some && seal_ok(self.key_spec()->0, n, plaintext@) && v@ == sealed_form(
                    self.key_spec()->0,
                    n,
                    plaintext@,
                ),
            self.key_spec() is Some && encode_utf8(plaintext@).len() <= 0x10_0000_0000 ==> r is Ok,
            r matches Err(e) ==> (e is CredentialEncryptionUnavailable && self.key_spec() is None)
                || (e matches LLMError::ApiError(m) && m@ == "Failed to encrypt LLM API key"@
                && self.key_spec() is Some && encode_utf8(plaintext@).len() > 0x10_0000_0000),
    {
        let key = match &self.key {
            Some(k) => k,
            None => return Err(LLMError::CredentialEncryptionUnavailable),
        };
        let nonce = random_nonce();
        let bytes = plaintext.as_bytes();
        let ct = match aes_gcm_encrypt(key.as_slice(), nonce.as_slice(), bytes) {
            Some(c) => c,
            None => return Err(LLMError::ApiError(String::from_str("Failed to encrypt LLM API key"))),
        };
        let mut payload = nonce.clone();
        let mut tail = ct.clone();
        payload.append(&mut tail);
        let encoded = b64_encode(payload.as_slice());
        let mut r = String::from_str(CREDENTIAL_VERSION);
        r.append(encoded.as_str());
        assert(payload@ == nonce@ + aead_seal(key@, nonce@, encode_utf8(plaintext@)));
        assert(r@ == sealed_form(key@, nonce@, plaintext@));
        assert(self.key_spec()->0 == key@);
        assert(seal_ok(self.key_spec()->0, nonce@, plaintext@) && r@ == sealed_form(self.key_spec()->0, nonce@, plaintext@));
        Ok(r)
    }

    /// Decrypts a stored API key.
    pub fn decrypt(&self, value: &str) -> (r: Result<String, LLMError>)
        requires
            self.well_formed(),
        ensures
            match decryption(self.key_spec(), value@) {
                Ok(p) => r matches Ok(q) && q@ == p,
                Err(Some(m)) => r matches Err(LLMError::ApiError(x)) && x@ == m,
                Err(None) => r matches Err(LLMError::CredentialEncryptionUnavailable),
            },
            r matches Ok(p) ==> self.key_spec() is Some,
            forall|n: Seq<u8>, p: Seq<char>|
                self.key_spec() is Some && seal_ok(self.key_spec()->0, n, p) && value@
                    == #[trigger] sealed_form(self.key_spec()->0, n, p) ==> (r matches Ok(q) && q@
                    == p),
    {
        let v = chars_of(value);
        let prefix = chars_of(CREDENTIAL_VERSION);
        proof {
            reveal_strlit("v1:");
        }
        if !starts_with_exec(v.as_slice(), prefix.as_slice()) {
            proof {
                assert forall|n: Seq<u8>, p: Seq<char>|
                    self.key_spec() is Some && seal_ok(self.key_spec()->0, n, p) implies value@ != #[trigger] sealed_form(
                        self.key_spec()->0,
                        n,
                        p,
                    ) by {
                    let x = b64url_encode(
                        n + aead_seal(self.key_spec()->0, n, encode_utf8(p)),
                    );
                    assert((CREDENTIAL_VERSION@ + x).take(3) =~= CREDENTIAL_VERSION@);
                }
            }
            return Err(
                LLMError::ApiError(String::from_str("Unsupported encrypted LLM API key format")),
            );
        }
        let rest = vstd::slice::slice_subrange(v.as_slice(), 3, v.len());
        let encoded = string_of(rest);
        assert(encoded@ == value@.skip(3));
        let decoded = b64_decode(encoded.as_str());
        proof {
            assert forall|n: Seq<u8>, p: Seq<char>|
                self.key_spec() is Some && seal_ok(self.key_spec()->0, n, p) && value@
                    == #[trigger] sealed_form(self.key_spec()->0, n, p) implies (decoded matches Some(
                x,
            ) && x@ == n + aead_seal(self.key_spec()->0, n, encode_utf8(p))) by {
                let c = aead_seal(self.key_spec()->0, n, encode_utf8(p));
                assert(encoded@ =~= b64url_encode(n + c));
            }
        }
        let payload = match decoded {
            Some(p) => p,
            None => return Err(LLMError::ApiError(String::from_str("Invalid encrypted LLM API key"))),
        };
        if payload.len() <= 12 {
            return Err(LLMError::ApiError(String::from_str("Invalid encrypted LLM API key")));
        }
        let key = match &self.key {
            Some(k) => k,
            None => return Err(LLMError::CredentialEncryptionUnavailable),
        };
        let nonce = vstd::slice::slice_subrange(payload.as_slice(), 0, 12);
        let ct = vstd::slice::slice_subrange(payload.as_slice(), 12, payload.len());
        let opened = aes_gcm_decrypt(key.as_slice(), nonce, ct);
        proof {
            assert forall|n: Seq<u8>, p: Seq<char>|
                self.key_spec() is Some && seal_ok(self.key_spec()->0, n, p) && value@
                    == #[trigger] sealed_form(self.key_spec()->0, n, p) implies (opened matches Some(
                x,
            ) && x@ == encode_utf8(p)) by {
                let c = aead_seal(key@, n, encode_utf8(p));
                assert(payload@ == n + c);
                assert(nonce@ =~= n);
                assert(ct@ =~= c);
            }
        }
        let plain = match opened {
            Some(p) => p,
            None => return Err(LLMError::ApiError(String::from_str("Unable to decrypt LLM API key"))),
        };
        match string_from_utf8(plain) {
            Some(s) => {
                proof {
                    broadcast use vstd::utf8::encode_utf8_decode_utf8;
                }
                Ok(s)
            },
            None => {
                proof {
                    broadcast use vstd::utf8::encode_utf8_valid_utf8;
                }
                Err(LLMError::ApiError(String::from_str("Invalid decrypted LLM API key")))
            },
        }
    }

    /// Whether a stored value is in the encrypted format.
    pub fn is_encrypted(value: &str) -> (r: bool)
        ensures
            r == encrypted_form(value@),
    {
        let v = chars_of(value);
        let p = chars_of(CREDENTIAL_VERSION);
        starts_with_exec(v.as_slice(), p.as_slice())
    }
}

} // verus!
