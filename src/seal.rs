//! Sealing of field contents at rest: ChaCha20-Poly1305 under a 32-byte key,
//! with a fresh 12-byte nonce per field, stored as `nonce:ciphertext` in
//! standard base64.
use vstd::prelude::*;
use crate::entropy::random_bytes;
use crate::error::Failure;

verus! {

/// The standard base64 text (with padding) of `bytes`.
pub uninterp spec fn base64_of(bytes: Seq<u8>) -> Seq<char>;

/// The ChaCha20-Poly1305 ciphertext, tag appended, of `plaintext` under
/// `key` and `nonce`, with no associated data.
pub uninterp spec fn chacha_sealed(key: Seq<u8>, nonce: Seq<u8>, plaintext: Seq<u8>) -> Seq<u8>;

/// Relies on `base64::engine::general_purpose::STANDARD.encode`: the text
/// depends on the bytes alone, and its alphabet (letters, digits, `+`, `/`,
/// `=`) holds no colon.
#[verifier::external_body]
fn base64_encode(bytes: &Vec<u8>) -> (r: String)
    ensures
        r@ == base64_of(bytes@),
        forall|i: int| 0 <= i < r@.len() ==> r@[i] != ':',
{
    base64::Engine::encode(&base64::engine::general_purpose::STANDARD, bytes)
}

/// Relies on `base64::engine::general_purpose::STANDARD.decode`, which
/// accepts canonical padded text only: what it decodes encodes back to the
/// text, and the standard encoding of any bytes decodes to those bytes.
#[verifier::external_body]
fn base64_decode(text: &str) -> (r: Option<Vec<u8>>)
    ensures
        r matches Some(b) ==> base64_of(b@) == text@,
        forall|b: Seq<u8>| #[trigger] base64_of(b) == text@ ==> r is Some && (r->0)@ == b,
{
    base64::Engine::decode(&base64::engine::general_purpose::STANDARD, text).ok()
}

/// Relies on `ChaCha20Poly1305::encrypt` (key and nonce taken by
/// `from_slice`, which needs 32 and 12 bytes): the ciphertext with its
/// 16-byte tag appended. It fails only when the plaintext reaches
/// `u32::MAX` blocks of 64 bytes.
#[verifier::external_body]
fn chacha_encrypt(key: &Vec<u8>, nonce: &Vec<u8>, plaintext: &[u8]) -> (r: Option<Vec<u8>>)
    requires
        key@.len() == 32,
        nonce@.len() == 12,
    ensures
        plaintext@.len() < MAX_PLAINTEXT ==> r is Some,
        r matches Some(c) ==> c@ == chacha_sealed(key@, nonce@, plaintext@) && c@.len() == plaintext@.len() + 16,
{
    let cipher = <chacha20poly1305::ChaCha20Poly1305 as chacha20poly1305::KeyInit>::new(
        chacha20poly1305::Key::from_slice(key),
    );
    chacha20poly1305::aead::Aead::encrypt(&cipher, chacha20poly1305::Nonce::from_slice(nonce), plaintext).ok()
}

/// A 32-byte sealing key.
pub struct SealingKey {
    bytes: Vec<u8>,
}

impl View for SealingKey {
    type V = Seq<u8>;

    closed spec fn view(&self) -> Seq<u8> {
        self.bytes@
    }
}

/// The plaintext length from which the cipher refuses to seal: `u32::MAX`
/// blocks of 64 bytes.
pub const MAX_PLAINTEXT: u64 = 64 * 0xffff_ffff;

/// The stored form of a sealed field.
pub open spec fn sealed_text(key: Seq<u8>, nonce: Seq<u8>, plaintext: Seq<u8>) -> Seq<char> {
    base64_of(nonce) + ":"@ + base64_of(chacha_sealed(key, nonce, plaintext))
}

impl SealingKey {
    pub closed spec fn wf(&self) -> bool {
        self.bytes@.len() == 32
    }

    /// The key that a base64 text holds; `None` when the text is not
    /// canonical base64 or does not hold exactly 32 bytes.
    pub fn from_base64(text: &String) -> (r: Option<SealingKey>)
        ensures
            r matches Some(k) ==> k.wf() && k@.len() == 32 && base64_of(k@) == text@,
            forall|b: Seq<u8>| b.len() == 32 && #[trigger] base64_of(b) == text@ ==> r is Some && (r->0)@ == b,
    {
        match base64_decode(text.as_str()) {
            Some(b) => if b.len() == 32 {
                Some(SealingKey { bytes: b })
            } else {
                None
            },
            None => None,
        }
    }

    /// Seals `plaintext` under this key and the 12-byte `nonce`: the nonce
    /// and the ciphertext, each in base64, joined by a colon. Failure of the
    /// cipher is an internal error.
    pub fn encrypt_with_nonce(&self, nonce: &Vec<u8>, plaintext: &[u8]) -> (r: Result<String, Failure>)
        requires
            self.wf(),
            nonce@.len() == 12,
        ensures
            r matches Ok(s) ==> s@ == sealed_text(self@, nonce@, plaintext@),
            r is Err ==> r == Err::<String, Failure>(Failure::Internal),
            plaintext@.len() < MAX_PLAINTEXT ==> r is Ok,
    {
        match chacha_encrypt(&self.bytes, nonce, plaintext) {
            Some(c) => {
                let mut s = base64_encode(nonce);
                s.append(":");
                let tail = base64_encode(&c);
                s.append(tail.as_str());
                Ok(s)
            },
            None => Err(Failure::Internal),
        }
    }

    /// Seals `plaintext` under this key with a fresh random nonce. Whatever
    /// nonce was drawn, the result is the sealed text of some 12-byte nonce.
    pub fn encrypt(&self, plaintext: &[u8]) -> (r: Result<String, Failure>)
        requires
            self.wf(),
        ensures
            r matches Ok(s) ==> exists|n: Seq<u8>| n.len() == 12 && s@ == sealed_text(self@, n, plaintext@),
            r is Err ==> r == Err::<String, Failure>(Failure::Internal),
    {
        match random_bytes(12) {
            Some(n) => self.encrypt_with_nonce(&n, plaintext),
            None => Err(Failure::Internal),
        }
    }
}

} // verus!
