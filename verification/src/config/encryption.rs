//! Encryption of secrets that are stored.

use aws_lc_rs::aead::{Aad, Nonce, RandomizedNonceKey, AES_256_GCM};
use base64::Engine;
use base64::prelude::BASE64_STANDARD;
use vstd::prelude::*;
use vstd::string::StringSliceAdditionalSpecFns;

verus! {

/// What AES-256-GCM opens of a sealed message, if it was sealed under the key and the nonce.
pub uninterp spec fn opened(key: Seq<u8>, nonce: Seq<u8>, sealed: Seq<u8>) -> Option<Seq<u8>>;

/// The text that the standard alphabet of base64 writes for bytes.
pub uninterp spec fn base64_text(bytes: Seq<u8>) -> Seq<char>;

/// The bytes that a text in the standard alphabet of base64 stands for, if it is one.
pub uninterp spec fn base64_bytes(text: Seq<char>) -> Option<Seq<u8>>;

/// Calls `RandomizedNonceKey::seal_in_place_append_tag` with AES-256-GCM and no additional data:
/// where it seals the message, opening it under the same key and the returned nonce gives the
/// message back. The nonce is random, so nothing more is known of it. It does not seal under a
/// key that is not 32 bytes long.
#[verifier::external_body]
fn seal(key: &Vec<u8>, plain: Vec<u8>) -> (sealed: Option<(Vec<u8>, Vec<u8>)>)
    ensures
        sealed matches Some((nonce, message)) ==> opened(key@, nonce@, message@) == Some(plain@),
        sealed is Some ==> key@.len() == 32,
{
    let key = RandomizedNonceKey::new(&AES_256_GCM, key).ok()?;
    let mut message = plain;
    let nonce = key.seal_in_place_append_tag(Aad::empty(), &mut message).ok()?;
    Some((nonce.as_ref().to_vec(), message))
}

/// Calls `RandomizedNonceKey::open_in_place` with AES-256-GCM and no additional data. Whether
/// the message opens, and to what, depends on the key, the nonce and the message alone.
#[verifier::external_body]
fn open(key: &Vec<u8>, nonce: &Vec<u8>, message: Vec<u8>) -> (plain: Option<Vec<u8>>)
    ensures
        plain is Some <==> opened(key@, nonce@, message@) is Some,
        plain matches Some(p) ==> opened(key@, nonce@, message@) == Some(p@),
{
    let key = RandomizedNonceKey::new(&AES_256_GCM, key).ok()?;
    let nonce = Nonce::try_assume_unique_for_key(nonce).ok()?;
    let mut message = message;
    key.open_in_place(nonce, Aad::empty(), &mut message).ok().map(|plain| plain.to_vec())
}

/// Calls `Engine::encode` with the standard alphabet of base64. Decoding the text gives the
/// bytes back.
#[verifier::external_body]
fn encode_base64(bytes: &Vec<u8>) -> (text: String)
    ensures
        text@ == base64_text(bytes@),
        base64_bytes(text@) == Some(bytes@),
{
    BASE64_STANDARD.encode(bytes)
}

/// Calls `Engine::decode` with the standard alphabet of base64. Whether the text stands for
/// bytes, and for which, depends on the text alone.
#[verifier::external_body]
fn decode_base64(text: &str) -> (bytes: Option<Vec<u8>>)
    ensures
        bytes is Some <==> base64_bytes(text@) is Some,
        bytes matches Some(b) ==> base64_bytes(text@) == Some(b@),
{
    BASE64_STANDARD.decode(text).ok()
}

/// Calls `String::from_utf8`: the text that the bytes encode, if they encode one.
#[verifier::external_body]
fn decode_utf8(bytes: Vec<u8>) -> (text: Option<String>)
    ensures
        text is Some <==> vstd::utf8::valid_utf8(bytes@),
        text matches Some(t) ==> t@ == vstd::utf8::decode_utf8(bytes@),
{
    String::from_utf8(bytes).ok()
}

/// Calls `aws_lc_rs::rand::fill`: so many random bytes, unless there is no source of them.
#[verifier::external_body]
fn random_bytes(count: usize) -> (bytes: Option<Vec<u8>>)
    ensures
        bytes matches Some(b) ==> b@.len() == count,
{
    let mut bytes = vec![0u8; count];
    aws_lc_rs::rand::fill(&mut bytes).ok().map(|()| bytes)
}

/// The reasons for which a secret is not encrypted.
#[derive(Debug, Clone, Copy, PartialEq, Eq, Structural)]
pub enum EncryptionError {
    /// The message was not sealed, or no key was drawn.
    Unspecified,
}

/// The reasons for which a secret is not decrypted.
#[derive(Debug, Clone, Copy, PartialEq, Eq, Structural)]
pub enum DecryptionError {
    /// The message does not open under the key.
    Unspecified,
    /// The message or the nonce is not in base64.
    Base64Decode,
    /// What was encrypted is not a text.
    FromUtf8,
    /// The secret was encrypted under a key with another identifier: that identifier, then that
    /// of the key at hand.
    MismatchedKeyId(u32, u32),
}

/// A key with its identifier.
#[derive(Debug, Clone)]
pub struct EncryptionKey {
    /// The identifier of the key.
    pub id: u32,
    /// The bytes of the key.
    pub key: Vec<u8>,
}

/// An encrypted secret.
#[derive(Debug, Clone)]
pub struct EncryptedValue {
    /// The identifier of the key.
    pub id: u32,
    /// The nonce, in base64.
    pub nonce: String,
    /// The sealed message, in base64.
    pub value: String,
}

/// What decrypting an encrypted secret gives.
pub open spec fn decrypted(value: EncryptedValue, key: EncryptionKey) -> Result<
    Seq<char>,
    DecryptionError,
> {
    if value.id != key.id {
        Err(DecryptionError::MismatchedKeyId(value.id, key.id))
    } else if base64_bytes(value.value@) is None || base64_bytes(value.nonce@) is None {
        Err(DecryptionError::Base64Decode)
    } else {
        match opened(key.key@, base64_bytes(value.nonce@)->0, base64_bytes(value.value@)->0) {
            None => Err(DecryptionError::Unspecified),
            Some(plain) => if vstd::utf8::valid_utf8(plain) {
                Ok(vstd::utf8::decode_utf8(plain))
            } else {
                Err(DecryptionError::FromUtf8)
            },
        }
    }
}

/// A value of which some part is encrypted before it is stored.
pub trait Encrypt<T>: Sized {
    /// Whether `encrypted` holds what this value holds, under `key`.
    spec fn is_encrypted_as(self, key: EncryptionKey, encrypted: T) -> bool;

    /// Whether there is anything to encrypt.
    spec fn has_secret(self) -> bool;

    /// Encrypts what is secret.
    fn encrypt(self, encryption_key: &EncryptionKey) -> (encrypted: Result<T, EncryptionError>)
        ensures
            encrypted matches Ok(e) ==> self.is_encrypted_as(*encryption_key, e),
            !self.has_secret() ==> encrypted is Ok,
            self.has_secret() && encryption_key.key@.len() != 32 ==> encrypted is Err,
    ;
}

/// A stored value of which some part is encrypted.
pub trait Decrypt<T>: Sized {
    /// Whether `decrypted` is what this value holds, under `key`, or the error that it gives.
    spec fn is_decrypted_as(
        self,
        key: EncryptionKey,
        decrypted: Result<T, DecryptionError>,
    ) -> bool;

    /// Decrypts what is secret.
    fn decrypt(self, encryption_key: &EncryptionKey) -> (decrypted: Result<T, DecryptionError>)
        ensures
            self.is_decrypted_as(*encryption_key, decrypted),
    ;
}

/// The bytes of a key, or the error that none were drawn.
pub fn drawn_key(bytes: Option<Vec<u8>>) -> (key: Result<Vec<u8>, EncryptionError>)
    ensures
        match bytes {
            Some(drawn) => key == Ok::<Vec<u8>, EncryptionError>(drawn),
            None => key == Err::<Vec<u8>, EncryptionError>(EncryptionError::Unspecified),
        },
{
    match bytes {
        Some(drawn) => Ok(drawn),
        None => Err(EncryptionError::Unspecified),
    }
}

/// Draws the bytes of a key. There is one unless there is no source of random bytes.
pub fn generate_random_key<const KEY_BYTES: usize>() -> (key: Result<Vec<u8>, EncryptionError>)
    ensures
        key matches Ok(k) ==> k@.len() == KEY_BYTES,
{
    drawn_key(random_bytes(KEY_BYTES))
}

/// The encrypted secret for a nonce and a message that was sealed with it, both in base64, or the
/// error that no message was sealed.
pub fn sealed_value(id: u32, sealed: Option<(Vec<u8>, Vec<u8>)>) -> (encrypted: Result<
    EncryptedValue,
    EncryptionError,
>)
    ensures
        match sealed {
            Some((nonce, message)) => encrypted matches Ok(e) && {
                &&& e.id == id
                &&& e.nonce@ == base64_text(nonce@)
                &&& e.value@ == base64_text(message@)
                &&& base64_bytes(e.nonce@) == Some(nonce@)
                &&& base64_bytes(e.value@) == Some(message@)
            },
            None => encrypted == Err::<EncryptedValue, EncryptionError>(
                EncryptionError::Unspecified,
            ),
        },
{
    match sealed {
        Some((nonce, message)) => Ok(
            EncryptedValue { id, nonce: encode_base64(&nonce), value: encode_base64(&message) },
        ),
        None => Err(EncryptionError::Unspecified),
    }
}

/// Encrypts a text. Where that succeeds, the result decrypts to the text under the same key. It
/// does not succeed with a key that is not 32 bytes long.
pub fn encrypt_text(value: String, encryption_key: &EncryptionKey) -> (encrypted: Result<
    EncryptedValue,
    EncryptionError,
>)
    ensures
        encrypted matches Ok(e) ==> e.id == encryption_key.id && decrypted(e, *encryption_key) == Ok::<
            Seq<char>,
            DecryptionError,
        >(value@),
        encryption_key.key@.len() != 32 ==> encrypted is Err,
{
    proof {
        vstd::utf8::encode_utf8_valid_utf8(value@);
        vstd::utf8::encode_utf8_decode_utf8(value@);
    }
    let plain: Vec<u8> = value.as_str().as_bytes_vec();
    sealed_value(encryption_key.id, seal(&encryption_key.key, plain))
}

/// Decrypts a text.
pub fn decrypt_text(encrypted_value: EncryptedValue, encryption_key: &EncryptionKey) -> (text:
    Result<String, DecryptionError>)
    ensures
        match (text, decrypted(encrypted_value, *encryption_key)) {
            (Ok(t), Ok(expected)) => t@ == expected,
            (Err(e), Err(expected)) => e == expected,
            _ => false,
        },
{
    if encrypted_value.id != encryption_key.id {
        return Err(DecryptionError::MismatchedKeyId(encrypted_value.id, encryption_key.id));
    }
    let message = match decode_base64(encrypted_value.value.as_str()) {
        Some(message) => message,
        None => return Err(DecryptionError::Base64Decode),
    };
    let nonce = match decode_base64(encrypted_value.nonce.as_str()) {
        Some(nonce) => nonce,
        None => return Err(DecryptionError::Base64Decode),
    };
    let plain = match open(&encryption_key.key, &nonce, message) {
        Some(plain) => plain,
        None => return Err(DecryptionError::Unspecified),
    };
    match decode_utf8(plain) {
        Some(text) => Ok(text),
        None => Err(DecryptionError::FromUtf8),
    }
}

} // verus!
