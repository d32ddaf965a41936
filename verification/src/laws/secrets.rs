//! Encrypted secrets can be decrypted with their key, and with no other.

use vstd::prelude::*;

use crate::config::encryption;
use crate::config::encryption::{
    DecryptionError, EncryptedValue, EncryptionError, EncryptionKey, decrypt_text, drawn_key,
    encrypt_text, sealed_value,
};
use crate::config::secret::SerializableSecretString;

verus! {

/// A text that was encrypted is told by the identifier of its key, and is the same text again when
/// it is decrypted with that key.
pub proof fn texts_are_decrypted_again(
    value: String,
    key: EncryptionKey,
    encrypted: EncryptedValue,
    decrypted: Result<String, DecryptionError>,
)
    requires
        call_ensures(encrypt_text, (value, &key), Ok::<_, EncryptionError>(encrypted)),
        call_ensures(decrypt_text, (encrypted, &key), decrypted),
    ensures
        encrypted.id == key.id,
        decrypted matches Ok(text) && text@ == value@,
{
}

/// Nothing is encrypted with a key that is not 32 bytes long.
pub proof fn keys_have_their_length(
    value: String,
    key: EncryptionKey,
    encrypted: Result<EncryptedValue, EncryptionError>,
)
    requires
        call_ensures(encrypt_text, (value, &key), encrypted),
        key.key@.len() != 32,
    ensures
        encrypted is Err,
{
}

/// A text is decrypted only with the key that has the identifier of the one that it was encrypted
/// with. For any other key both identifiers are told.
pub proof fn other_keys_are_refused(
    encrypted: EncryptedValue,
    key: EncryptionKey,
    decrypted: Result<String, DecryptionError>,
)
    requires
        call_ensures(decrypt_text, (encrypted, &key), decrypted),
    ensures
        encrypted.id != key.id <==> decrypted is Err && decrypted->Err_0 is MismatchedKeyId,
        encrypted.id != key.id ==> decrypted == Err::<String, DecryptionError>(
            DecryptionError::MismatchedKeyId(encrypted.id, key.id),
        ),
{
}

/// What is wrong with an encrypted text is told: that it is not in base64, that it does not open,
/// or that what it opens to is no text. Nothing else is ever wrong.
pub proof fn broken_texts_are_told(
    encrypted: EncryptedValue,
    key: EncryptionKey,
    decrypted: Result<String, DecryptionError>,
)
    requires
        call_ensures(decrypt_text, (encrypted, &key), decrypted),
        encrypted.id == key.id,
    ensures
        ({
            let nonce = encryption::base64_bytes(encrypted.nonce@);
            let message = encryption::base64_bytes(encrypted.value@);
            match (nonce, message) {
                (Some(n), Some(m)) => match encryption::opened(key.key@, n, m) {
                    Some(plain) => if vstd::utf8::valid_utf8(plain) {
                        decrypted matches Ok(text) && text@ == vstd::utf8::decode_utf8(plain)
                    } else {
                        decrypted matches Err(error) && error is FromUtf8
                    },
                    None => decrypted matches Err(error) && error is Unspecified,
                },
                _ => decrypted matches Err(error) && error is Base64Decode,
            }
        }),
{
}

/// A sealed message is kept with its nonce and the identifier of its key.
pub proof fn sealed_messages_are_kept(
    id: u32,
    nonce: Vec<u8>,
    message: Vec<u8>,
    encrypted: Result<EncryptedValue, EncryptionError>,
)
    requires
        call_ensures(sealed_value, (id, Some((nonce, message))), encrypted),
    ensures
        encrypted matches Ok(e) && {
            &&& e.id == id
            &&& encryption::base64_bytes(e.nonce@) == Some(nonce@)
            &&& encryption::base64_bytes(e.value@) == Some(message@)
        },
{
}

/// Without a sealed message, and without random bytes, there is nothing.
pub proof fn nothing_comes_of_nothing(
    id: u32,
    encrypted: Result<EncryptedValue, EncryptionError>,
    key: Result<Vec<u8>, EncryptionError>,
)
    requires
        call_ensures(sealed_value, (id, None), encrypted),
        call_ensures(drawn_key, (None,), key),
    ensures
        encrypted is Err,
        key is Err,
{
}

/// The bytes that were drawn are the key.
pub proof fn drawn_bytes_are_the_key(bytes: Vec<u8>, key: Result<Vec<u8>, EncryptionError>)
    requires
        call_ensures(drawn_key, (Some(bytes),), key),
    ensures
        key == Ok::<Vec<u8>, EncryptionError>(bytes),
{
}

/// A secret is the text that it was made of.
pub proof fn secrets_are_kept(text: String, secret: SerializableSecretString, exposed: &str)
    requires
        call_ensures(SerializableSecretString::from, (text,), secret),
        call_ensures(SerializableSecretString::expose_secret, (&secret,), exposed),
    ensures
        exposed@ == text@,
{
}

} // verus!
