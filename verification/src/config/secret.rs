//! Secrets that stay out of logs.

use secrecy::{ExposeSecret, SecretString};
use vstd::prelude::*;

verus! {

/// A text that stays out of logs: it holds a `secrecy::SecretString`, which keeps its content out
/// of debug output and wipes it from memory when it is dropped.
#[verifier::external_body]
#[derive(Debug)]
pub struct SerializableSecretString {
    secret: SecretString,
}

/// The text that a secret holds.
pub uninterp spec fn secret_text(secret: SerializableSecretString) -> Seq<char>;

impl View for SerializableSecretString {
    type V = Seq<char>;

    open spec fn view(&self) -> Seq<char> {
        secret_text(*self)
    }
}

/// Calls `SecretString::from`: the secret holds the text.
#[verifier::external_body]
fn concealed(text: String) -> (secret: SerializableSecretString)
    ensures
        secret_text(secret) == text@,
{
    SerializableSecretString { secret: SecretString::from(text) }
}

/// Calls `ExposeSecret::expose_secret`: the text that the secret holds.
#[verifier::external_body]
fn exposed(secret: &SerializableSecretString) -> (text: &str)
    ensures
        text@ == secret_text(*secret),
{
    secret.secret.expose_secret()
}

impl Clone for SerializableSecretString {
    fn clone(&self) -> (secret: Self)
        ensures
            secret@ == self@,
    {
        concealed(exposed(self).to_string())
    }
}

impl SerializableSecretString {
    /// A secret with this text.
    pub fn from(text: String) -> (secret: SerializableSecretString)
        ensures
            secret@ == text@,
    {
        concealed(text)
    }

    /// The text of the secret.
    pub fn expose_secret(&self) -> (text: &str)
        ensures
            text@ == self@,
    {
        exposed(self)
    }
}

} // verus!
