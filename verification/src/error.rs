//! Error values of the cipher and of a session.

use crate::text::{append_decimal, decimal};
use vstd::prelude::*;

verus! {

/// Why a message could not be sealed or opened.
#[derive(Debug, Clone, Copy, PartialEq, Eq, Structural)]
pub enum EncryptedMessageError {
    /// The key holds fewer bytes than the payload: `(key length, payload length)`.
    KeyTooShort(usize, usize),
    /// The recovered bytes are not UTF-8 text.
    InvalidUtf8,
}

impl EncryptedMessageError {
    /// The text of the error's message.
    pub open spec fn message_text(self) -> Seq<char> {
        match self {
            EncryptedMessageError::KeyTooShort(have, need) => "Key length ("@ + decimal(
                have as nat,
            ) + ") is shorter than plaintext length ("@ + decimal(need as nat) + ")"@,
            EncryptedMessageError::InvalidUtf8 => "Fallo al desencriptar"@,
        }
    }

    /// The error's message, for display.
    pub fn message(&self) -> (text: String)
        ensures
            text@ == self.message_text(),
    {
        match self {
            EncryptedMessageError::KeyTooShort(have, need) => {
                let mut text = String::from_str("Key length (");
                append_decimal(&mut text, *have as u64);
                text.append(") is shorter than plaintext length (");
                append_decimal(&mut text, *need as u64);
                text.append(")");
                text
            },
            EncryptedMessageError::InvalidUtf8 => String::from_str("Fallo al desencriptar"),
        }
    }
}

/// Why a session ended early.  Every one of them is final: a session that
/// met an error sends and delivers nothing more.
#[derive(Debug, Clone, Copy, PartialEq, Eq, Structural)]
pub enum SessionError {
    /// The key holds fewer bytes than the payload: `(key length, payload length)`.
    KeyTooShort(usize, usize),
    /// The key manager answered a request for keys with none.
    NoKeyAvailable,
    /// The key manager could not resolve the identifier that an envelope names.
    KeyNotFound,
    /// The stream closed inside a frame.
    TruncatedFrame,
    /// The recovered bytes are not text.
    InvalidEncoding,
    /// A payload is longer than a length prefix can state.
    FrameTooLarge,
    /// The bytes of a frame are not an envelope, or an envelope could not be
    /// put into bytes.
    MalformedEnvelope,
    /// The plaintext source failed.
    Source,
    /// The plaintext sink failed.
    Sink,
    /// The key manager could not be asked.
    Supplier,
    /// The connection failed.
    Transport,
    /// An event arrived that does not answer the action last asked for.
    UnexpectedEvent,
}

impl SessionError {
    /// The session error that a cipher error amounts to.
    pub open spec fn of_cipher(e: EncryptedMessageError) -> SessionError {
        match e {
            EncryptedMessageError::KeyTooShort(have, need) => SessionError::KeyTooShort(have, need),
            EncryptedMessageError::InvalidUtf8 => SessionError::InvalidEncoding,
        }
    }

    /// Carries a cipher error over into the session's taxonomy.
    pub fn from_cipher(e: EncryptedMessageError) -> (r: SessionError)
        ensures
            r == Self::of_cipher(e),
    {
        match e {
            EncryptedMessageError::KeyTooShort(have, need) => SessionError::KeyTooShort(have, need),
            EncryptedMessageError::InvalidUtf8 => SessionError::InvalidEncoding,
        }
    }
}

} // verus!
