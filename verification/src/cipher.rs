//! The one-time pad: byte-wise XOR of a payload with key material of at least
//! the same length, and the envelope that carries the result.

use crate::error::EncryptedMessageError;
use vstd::prelude::*;
use vstd::utf8::*;

verus! {

/// The pad applied to `data`: byte `i` of the result is `data[i] ^ key[i]`.
/// Key bytes beyond the length of `data` take no part.
pub open spec fn xor_pad(data: Seq<u8>, key: Seq<u8>) -> Seq<u8>
    recommends
        key.len() >= data.len(),
{
    Seq::new(data.len(), |i: int| data[i] ^ key[i])
}

/// What an envelope is: the identifier of the key that sealed it and the
/// ciphertext.  The key bytes themselves are no part of it.
pub struct EnvelopeView {
    pub key_id: Seq<char>,
    pub ciphertext: Seq<u8>,
}

/// An envelope: ciphertext together with the identifier of the key that
/// produced it.
#[derive(Debug, Clone, PartialEq, Eq)]
pub struct EncryptedMessage {
    pub key_id: String,
    pub ciphertext: Vec<u8>,
}

impl View for EncryptedMessage {
    type V = EnvelopeView;

    open spec fn view(&self) -> EnvelopeView {
        EnvelopeView { key_id: self.key_id@, ciphertext: self.ciphertext@ }
    }
}

/// What sealing comes to: an envelope that bears the key's identifier and the
/// padded plaintext, or `KeyTooShort` when the key holds fewer bytes than the
/// plaintext.
pub open spec fn sealed(key_id: Seq<char>, key: Seq<u8>, plaintext: Seq<u8>) -> Result<
    EnvelopeView,
    EncryptedMessageError,
> {
    if key.len() < plaintext.len() {
        Err(EncryptedMessageError::KeyTooShort(key.len() as usize, plaintext.len() as usize))
    } else {
        Ok(EnvelopeView { key_id, ciphertext: xor_pad(plaintext, key) })
    }
}

/// What opening comes to, as bytes: the padded ciphertext, or `KeyTooShort`
/// when the key holds fewer bytes than the ciphertext.
pub open spec fn opened(envelope: EnvelopeView, key: Seq<u8>) -> Result<
    Seq<u8>,
    EncryptedMessageError,
> {
    if key.len() < envelope.ciphertext.len() {
        Err(
            EncryptedMessageError::KeyTooShort(
                key.len() as usize,
                envelope.ciphertext.len() as usize,
            ),
        )
    } else {
        Ok(xor_pad(envelope.ciphertext, key))
    }
}

/// What opening comes to, as text: the recovered bytes read as UTF-8, or
/// `InvalidUtf8` when they are no UTF-8.
pub open spec fn opened_text(envelope: EnvelopeView, key: Seq<u8>) -> Result<
    Seq<char>,
    EncryptedMessageError,
> {
    match opened(envelope, key) {
        Err(e) => Err(e),
        Ok(bytes) => if valid_utf8(bytes) {
            Ok(decode_utf8(bytes))
        } else {
            Err(EncryptedMessageError::InvalidUtf8)
        },
    }
}

/// Applying the pad twice with the same key gives the data back.
pub proof fn lemma_xor_pad_involution(data: Seq<u8>, key: Seq<u8>)
    requires
        key.len() >= data.len(),
    ensures
        xor_pad(xor_pad(data, key), key) == data,
{
    let once = xor_pad(data, key);
    assert forall|i: int| 0 <= i < data.len() implies (#[trigger] once[i]) ^ key[i] == data[i] by {
        let d = data[i];
        let k = key[i];
        assert((d ^ k) ^ k == d) by (bit_vector);
    }
}

/// Round trip: whatever is sealed under a key that is long enough opens,
/// under the same key, into the plaintext that went in.
pub proof fn lemma_round_trip(key_id: Seq<char>, key: Seq<u8>, plaintext: Seq<u8>)
    requires
        key.len() >= plaintext.len(),
    ensures
        sealed(key_id, key, plaintext) is Ok,
        sealed(key_id, key, plaintext)->Ok_0.key_id == key_id,
        sealed(key_id, key, plaintext)->Ok_0.ciphertext.len() == plaintext.len(),
        opened(sealed(key_id, key, plaintext)->Ok_0, key) == Ok::<Seq<u8>, EncryptedMessageError>(
            plaintext,
        ),
{
    lemma_xor_pad_involution(plaintext, key);
}

/// Round trip as text: a plaintext that is UTF-8 opens into the text that it
/// encodes, and that text encodes back into the same bytes.
pub proof fn lemma_round_trip_text(key_id: Seq<char>, key: Seq<u8>, plaintext: Seq<u8>)
    requires
        key.len() >= plaintext.len(),
        valid_utf8(plaintext),
    ensures
        opened_text(sealed(key_id, key, plaintext)->Ok_0, key) == Ok::<
            Seq<char>,
            EncryptedMessageError,
        >(decode_utf8(plaintext)),
        encode_utf8(decode_utf8(plaintext)) == plaintext,
{
    lemma_round_trip(key_id, key, plaintext);
    decode_utf8_encode_utf8(plaintext);
}

/// A key shorter than the payload is refused, in sealing and in opening
/// alike, whatever the bytes are.
pub proof fn lemma_short_key_rejected(key_id: Seq<char>, key: Seq<u8>, payload: Seq<u8>)
    requires
        key.len() < payload.len(),
    ensures
        sealed(key_id, key, payload) == Err::<EnvelopeView, EncryptedMessageError>(
            EncryptedMessageError::KeyTooShort(key.len() as usize, payload.len() as usize),
        ),
        opened(EnvelopeView { key_id, ciphertext: payload }, key) == Err::<
            Seq<u8>,
            EncryptedMessageError,
        >(EncryptedMessageError::KeyTooShort(key.len() as usize, payload.len() as usize)),
        opened_text(EnvelopeView { key_id, ciphertext: payload }, key) == Err::<
            Seq<char>,
            EncryptedMessageError,
        >(EncryptedMessageError::KeyTooShort(key.len() as usize, payload.len() as usize)),
{
}

/// Computes `xor_pad(data, key)`.
fn apply_pad(data: &[u8], key: &[u8]) -> (out: Vec<u8>)
    requires
        key@.len() >= data@.len(),
    ensures
        out@ == xor_pad(data@, key@),
{
    let mut out: Vec<u8> = Vec::with_capacity(data.len());
    let mut i: usize = 0;
    while i < data.len()
        invariant
            i <= data@.len() <= key@.len(),
            out@.len() == i,
            forall|j: int| 0 <= j < i ==> out@[j] == data@[j] ^ key@[j],
        decreases data@.len() - i,
    {
        out.push(data[i] ^ key[i]);
        i += 1;
    }
    out
}

/// `String::from_utf8`, with the error dropped: the bytes become a `String`
/// exactly when they are valid UTF-8, and the string is then the text that
/// they encode.
#[verifier::external_body]
fn text_from_utf8(bytes: Vec<u8>) -> (r: Option<String>)
    ensures
        r is Some <==> valid_utf8(bytes@),
        r is Some ==> r->Some_0@ == decode_utf8(bytes@),
{
    String::from_utf8(bytes).ok()
}

impl EncryptedMessage {
    /// Seals `plaintext` under `key` and labels the envelope with `key_id`.
    ///
    /// The key must hold at least as many bytes as the plaintext; surplus key
    /// bytes are dropped with the key.  The ciphertext is exactly as long as
    /// the plaintext.
    pub fn new(key_id: String, key: Vec<u8>, plaintext: Vec<u8>) -> (r: Result<
        Self,
        EncryptedMessageError,
    >)
        ensures
            match sealed(key_id@, key@, plaintext@) {
                Ok(envelope) => r is Ok && r->Ok_0@ == envelope,
                Err(e) => r == Err::<Self, EncryptedMessageError>(e),
            },
    {
        if key.len() < plaintext.len() {
            return Err(EncryptedMessageError::KeyTooShort(key.len(), plaintext.len()));
        }
        let ciphertext = apply_pad(plaintext.as_slice(), key.as_slice());
        Ok(EncryptedMessage { key_id, ciphertext })
    }

    /// Opens the envelope under `key` and hands back the recovered bytes as
    /// they are.
    pub fn decrypt_bytes(&self, key: &[u8]) -> (r: Result<Vec<u8>, EncryptedMessageError>)
        ensures
            match opened(self@, key@) {
                Ok(bytes) => r is Ok && r->Ok_0@ == bytes,
                Err(e) => r == Err::<Vec<u8>, EncryptedMessageError>(e),
            },
    {
        if key.len() < self.ciphertext.len() {
            return Err(EncryptedMessageError::KeyTooShort(key.len(), self.ciphertext.len()));
        }
        Ok(apply_pad(self.ciphertext.as_slice(), key))
    }

    /// Opens the envelope under `key` and reads the recovered bytes as UTF-8
    /// text.
    pub fn decrypt(&self, key: &[u8]) -> (r: Result<String, EncryptedMessageError>)
        ensures
            match opened_text(self@, key@) {
                Ok(text) => r is Ok && r->Ok_0@ == text,
                Err(e) => r == Err::<String, EncryptedMessageError>(e),
            },
    {
        match self.decrypt_bytes(key) {
            Err(e) => Err(e),
            Ok(bytes) => match text_from_utf8(bytes) {
                Some(text) => Ok(text),
                None => Err(EncryptedMessageError::InvalidUtf8),
            },
        }
    }
}

} // verus!
