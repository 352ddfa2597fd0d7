//! The key manager's protocol: what to ask for, and what its answers hold.
//!
//! Requests are relative URLs under the key manager's base URL.  Answers are
//! JSON documents; keys travel in them as standard base64 text.

use crate::json::{json_document, parse_json, Json, JsonView};
use crate::key::{key_views, KeyMaterial, KeyMaterialView};
use crate::text::{append_decimal, decimal};
use std::collections::VecDeque;
use vstd::prelude::*;

verus! {

/// Why an answer of the key manager could not be used.
#[derive(Debug, Clone, Copy, PartialEq, Eq, Structural)]
pub enum KmeError {
    /// The answer is no JSON document.
    InvalidJson,
    /// A key in the answer is no standard base64.
    InvalidBase64,
    /// The answer holds no key where one was asked for.
    NoValidKey,
}

/// The relative URL that asks for `num_keys` fresh keys of `key_size_bits`
/// bits each.
pub open spec fn enc_keys_request_text(num_keys: nat, key_size_bits: nat) -> Seq<char> {
    "enc_keys?number="@ + decimal(num_keys) + "&size="@ + decimal(key_size_bits)
}

/// The relative URL that asks for the key with identifier `key_id`.
pub open spec fn dec_keys_request_text(key_id: Seq<char>) -> Seq<char> {
    "dec_keys?key_ID="@ + key_id
}

/// The relative URL that asks for `num_keys` fresh keys of `key_size_bits`
/// bits each.
pub fn enc_keys_request(num_keys: usize, key_size_bits: usize) -> (url: String)
    ensures
        url@ == enc_keys_request_text(num_keys as nat, key_size_bits as nat),
{
    let mut url = String::from_str("enc_keys?number=");
    append_decimal(&mut url, num_keys as u64);
    url.append("&size=");
    append_decimal(&mut url, key_size_bits as u64);
    url
}

/// The relative URL that asks for the key with identifier `key_id`.  The
/// identifier goes in as it is.
pub fn dec_keys_request(key_id: &str) -> (url: String)
    ensures
        url@ == dec_keys_request_text(key_id@),
{
    let mut url = String::from_str("dec_keys?key_ID=");
    url.append(key_id);
    url
}

/// The relative URL that asks for the key manager's status.
pub fn status_request() -> (url: String)
    ensures
        url@ == "status"@,
{
    String::from_str("status")
}

/// `base64::DecodeError`, of which only its presence is used.
#[verifier::external_type_specification]
#[verifier::external_body]
pub struct ExDecodeError(base64::DecodeError);

/// The bytes that the `base64` crate's `STANDARD` engine decodes from a
/// text, or `None` where it refuses the text.
pub uninterp spec fn base64_decoded(text: Seq<char>) -> Option<Seq<u8>>;

/// `Engine::decode` of `base64::engine::general_purpose::STANDARD`: the text
/// decodes exactly when `base64_decoded` has bytes for it, and into those
/// bytes.
#[verifier::external_body]
fn decode_base64(text: &str) -> (r: Result<Vec<u8>, base64::DecodeError>)
    ensures
        match r {
            Ok(bytes) => base64_decoded(text@) == Some(bytes@),
            Err(_) => base64_decoded(text@) is None,
        },
{
    base64::Engine::decode(&base64::engine::general_purpose::STANDARD, text)
}

/// The key text and the identifier of one entry of an answer, where the
/// entry is an object that has both as strings.
pub open spec fn key_entry(item: JsonView) -> Option<(Seq<char>, Seq<char>)> {
    match (item.member("key"@), item.member("key_ID"@)) {
        (Some(JsonView::Text(key)), Some(JsonView::Text(id))) => Some((key, id)),
        _ => None,
    }
}

/// The keys that a list of entries holds, in order.  An entry without a key
/// text or without an identifier is passed over.  The first key text that is
/// no base64 spoils the whole list.
pub open spec fn keys_of_entries(items: Seq<JsonView>) -> Result<Seq<KeyMaterialView>, KmeError>
    decreases items.len(),
{
    if items.len() == 0 {
        Ok(Seq::empty())
    } else {
        match key_entry(items[0]) {
            None => keys_of_entries(items.drop_first()),
            Some((key, id)) => match base64_decoded(key) {
                None => Err(KmeError::InvalidBase64),
                Some(bytes) => match keys_of_entries(items.drop_first()) {
                    Ok(rest) => Ok(seq![KeyMaterialView { id, bytes }] + rest),
                    Err(e) => Err(e),
                },
            },
        }
    }
}

/// The keys that an answer to a request for fresh keys holds: those of the
/// array under `keys`; none where the answer has no such array.
pub open spec fn keys_in(document: JsonView) -> Result<Seq<KeyMaterialView>, KmeError> {
    match document.member("keys"@) {
        Some(JsonView::Array(items)) => keys_of_entries(items),
        _ => Ok(Seq::empty()),
    }
}

/// The key that an answer to a request by identifier holds: the key text of
/// the first entry of the array under `keys`, decoded.
pub open spec fn key_in(document: JsonView) -> Result<Seq<u8>, KmeError> {
    match document.member("keys"@) {
        Some(JsonView::Array(items)) => if items.len() == 0 {
            Err(KmeError::NoValidKey)
        } else {
            match items[0].member("key"@) {
                Some(JsonView::Text(key)) => match base64_decoded(key) {
                    Some(bytes) => Ok(bytes),
                    None => Err(KmeError::InvalidBase64),
                },
                _ => Err(KmeError::NoValidKey),
            }
        },
        _ => Err(KmeError::NoValidKey),
    }
}

/// Reads the keys out of a parsed answer to a request for fresh keys.
pub fn keys_in_document(document: &Json) -> (r: Result<VecDeque<KeyMaterial>, KmeError>)
    ensures
        match keys_in(document@) {
            Ok(keys) => r is Ok && key_views(r->Ok_0@) == keys,
            Err(e) => r == Err::<VecDeque<KeyMaterial>, KmeError>(e),
        },
{
    let mut keys: VecDeque<KeyMaterial> = VecDeque::new();
    let items = match document.get("keys") {
        Some(list) => match list.as_array() {
            Some(items) => items,
            None => {
                return Ok(keys);
            },
        },
        None => {
            return Ok(keys);
        },
    };
    let ghost all = document@.member("keys"@)->Some_0->Array_0;
    let mut i: usize = 0;
    assert(all.subrange(0, all.len() as int) =~= all);
    while i < items.len()
        invariant
            i <= items@.len(),
            all.len() == items@.len(),
            forall|j: int| 0 <= j < all.len() ==> (#[trigger] items@[j])@ == all[j],
            keys_in(document@) == keys_of_entries(all),
            match keys_of_entries(all.subrange(i as int, all.len() as int)) {
                Ok(rest) => keys_of_entries(all) == Ok::<Seq<KeyMaterialView>, KmeError>(
                    key_views(keys@) + rest,
                ),
                Err(e) => keys_of_entries(all) == Err::<Seq<KeyMaterialView>, KmeError>(e),
            },
        decreases items@.len() - i,
    {
        let ghost rest = all.subrange(i as int, all.len() as int);
        let ghost before = key_views(keys@);
        assert(rest.drop_first() =~= all.subrange(i + 1, all.len() as int));
        let item = &items[i];
        let key_text = match item.get("key") {
            Some(value) => value.as_str(),
            None => None,
        };
        let id_text = match item.get("key_ID") {
            Some(value) => value.as_str(),
            None => None,
        };
        match (key_text, id_text) {
            (Some(key), Some(id)) => {
                match decode_base64(key) {
                    Ok(bytes) => {
                        let ghost k = KeyMaterialView { id: id@, bytes: bytes@ };
                        keys.push_back(KeyMaterial { id: String::from_str(id), bytes });
                        proof {
                            assert(key_views(keys@) =~= before + seq![k]);
                            let tail = keys_of_entries(rest.drop_first());
                            if tail is Ok {
                                assert(before + (seq![k] + tail->Ok_0) =~= (before + seq![k])
                                    + tail->Ok_0);
                            }
                        }
                    },
                    Err(_) => {
                        return Err(KmeError::InvalidBase64);
                    },
                }
            },
            _ => {},
        }
        i += 1;
    }
    Ok(keys)
}

/// Reads the keys out of the body of an answer to a request for fresh keys.
pub fn keys_from_response(body: &str) -> (r: Result<VecDeque<KeyMaterial>, KmeError>)
    ensures
        match json_document(body@) {
            None => r == Err::<VecDeque<KeyMaterial>, KmeError>(KmeError::InvalidJson),
            Some(document) => match keys_in(document) {
                Ok(keys) => r is Ok && key_views(r->Ok_0@) == keys,
                Err(e) => r == Err::<VecDeque<KeyMaterial>, KmeError>(e),
            },
        },
{
    match parse_json(body) {
        None => Err(KmeError::InvalidJson),
        Some(document) => keys_in_document(&document),
    }
}

/// Reads the key out of a parsed answer to a request by identifier.
pub fn key_in_document(document: &Json) -> (r: Result<Vec<u8>, KmeError>)
    ensures
        match key_in(document@) {
            Ok(bytes) => r is Ok && r->Ok_0@ == bytes,
            Err(e) => r == Err::<Vec<u8>, KmeError>(e),
        },
{
    let items = match document.get("keys") {
        Some(list) => match list.as_array() {
            Some(items) => items,
            None => {
                return Err(KmeError::NoValidKey);
            },
        },
        None => {
            return Err(KmeError::NoValidKey);
        },
    };
    if items.len() == 0 {
        return Err(KmeError::NoValidKey);
    }
    let key_text = match items[0].get("key") {
        Some(value) => value.as_str(),
        None => None,
    };
    match key_text {
        Some(key) => match decode_base64(key) {
            Ok(bytes) => Ok(bytes),
            Err(_) => Err(KmeError::InvalidBase64),
        },
        None => Err(KmeError::NoValidKey),
    }
}

/// Reads the key out of the body of an answer to a request by identifier.
pub fn key_from_response(body: &str) -> (r: Result<Vec<u8>, KmeError>)
    ensures
        match json_document(body@) {
            None => r == Err::<Vec<u8>, KmeError>(KmeError::InvalidJson),
            Some(document) => match key_in(document) {
                Ok(bytes) => r is Ok && r->Ok_0@ == bytes,
                Err(e) => r == Err::<Vec<u8>, KmeError>(e),
            },
        },
{
    match parse_json(body) {
        None => Err(KmeError::InvalidJson),
        Some(document) => key_in_document(&document),
    }
}

} // verus!
