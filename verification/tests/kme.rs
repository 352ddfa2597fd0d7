use sae::json::{parse_json, Json, JsonMember};
use sae::key::KeyMaterial;
use sae::kme::{
    dec_keys_request, enc_keys_request, key_from_response, key_in_document, keys_from_response,
    keys_in_document, status_request, KmeError,
};
use sae::status::{status_from_response, status_in_document, StatusMap};
use std::collections::VecDeque;

fn member(name: &str, value: Json) -> JsonMember {
    JsonMember { name: name.to_string(), value }
}

fn text(s: &str) -> Json {
    Json::Text(s.to_string())
}

fn key(id: &str, bytes: &[u8]) -> KeyMaterial {
    KeyMaterial { id: id.to_string(), bytes: bytes.to_vec() }
}

#[test]
fn request_for_fresh_keys() {
    assert_eq!(enc_keys_request(5, 8192), "enc_keys?number=5&size=8192");
    assert_eq!(enc_keys_request(0, 0), "enc_keys?number=0&size=0");
    assert_eq!(enc_keys_request(10, 100), "enc_keys?number=10&size=100");
    assert_eq!(
        enc_keys_request(usize::MAX, 1),
        format!("enc_keys?number={}&size=1", usize::MAX)
    );
}

#[test]
fn request_for_a_key_by_identifier() {
    assert_eq!(
        dec_keys_request("bc490419-7d60-487f-adc1-4ddcc177c139"),
        "dec_keys?key_ID=bc490419-7d60-487f-adc1-4ddcc177c139"
    );
    assert_eq!(dec_keys_request(""), "dec_keys?key_ID=");
}

#[test]
fn request_for_the_status() {
    assert_eq!(status_request(), "status");
}

#[test]
fn parse_json_copies_the_document() {
    let parsed = parse_json(r#"{"a": [1, "two", null, true, -3.5], "b": {"c": "d"}}"#).unwrap();
    let expected = Json::Object(vec![
        member(
            "a",
            Json::Array(vec![
                Json::Number("1".to_string()),
                text("two"),
                Json::Null,
                Json::Bool(true),
                Json::Number("-3.5".to_string()),
            ]),
        ),
        member("b", Json::Object(vec![member("c", text("d"))])),
    ]);
    assert_eq!(parsed, expected);
}

#[test]
fn parse_json_refuses_what_is_no_json() {
    assert_eq!(parse_json(""), None);
    assert_eq!(parse_json("{"), None);
    assert_eq!(parse_json("{\"a\": 1} trailing"), None);
    assert_eq!(parse_json("\"text\""), Some(text("text")));
}

#[test]
fn json_accessors() {
    let document = Json::Object(vec![
        member("n", Json::Number("1".to_string())),
        member("list", Json::Array(vec![text("x")])),
        member("n", Json::Null),
    ]);
    assert_eq!(document.get("n"), Some(&Json::Number("1".to_string())));
    assert_eq!(document.get("missing"), None);
    assert_eq!(document.get("list").unwrap().as_array(), Some(&vec![text("x")]));
    assert_eq!(document.get("list").unwrap().get("n"), None);
    assert_eq!(document.as_array(), None);
    assert_eq!(document.as_object().unwrap().len(), 3);
    assert_eq!(text("x").as_str(), Some("x"));
    assert_eq!(Json::Number("1".to_string()).as_str(), None);
    assert_eq!(text("x").as_object(), None);
}

#[test]
fn keys_are_read_in_the_order_of_the_answer() {
    let body = r#"{"keys": [
        {"key_ID": "second-in-name", "key": "AQID"},
        {"key_ID": "first-in-name", "key": "BAUG"},
        {"key_ID": "last", "key": "/w=="}
    ]}"#;
    let keys = keys_from_response(body).unwrap();
    let expected = VecDeque::from(vec![
        key("second-in-name", &[1, 2, 3]),
        key("first-in-name", &[4, 5, 6]),
        key("last", &[0xff]),
    ]);
    assert_eq!(keys, expected);
}

#[test]
fn key_text_is_decoded_not_copied() {
    let keys = keys_from_response(r#"{"keys": [{"key_ID": "k", "key": "aG9sYQ=="}]}"#).unwrap();
    assert_eq!(keys[0].bytes, b"hola".to_vec());
}

#[test]
fn entries_without_key_or_identifier_are_passed_over() {
    let body = r#"{"keys": [
        {"key_ID": "a"},
        {"key": "AQID"},
        {"key_ID": 7, "key": "AQID"},
        {"key_ID": "b", "key": ["AQID"]},
        "text",
        {"key_ID": "c", "key": "AQID", "extension": null}
    ]}"#;
    assert_eq!(keys_from_response(body), Ok(VecDeque::from(vec![key("c", &[1, 2, 3])])));
}

#[test]
fn answer_without_a_key_list_holds_no_keys() {
    assert_eq!(keys_from_response("{}"), Ok(VecDeque::new()));
    assert_eq!(keys_from_response(r#"{"keys": {}}"#), Ok(VecDeque::new()));
    assert_eq!(keys_from_response(r#"{"keys": []}"#), Ok(VecDeque::new()));
    assert_eq!(keys_from_response("[]"), Ok(VecDeque::new()));
    assert_eq!(keys_from_response(r#"{"message": "denied"}"#), Ok(VecDeque::new()));
}

#[test]
fn answer_that_is_no_json_is_refused() {
    assert_eq!(keys_from_response("<html>"), Err(KmeError::InvalidJson));
    assert_eq!(key_from_response(""), Err(KmeError::InvalidJson));
    assert_eq!(status_from_response("{"), Err(KmeError::InvalidJson));
}

#[test]
fn key_that_is_no_base64_spoils_the_answer() {
    let body = r#"{"keys": [{"key_ID": "a", "key": "AQID"}, {"key_ID": "b", "key": "not base64!"}]}"#;
    assert_eq!(keys_from_response(body), Err(KmeError::InvalidBase64));
    let unpadded = r#"{"keys": [{"key_ID": "a", "key": "AQ"}]}"#;
    assert_eq!(keys_from_response(unpadded), Err(KmeError::InvalidBase64));
    assert_eq!(key_from_response(unpadded), Err(KmeError::InvalidBase64));
}

#[test]
fn keys_of_a_document_built_by_hand() {
    let document = Json::Object(vec![member(
        "keys",
        Json::Array(vec![
            Json::Object(vec![member("key", text("AQID")), member("key_ID", text("one"))]),
            Json::Object(vec![member("key", text("")), member("key_ID", text("empty"))]),
        ]),
    )]);
    assert_eq!(
        keys_in_document(&document),
        Ok(VecDeque::from(vec![key("one", &[1, 2, 3]), key("empty", &[])]))
    );
    assert_eq!(key_in_document(&document), Ok(vec![1, 2, 3]));
}

#[test]
fn key_by_identifier_is_the_first_of_the_answer() {
    let body = r#"{"keys": [{"key_ID": "x", "key": "AQIDBA=="}, {"key_ID": "y", "key": "BQ=="}]}"#;
    assert_eq!(key_from_response(body), Ok(vec![1, 2, 3, 4]));
    assert_eq!(key_from_response(r#"{"keys": [{"key": "BQ=="}]}"#), Ok(vec![5]));
}

#[test]
fn answer_without_a_key_gives_no_valid_key() {
    assert_eq!(key_from_response("{}"), Err(KmeError::NoValidKey));
    assert_eq!(key_from_response(r#"{"keys": []}"#), Err(KmeError::NoValidKey));
    assert_eq!(key_from_response(r#"{"keys": "none"}"#), Err(KmeError::NoValidKey));
    assert_eq!(key_from_response(r#"{"keys": [{"key_ID": "x"}]}"#), Err(KmeError::NoValidKey));
    assert_eq!(key_from_response(r#"{"keys": [{"key": 5}]}"#), Err(KmeError::NoValidKey));
    assert_eq!(key_from_response(r#"{"keys": [[], {"key": "BQ=="}]}"#), Err(KmeError::NoValidKey));
    assert_eq!(key_from_response(r#"{"message": "unknown key"}"#), Err(KmeError::NoValidKey));
}

#[test]
fn status_holds_strings_and_numbers() {
    let body = r#"{
        "source_KME_ID": "kme-1",
        "key_size": 256,
        "max_key_count": 100000,
        "ratio": 0.5,
        "enabled": true,
        "extension": null,
        "list": [1],
        "nested": {"a": "b"}
    }"#;
    let status = status_from_response(body).unwrap();
    assert_eq!(status.len(), 4);
    assert_eq!(status.get("source_KME_ID"), Some(&"kme-1".to_string()));
    assert_eq!(status.get("key_size"), Some(&"256".to_string()));
    assert_eq!(status.get("max_key_count"), Some(&"100000".to_string()));
    assert_eq!(status.get("ratio"), Some(&"0.5".to_string()));
    assert_eq!(status.get("enabled"), None);
    assert_eq!(status.get("extension"), None);
    assert_eq!(status.get("list"), None);
    assert_eq!(status.get("nested"), None);
    assert_eq!(status.get("missing"), None);
}

#[test]
fn status_of_what_is_no_object_is_empty() {
    assert_eq!(status_from_response("[1, 2]").unwrap().len(), 0);
    assert_eq!(status_from_response("\"up\"").unwrap().len(), 0);
    assert_eq!(status_from_response("{}").unwrap().len(), 0);
}

#[test]
fn later_status_member_replaces_an_earlier_one() {
    let document = Json::Object(vec![
        member("a", text("old")),
        member("b", Json::Number("2".to_string())),
        member("a", text("new")),
        member("b", Json::Null),
    ]);
    let status = status_in_document(&document);
    assert_eq!(status.len(), 2);
    assert_eq!(status.get("a"), Some(&"new".to_string()));
    assert_eq!(status.get("b"), Some(&"2".to_string()));
    assert_eq!(
        status.into_entries(),
        vec![("a".to_string(), "new".to_string()), ("b".to_string(), "2".to_string())]
    );
}

#[test]
fn status_map_insert_and_get() {
    let mut status = StatusMap::new();
    assert_eq!(status.len(), 0);
    assert_eq!(status.get("x"), None);
    status.insert("x".to_string(), "1".to_string());
    status.insert("y".to_string(), "2".to_string());
    status.insert("x".to_string(), "3".to_string());
    assert_eq!(status.len(), 2);
    assert_eq!(status.get("x"), Some(&"3".to_string()));
    assert_eq!(status.get("y"), Some(&"2".to_string()));
    assert_eq!(status.get(""), None);
}
