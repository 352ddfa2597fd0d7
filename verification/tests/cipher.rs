use sae::cipher::EncryptedMessage;
use sae::error::{EncryptedMessageError, SessionError};

#[test]
fn seals_ab_under_k1() {
    let sealed = EncryptedMessage::new("k1".to_string(), vec![0x01, 0x02, 0x03], b"AB".to_vec())
        .unwrap();
    assert_eq!(sealed.key_id, "k1");
    assert_eq!(sealed.ciphertext, vec![0x40, 0x40]);
}

#[test]
fn end_to_end_ab() {
    let key: Vec<u8> = vec![0x01, 0x02, 0x03];
    let sealed = EncryptedMessage::new("k1".to_string(), key.clone(), b"AB".to_vec()).unwrap();
    assert_eq!(
        sealed,
        EncryptedMessage { key_id: "k1".to_string(), ciphertext: vec![0x40, 0x40] }
    );
    assert_eq!(sealed.decrypt(&key).unwrap(), "AB");
}

#[test]
fn round_trip_gives_plaintext_back() {
    let plaintext: Vec<u8> = "la clave no se repite: ñ, €, 𝄞".as_bytes().to_vec();
    let key: Vec<u8> = (0..plaintext.len() + 5).map(|i| (i * 37 + 11) as u8).collect();
    let sealed = EncryptedMessage::new("id-7".to_string(), key.clone(), plaintext.clone()).unwrap();
    assert_eq!(sealed.ciphertext.len(), plaintext.len());
    assert_ne!(sealed.ciphertext, plaintext);
    assert_eq!(sealed.decrypt_bytes(&key).unwrap(), plaintext);
    assert_eq!(sealed.decrypt(&key).unwrap().into_bytes(), plaintext);
}

#[test]
fn round_trip_of_bytes_that_are_no_text() {
    let plaintext: Vec<u8> = vec![0xff, 0x00, 0xc0, 0x80];
    let key: Vec<u8> = vec![0x10, 0x20, 0x30, 0x40];
    let sealed = EncryptedMessage::new("bin".to_string(), key.clone(), plaintext.clone()).unwrap();
    assert_eq!(sealed.ciphertext, vec![0xef, 0x20, 0xf0, 0xc0]);
    assert_eq!(sealed.decrypt_bytes(&key).unwrap(), plaintext);
    assert_eq!(sealed.decrypt(&key), Err(EncryptedMessageError::InvalidUtf8));
}

#[test]
fn key_of_equal_length_is_enough() {
    let sealed = EncryptedMessage::new("eq".to_string(), vec![0xff, 0x0f], vec![0x0f, 0xff]).unwrap();
    assert_eq!(sealed.ciphertext, vec![0xf0, 0xf0]);
}

#[test]
fn empty_plaintext_seals_to_empty_ciphertext() {
    let sealed = EncryptedMessage::new("e".to_string(), vec![], vec![]).unwrap();
    assert!(sealed.ciphertext.is_empty());
    assert_eq!(sealed.decrypt(&[]).unwrap(), "");
    assert_eq!(sealed.decrypt(&[1, 2, 3]).unwrap(), "");
}

#[test]
fn short_key_is_refused_when_sealing() {
    let refused = EncryptedMessage::new("k".to_string(), vec![1, 2], vec![9, 9, 9]);
    assert_eq!(refused, Err(EncryptedMessageError::KeyTooShort(2, 3)));
    let refused = EncryptedMessage::new("k".to_string(), vec![], vec![0]);
    assert_eq!(refused, Err(EncryptedMessageError::KeyTooShort(0, 1)));
}

#[test]
fn short_key_is_refused_when_opening() {
    let envelope = EncryptedMessage { key_id: "k".to_string(), ciphertext: vec![1, 2, 3, 4] };
    assert_eq!(envelope.decrypt(&[7, 7, 7]), Err(EncryptedMessageError::KeyTooShort(3, 4)));
    assert_eq!(envelope.decrypt_bytes(&[7, 7, 7]), Err(EncryptedMessageError::KeyTooShort(3, 4)));
}

#[test]
fn short_key_wins_over_invalid_text() {
    let envelope = EncryptedMessage { key_id: "k".to_string(), ciphertext: vec![0xff, 0xff] };
    assert_eq!(envelope.decrypt(&[0]), Err(EncryptedMessageError::KeyTooShort(1, 2)));
}

#[test]
fn recovered_bytes_that_are_no_utf8_are_refused() {
    let envelope = EncryptedMessage { key_id: "k".to_string(), ciphertext: vec![0x00, 0x00] };
    assert_eq!(envelope.decrypt(&[0xc3, 0x28]), Err(EncryptedMessageError::InvalidUtf8));
    assert_eq!(envelope.decrypt(&[0xc3, 0xb1]).unwrap(), "ñ");
}

#[test]
fn opening_does_not_hand_the_ciphertext_back() {
    let envelope = EncryptedMessage { key_id: "k".to_string(), ciphertext: b"hola".to_vec() };
    let opened = envelope.decrypt(&[0x01, 0x01, 0x01, 0x01]).unwrap();
    assert_eq!(opened, "inm`");
}

#[test]
fn surplus_key_bytes_take_no_part() {
    let short = EncryptedMessage::new("s".to_string(), vec![5, 6], vec![1, 2]).unwrap();
    let long = EncryptedMessage::new("s".to_string(), vec![5, 6, 7, 8, 9], vec![1, 2]).unwrap();
    assert_eq!(short, long);
    assert_eq!(long.ciphertext, vec![4, 4]);
}

#[test]
fn cipher_error_messages() {
    assert_eq!(
        EncryptedMessageError::KeyTooShort(3, 1024).message(),
        "Key length (3) is shorter than plaintext length (1024)"
    );
    assert_eq!(
        EncryptedMessageError::KeyTooShort(0, 10).message(),
        "Key length (0) is shorter than plaintext length (10)"
    );
    assert_eq!(EncryptedMessageError::InvalidUtf8.message(), "Fallo al desencriptar");
}

#[test]
fn cipher_errors_carry_over_into_session_errors() {
    assert_eq!(
        SessionError::from_cipher(EncryptedMessageError::KeyTooShort(1, 2)),
        SessionError::KeyTooShort(1, 2)
    );
    assert_eq!(
        SessionError::from_cipher(EncryptedMessageError::InvalidUtf8),
        SessionError::InvalidEncoding
    );
}
