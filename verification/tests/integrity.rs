use stun_types::attributes::{MessageIntegrity, MessageIntegrityKey, MessageIntegritySha256, Software};
use stun_types::builder::MessageBuilder;
use stun_types::header::{Class, Method};
use stun_types::parse::Message;
use stun_types::{Error, TransactionId};

fn binding_request() -> MessageBuilder {
    MessageBuilder::new(Class::Request, Method::Binding, &TransactionId::new(123))
}

#[test]
fn selftest_sha1() {
    let password = "abc123";

    let mut message = binding_request();
    Software::new("ezk-stun").encode(&mut message).unwrap();
    MessageIntegrity
        .encode(&MessageIntegrityKey::new_short_term(password), &mut message)
        .unwrap();
    let bytes = message.finish();

    let msg = Message::parse(bytes).unwrap();
    let span = msg.attribute_span(0x0008).unwrap();
    MessageIntegrity::decode(&MessageIntegrityKey::new_short_term(password), &msg, span).unwrap();
}

#[test]
fn selftest_sha256() {
    let password = "abc123";

    let mut message = binding_request();
    Software::new("ezk-stun").encode(&mut message).unwrap();
    MessageIntegritySha256
        .encode(&MessageIntegrityKey::new_short_term(password), &mut message)
        .unwrap();
    let bytes = message.finish();

    let msg = Message::parse(bytes).unwrap();
    let span = msg.attribute_span(0x001C).unwrap();
    MessageIntegritySha256::decode(&MessageIntegrityKey::new_short_term(password), &msg, span)
        .unwrap();
}

#[test]
fn integrity_sha1_wrong_password_fails() {
    let mut message = binding_request();
    Software::new("ezk-stun").encode(&mut message).unwrap();
    MessageIntegrity
        .encode(&MessageIntegrityKey::new_short_term("abc123"), &mut message)
        .unwrap();
    let bytes = message.finish();

    let msg = Message::parse(bytes).unwrap();
    let span = msg.attribute_span(0x0008).unwrap();
    let err = MessageIntegrity::decode(&MessageIntegrityKey::new_short_term("wrong"), &msg, span)
        .unwrap_err();
    assert!(matches!(err, Error::InvalidData(_)));
}

#[test]
fn integrity_sha256_wrong_password_fails() {
    let mut message = binding_request();
    MessageIntegritySha256
        .encode(&MessageIntegrityKey::new_short_term("abc123"), &mut message)
        .unwrap();
    let bytes = message.finish();

    let msg = Message::parse(bytes).unwrap();
    let span = msg.attribute_span(0x001C).unwrap();
    let err = MessageIntegritySha256::decode(
        &MessageIntegrityKey::new_short_term("wrong"),
        &msg,
        span,
    )
    .unwrap_err();
    assert!(matches!(err, Error::InvalidData(_)));
}

#[test]
fn scenario_software_then_integrity() {
    let mut message = binding_request();
    Software::new("ezk-stun").encode(&mut message).unwrap();
    MessageIntegrity
        .encode(&MessageIntegrityKey::new_short_term("abc123"), &mut message)
        .unwrap();
    let bytes = message.finish();

    let msg = Message::parse(bytes).unwrap();

    let sw_span = msg.attribute_span(0x8022).unwrap();
    let sw = Software::decode(&msg, sw_span).unwrap();
    assert_eq!(sw.value().as_slice(), "ezk-stun".as_bytes());

    let span = msg.attribute_span(0x0008).unwrap();
    MessageIntegrity::decode(&MessageIntegrityKey::new_short_term("abc123"), &msg, span).unwrap();
    let err = MessageIntegrity::decode(&MessageIntegrityKey::new_short_term("wrong"), &msg, span)
        .unwrap_err();
    assert!(matches!(err, Error::InvalidData(_)));
}

#[test]
fn long_term_md5_key_deterministic() {
    let k1 = MessageIntegrityKey::new_long_term_md5("alice", "example.com", "secret");
    let k2 = MessageIntegrityKey::new_long_term_md5("alice", "example.com", "secret");
    assert_eq!(k1.as_bytes(), k2.as_bytes());
    assert_eq!(k1.as_bytes().len(), 16);
}

#[test]
fn long_term_sha256_key_deterministic() {
    let k1 = MessageIntegrityKey::new_long_term_sha256("alice", "example.com", "secret");
    let k2 = MessageIntegrityKey::new_long_term_sha256("alice", "example.com", "secret");
    assert_eq!(k1.as_bytes(), k2.as_bytes());
    assert_eq!(k1.as_bytes().len(), 32);
}

#[test]
fn long_term_keys_differ_between_schemes() {
    let md5 = MessageIntegrityKey::new_long_term_md5("alice", "example.com", "secret");
    let sha = MessageIntegrityKey::new_long_term_sha256("alice", "example.com", "secret");
    assert_ne!(md5.as_bytes(), sha.as_bytes());
}

#[test]
fn short_term_key_is_password_bytes() {
    let key = MessageIntegrityKey::new_short_term("abc123");
    assert_eq!(key.as_bytes().as_slice(), "abc123".as_bytes());
}

#[test]
fn raw_key_is_kept_as_is() {
    let key = MessageIntegrityKey::new_raw(vec![1, 2, 3, 4]);
    assert_eq!(key.as_bytes().as_slice(), &[1, 2, 3, 4]);
}

#[test]
fn long_term_keys_work_for_verification() {
    let key = MessageIntegrityKey::new_long_term_md5("alice", "example.com", "secret");
    let mut message = binding_request();
    MessageIntegrity.encode(&key, &mut message).unwrap();
    let bytes = message.finish();

    let msg = Message::parse(bytes).unwrap();
    let span = msg.attribute_span(0x0008).unwrap();
    let same = MessageIntegrityKey::new_long_term_md5("alice", "example.com", "secret");
    MessageIntegrity::decode(&same, &msg, span).unwrap();
    let other = MessageIntegrityKey::new_long_term_md5("alice", "example.com", "other");
    let err = MessageIntegrity::decode(&other, &msg, span).unwrap_err();
    assert!(matches!(err, Error::InvalidData(_)));
}

#[test]
fn integrity_wrong_value_length_rejected() {
    let mut message = binding_request();
    // A bogus 12-byte MESSAGE-INTEGRITY value: too short for a SHA-1 digest.
    message.add_attr_raw(0x0008, &vec![0u8; 12]).unwrap();
    let bytes = message.finish();

    let msg = Message::parse(bytes).unwrap();
    let span = msg.attribute_span(0x0008).unwrap();
    let err = MessageIntegrity::decode(&MessageIntegrityKey::new_short_term("abc123"), &msg, span)
        .unwrap_err();
    assert!(matches!(err, Error::InvalidData(_)));
}

#[test]
fn integrity_sha256_wrong_value_length_rejected() {
    let mut message = binding_request();
    // 20 bytes would be a SHA-1 digest; SHA-256 integrity demands 32.
    message.add_attr_raw(0x001C, &vec![0u8; 20]).unwrap();
    let bytes = message.finish();

    let msg = Message::parse(bytes).unwrap();
    let span = msg.attribute_span(0x001C).unwrap();
    let err = MessageIntegritySha256::decode(
        &MessageIntegrityKey::new_short_term("abc123"),
        &msg,
        span,
    )
    .unwrap_err();
    assert!(matches!(err, Error::InvalidData(_)));
}

#[test]
fn encode_len_values() {
    assert_eq!(MessageIntegrity.encode_len().unwrap(), 20);
    assert_eq!(MessageIntegritySha256.encode_len().unwrap(), 32);
}
