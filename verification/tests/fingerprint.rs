use stun_types::attributes::{Fingerprint, MessageIntegrity, MessageIntegrityKey, Software};
use stun_types::builder::MessageBuilder;
use stun_types::header::{Class, Method};
use stun_types::parse::Message;
use stun_types::{Error, TransactionId};

fn new_builder() -> MessageBuilder {
    MessageBuilder::new(Class::Request, Method::Binding, &TransactionId::new(123))
}

#[test]
fn crc32_reference_vector() {
    let data: Vec<u8> = "123456789".as_bytes().to_vec();
    assert_eq!(Fingerprint::crc32(&data), 0xCBF43926);
}

#[test]
fn crc32_empty_input() {
    let data: Vec<u8> = Vec::new();
    assert_eq!(Fingerprint::crc32(&data), 0);
}

#[test]
fn crc32_update_matches_one_shot() {
    let whole: Vec<u8> = "123456789".as_bytes().to_vec();
    let head: Vec<u8> = "12345".as_bytes().to_vec();
    let tail: Vec<u8> = "6789".as_bytes().to_vec();
    let partial = Fingerprint::update_crc32(Fingerprint::crc32(&head), &tail);
    assert_eq!(partial, Fingerprint::crc32(&whole));
}

#[test]
fn crc32_table_spot_values() {
    let table = Fingerprint::crc32_table();
    assert_eq!(table.len(), 256);
    assert_eq!(table[0], 0);
    assert_eq!(table[1], 0x77073096);
    assert_eq!(table[255], 0x2D02EF8D);
}

#[test]
fn fingerprint_round_trip() {
    let mut message = new_builder();
    Software::new("ezk-stun").encode(&mut message).unwrap();
    Fingerprint.encode(&mut message).unwrap();
    let bytes = message.finish();

    let msg = Message::parse(bytes).unwrap();
    let span = msg.attribute_span(0x8028).unwrap();
    Fingerprint::decode(&msg, span).unwrap();
}

#[test]
fn fingerprint_bit_flip_fails() {
    let mut message = new_builder();
    Software::new("ezk-stun").encode(&mut message).unwrap();
    Fingerprint.encode(&mut message).unwrap();
    let bytes = message.finish();
    let fp_begin = Message::parse(bytes.clone())
        .unwrap()
        .attribute_span(0x8028)
        .unwrap()
        .begin;

    // Flip one bit of the software value and of the transaction id:
    // both precede the fingerprint, so verification must fail.
    for &pos in &[8usize, 24] {
        assert!(pos < fp_begin);
        let mut corrupted = bytes.clone();
        corrupted[pos] ^= 0x01;
        let msg = Message::parse(corrupted).unwrap();
        let span = msg.attribute_span(0x8028).unwrap();
        let err = Fingerprint::decode(&msg, span).unwrap_err();
        assert!(matches!(err, Error::InvalidData(_)));
    }
}

#[test]
fn fingerprint_on_bare_header_round_trips() {
    let mut message = new_builder();
    Fingerprint.encode(&mut message).unwrap();
    let bytes = message.finish();
    assert_eq!(bytes.len(), 28);
    // The declared length counts the fingerprint attribute itself.
    assert_eq!(bytes[2], 0);
    assert_eq!(bytes[3], 8);

    let msg = Message::parse(bytes).unwrap();
    let span = msg.attribute_span(0x8028).unwrap();
    Fingerprint::decode(&msg, span).unwrap();
}

#[test]
fn fingerprint_wrong_value_length_rejected() {
    let mut message = new_builder();
    // A bogus three-byte FINGERPRINT value.
    message.add_attr_raw(0x8028, &vec![0u8; 3]).unwrap();
    let bytes = message.finish();

    let msg = Message::parse(bytes).unwrap();
    let span = msg.attribute_span(0x8028).unwrap();
    let err = Fingerprint::decode(&msg, span).unwrap_err();
    assert!(matches!(err, Error::InvalidData(_)));
}

#[test]
fn combined_integrity_and_fingerprint_verify_independently() {
    let key = MessageIntegrityKey::new_short_term("abc123");
    let mut message = new_builder();
    Software::new("ezk-stun").encode(&mut message).unwrap();
    MessageIntegrity.encode(&key, &mut message).unwrap();
    Fingerprint.encode(&mut message).unwrap();
    let bytes = message.finish();

    let msg = Message::parse(bytes.clone()).unwrap();
    let mi_span = msg.attribute_span(0x0008).unwrap();
    let fp_span = msg.attribute_span(0x8028).unwrap();
    MessageIntegrity::decode(&key, &msg, mi_span).unwrap();
    Fingerprint::decode(&msg, fp_span).unwrap();

    // Corrupting the fingerprint value leaves integrity intact: the
    // fingerprint lies outside the integrity attribute's range.
    let mut corrupted = bytes.clone();
    corrupted[fp_span.value_begin] ^= 0xFF;
    let msg2 = Message::parse(corrupted).unwrap();
    MessageIntegrity::decode(&key, &msg2, mi_span).unwrap();
    assert!(Fingerprint::decode(&msg2, fp_span).is_err());

    // Corrupting the integrity digest fails integrity, and the
    // fingerprint too: its checksum covers the integrity attribute.
    let mut corrupted = bytes.clone();
    corrupted[mi_span.value_begin] ^= 0xFF;
    let msg3 = Message::parse(corrupted).unwrap();
    assert!(MessageIntegrity::decode(&key, &msg3, mi_span).is_err());
    assert!(Fingerprint::decode(&msg3, fp_span).is_err());
}

#[test]
fn parse_rejects_malformed_messages() {
    // Too short for a header.
    assert!(Message::parse(vec![0u8; 12]).is_err());

    // Declared length does not match the buffer.
    let mut message = new_builder();
    Software::new("ezk-stun").encode(&mut message).unwrap();
    let mut bytes = message.finish();
    bytes[3] ^= 0x04;
    assert!(Message::parse(bytes).is_err());

    // Magic cookie broken.
    let mut bytes = new_builder().finish();
    bytes[4] = 0;
    assert!(Message::parse(bytes).is_err());

    // An attribute whose declared value runs past the buffer.
    let mut bytes = new_builder().finish();
    bytes[3] = 4;
    bytes.extend_from_slice(&[0x80, 0x22, 0x00, 0xFF]);
    assert!(Message::parse(bytes).is_err());
}

#[test]
fn attribute_span_reports_missing_attribute() {
    let message = new_builder();
    let msg = Message::parse(message.finish()).unwrap();
    assert!(msg.attribute_span(0x8028).is_none());
}

#[test]
fn software_too_long_is_rejected() {
    let text = "a".repeat(70000);
    let sw = Software::new(&text);
    assert_eq!(sw.encode_len().unwrap_err(), Error::Overflow);
    let mut message = new_builder();
    assert_eq!(sw.encode(&mut message).unwrap_err(), Error::Overflow);
}

#[test]
fn fingerprint_encode_len_is_four() {
    assert_eq!(Fingerprint.encode_len().unwrap(), 4);
}
