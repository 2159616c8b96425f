use pumpkin_protocol::DecodeError;
use pumpkin_protocol::EncodeError;
use pumpkin_protocol::buffer::ReadBuffer;
use pumpkin_protocol::buffer::WriteBuffer;
use pumpkin_protocol::codec::Codec;
use pumpkin_protocol::identifier::Identifier;

#[test]
fn identifier_vanilla_uses_default_namespace() {
    let id = Identifier::vanilla("stone");
    assert_eq!(id.namespace, "minecraft");
    assert_eq!(id.path, "stone");
}

#[test]
fn identifier_canonical_text_round_trip() {
    let id = Identifier::vanilla("stone");
    let text = id.to_text();
    assert_eq!(text, "minecraft:stone");
    let back = Identifier::from_text(&text).unwrap();
    assert_eq!(back, id);
}

#[test]
fn identifier_text_without_delimiter_is_malformed() {
    assert_eq!(
        Identifier::from_text("nodelimiter").unwrap_err(),
        DecodeError::Malformed
    );
}

#[test]
fn identifier_text_with_empty_parts_is_malformed() {
    assert_eq!(Identifier::from_text(":stone").unwrap_err(), DecodeError::Malformed);
    assert_eq!(Identifier::from_text("minecraft:").unwrap_err(), DecodeError::Malformed);
    assert_eq!(Identifier::from_text(":").unwrap_err(), DecodeError::Malformed);
}

#[test]
fn identifier_text_splits_at_first_delimiter() {
    let id = Identifier::from_text("a:b:c").unwrap();
    assert_eq!(id.namespace, "a");
    assert_eq!(id.path, "b:c");
}

#[test]
fn identifier_wire_round_trip() {
    let id = Identifier::vanilla("stone");
    let mut out = WriteBuffer::new();
    id.encode(&mut out);
    let n = id.written_size();
    let bytes = out.take_bytes();
    assert_eq!(n, bytes.len());
    // "minecraft:stone" is 15 bytes, so: 1 length byte, then the text.
    assert_eq!(bytes[0], 15);
    assert_eq!(&bytes[1..], "minecraft:stone".as_bytes());
    let mut buf = ReadBuffer::new(bytes);
    let back = Identifier::decode(&mut buf).unwrap();
    assert_eq!(back, id);
    assert_eq!(buf.remaining_len(), 0);
}

#[test]
fn identifier_wire_without_delimiter_is_malformed_not_incomplete() {
    let mut payload = vec![11u8];
    payload.extend_from_slice("nodelimiter".as_bytes());
    let mut buf = ReadBuffer::new(payload);
    assert_eq!(Identifier::decode(&mut buf).unwrap_err(), DecodeError::Malformed);
    assert_eq!(buf.cursor(), 0);
}

#[test]
fn identifier_wire_truncated_is_incomplete_and_retryable() {
    let mut buf = ReadBuffer::new(vec![5, b'a', b':']);
    assert_eq!(Identifier::decode(&mut buf).unwrap_err(), DecodeError::Incomplete);
    assert_eq!(buf.cursor(), 0);
    buf.feed(&[b'b', b'c', b'd']);
    let id = Identifier::decode(&mut buf).unwrap();
    assert_eq!(id.namespace, "a");
    assert_eq!(id.path, "bcd");
}

#[test]
fn identifier_wire_invalid_utf8_is_malformed() {
    let mut buf = ReadBuffer::new(vec![3, b'a', 0xFF, 0xFE]);
    assert_eq!(Identifier::decode(&mut buf).unwrap_err(), DecodeError::Malformed);
    assert_eq!(buf.cursor(), 0);
}

#[test]
fn identifier_wire_multibyte_text_decodes_to_characters() {
    // "a:é" as UTF-8: the accented character takes two bytes but is one
    // character after decoding.
    let mut buf = ReadBuffer::new(vec![4, b'a', b':', 0xC3, 0xA9]);
    let id = Identifier::decode(&mut buf).unwrap();
    assert_eq!(id.namespace, "a");
    assert_eq!(id.path, "\u{e9}");
    assert_eq!(id.path.chars().count(), 1);
}

#[test]
fn identifier_wire_oversized_length_is_malformed() {
    // Declared length 32768 exceeds the identifier bound of 32767.
    let mut buf = ReadBuffer::new(vec![0x80, 0x80, 0x02, b'a']);
    assert_eq!(Identifier::decode(&mut buf).unwrap_err(), DecodeError::Malformed);
    assert_eq!(buf.cursor(), 0);
}

#[test]
fn identifier_max_size_is_string_bound() {
    assert_eq!(Identifier::max_size(), 32767);
}

#[test]
fn bounded_text_write_refuses_oversized_text() {
    let mut out = WriteBuffer::new();
    let long = "x".repeat(10);
    assert_eq!(out.put_string_len(&long, 5).unwrap_err(), EncodeError::TooLong);
    assert_eq!(out.len(), 0);
    assert!(out.put_string_len(&long, 10).is_ok());
    assert_eq!(out.len(), 11);
}

#[test]
fn identifier_written_size_with_two_byte_length_prefix() {
    // 9 namespace bytes, the delimiter and 120 path bytes: 130 bytes of
    // text, whose length prefix itself takes 2 bytes.
    let id = Identifier::vanilla(&"a".repeat(120));
    assert_eq!(id.written_size(), 2 + 130);
    let mut out = WriteBuffer::new();
    id.encode(&mut out);
    assert_eq!(out.take_bytes().len(), 132);
}
