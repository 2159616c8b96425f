use pumpkin_protocol::DecodeError;
use pumpkin_protocol::buffer::ReadBuffer;
use pumpkin_protocol::buffer::WriteBuffer;

#[test]
fn fixed_width_reads_consume_exactly_their_bytes() {
    let mut buf = ReadBuffer::new(vec![0x05, 0x00, 0x12, 0x34, 0x56, 0x78]);
    assert_eq!(buf.try_get_u8().unwrap(), 0x05);
    assert_eq!(buf.try_get_bool().unwrap(), false);
    assert_eq!(buf.try_get_u32_be().unwrap(), 0x12345678);
    assert_eq!(buf.remaining_len(), 0);
    assert_eq!(buf.try_get_u8().unwrap_err(), DecodeError::Incomplete);
}

#[test]
fn any_nonzero_byte_reads_as_true() {
    let mut buf = ReadBuffer::new(vec![0x00, 0x01, 0x7F]);
    assert_eq!(buf.try_get_bool().unwrap(), false);
    assert_eq!(buf.try_get_bool().unwrap(), true);
    assert_eq!(buf.try_get_bool().unwrap(), true);
}

#[test]
fn short_fixed_width_read_leaves_cursor() {
    let mut buf = ReadBuffer::new(vec![0xAA, 0xBB]);
    assert_eq!(buf.try_get_u32_be().unwrap_err(), DecodeError::Incomplete);
    assert_eq!(buf.cursor(), 0);
    buf.feed(&[0xCC, 0xDD]);
    assert_eq!(buf.try_get_u32_be().unwrap(), 0xAABBCCDD);
}

#[test]
fn bounded_text_read_round_trips_what_the_writer_wrote() {
    let mut out = WriteBuffer::new();
    out.put_u8(0xFF);
    out.put_string_len("hello", 100).unwrap();
    let bytes = out.take_bytes();
    assert_eq!(bytes, vec![0xFF, 5, b'h', b'e', b'l', b'l', b'o']);
    let mut buf = ReadBuffer::new(bytes);
    assert_eq!(buf.try_get_u8().unwrap(), 0xFF);
    assert_eq!(buf.try_get_string_len(100).unwrap(), "hello");
}

#[test]
fn bounded_text_read_rejects_oversized_declared_length() {
    // Declared length 6 exceeds the caller's bound of 5; the content
    // bytes are not even looked at.
    let mut buf = ReadBuffer::new(vec![6, b'a', b'b', b'c', b'd', b'e', b'f']);
    assert_eq!(buf.try_get_string_len(5).unwrap_err(), DecodeError::Malformed);
    assert_eq!(buf.cursor(), 0);
}

#[test]
fn bounded_text_read_is_retryable_when_short() {
    let mut buf = ReadBuffer::new(vec![3, b'a']);
    assert_eq!(buf.try_get_string_len(10).unwrap_err(), DecodeError::Incomplete);
    assert_eq!(buf.cursor(), 0);
    buf.feed(&[b'b', b'c']);
    assert_eq!(buf.try_get_string_len(10).unwrap(), "abc");
    assert_eq!(buf.remaining_len(), 0);
}

#[test]
fn bounded_text_read_rejects_invalid_utf8() {
    let mut buf = ReadBuffer::new(vec![2, 0xC3, 0x28]);
    assert_eq!(buf.try_get_string_len(10).unwrap_err(), DecodeError::Malformed);
    assert_eq!(buf.cursor(), 0);
}

#[test]
fn empty_text_round_trips() {
    let mut out = WriteBuffer::new();
    out.put_string_len("", 10).unwrap();
    let bytes = out.take_bytes();
    assert_eq!(bytes, vec![0]);
    let mut buf = ReadBuffer::new(bytes);
    assert_eq!(buf.try_get_string_len(10).unwrap(), "");
}
