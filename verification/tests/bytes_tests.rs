use bytebuffer::ByteBuffer;
use inferno_aoip::bytes::{
    align_wpos, make_u16, read_0term_str_from_buffer, write_0term_str_or_0_to_bytebuffer,
    try_write_0term_str_to_bytebuffer, write_0term_str_to_bytebuffer, write_cursor, write_str_to_buffer, ReadStrError, H, L,
};

#[test]
fn test_make_u16_basic() {
    assert_eq!(make_u16(0x12, 0x34), 0x1234u16);
    assert_eq!(make_u16(0x00, 0x00), 0u16);
    assert_eq!(make_u16(0xFF, 0xFF), 0xFFFFu16);
}

#[test]
fn test_make_u16_boundary_values() {
    assert_eq!(make_u16(0x80, 0x00), 0x8000u16);
    assert_eq!(make_u16(0x00, 0x80), 0x0080u16);
    assert_eq!(make_u16(0x01, 0x02), 0x0102u16);
}

#[test]
fn test_h_l_functions() {
    assert_eq!(H(0x1234), 0x12);
    assert_eq!(L(0x1234), 0x34);
    assert_eq!(H(0x0000), 0x00);
    assert_eq!(L(0x0000), 0x00);
    assert_eq!(H(0xFFFF), 0xFF);
    assert_eq!(L(0xFFFF), 0xFF);
}

#[test]
fn test_h_l_roundtrip() {
    for v in [0u16, 1, 127, 255, 256, 1000, 32768, 0xFFFF] {
        assert_eq!(make_u16(H(v), L(v)), v, "roundtrip failed for {v}");
    }
}

#[test]
fn test_write_str_to_buffer() {
    let mut buf = [0u8; 10];
    write_str_to_buffer(&mut buf, 0, 5, "hello");
    assert_eq!(&buf[0..5], b"hello");
    assert_eq!(&buf[5..], [0, 0, 0, 0, 0]);
}

#[test]
fn test_write_str_to_buffer_truncate() {
    let mut buf = [0u8; 10];
    write_str_to_buffer(&mut buf, 0, 3, "hello");
    assert_eq!(&buf[0..3], b"hel");
}

#[test]
fn test_write_str_to_buffer_with_offset() {
    let mut buf = [0xFF; 10];
    write_str_to_buffer(&mut buf, 2, 4, "test");
    assert_eq!(&buf[0..2], [0xFF, 0xFF]);
    assert_eq!(&buf[2..6], b"test");
    assert_eq!(&buf[6..], [0xFF, 0xFF, 0xFF, 0xFF]);
}

#[test]
fn test_read_0term_str_from_buffer() {
    let buf = b"hello\0world";
    let s = read_0term_str_from_buffer(buf, 0).unwrap();
    assert_eq!(s, "hello");
}

#[test]
fn test_read_0term_str_from_buffer_with_offset() {
    let buf = b"prefix\0hello\0world";
    let s = read_0term_str_from_buffer(buf, 7).unwrap();
    assert_eq!(s, "hello");
}

#[test]
fn test_read_0term_str_out_of_bounds() {
    let buf = b"hello";
    let result = read_0term_str_from_buffer(buf, 10);
    assert!(result.is_err());
}

#[test]
fn test_read_0term_str_no_null_terminator() {
    let buf = b"hello";
    let s = read_0term_str_from_buffer(buf, 0).unwrap();
    assert_eq!(s, "hello");
}

#[test]
fn test_align_wpos() {
    let mut buf = ByteBuffer::new();
    buf.write_u8(1); // pos = 1
    align_wpos(&mut buf, 4);
    assert_eq!(buf.get_wpos() % 4, 0);
    assert_eq!(buf.get_wpos(), 4);
}

#[test]
fn read_0term_str_reports_kinds_of_failure() {
    assert!(matches!(read_0term_str_from_buffer(b"abc", 4), Err(ReadStrError::UnexpectedEof)));
    assert!(matches!(read_0term_str_from_buffer(&[0xC3, 0x28, 0], 0), Err(ReadStrError::InvalidUtf8)));
    assert!(matches!(read_0term_str_from_buffer(b"abc", 3), Err(ReadStrError::UnexpectedEof)));
    assert_eq!(read_0term_str_from_buffer(b"abc\0", 3).unwrap(), "");
}

#[test]
fn write_str_to_buffer_leaves_the_rest() {
    let mut buf = [0xAAu8; 8];
    write_str_to_buffer(&mut buf, 1, 5, "ab");
    assert_eq!(buf, [0xAA, b'a', b'b', 0xAA, 0xAA, 0xAA, 0xAA, 0xAA]);
}

#[test]
fn write_0term_str_returns_offset_and_terminates() {
    let mut buf = ByteBuffer::new();
    buf.write_u8(9);
    let off = write_0term_str_to_bytebuffer(&mut buf, "hi");
    assert_eq!(off, 1);
    assert_eq!(buf.as_bytes(), &[9, b'h', b'i', 0]);
}

#[test]
fn write_0term_str_or_0_writes_nothing_for_none() {
    let mut buf = ByteBuffer::new();
    buf.write_u8(7);
    assert_eq!(write_0term_str_or_0_to_bytebuffer(&mut buf, None), 0);
    assert_eq!(buf.as_bytes(), &[7]);
    assert_eq!(write_0term_str_or_0_to_bytebuffer(&mut buf, Some("x")), 1);
    assert_eq!(buf.as_bytes(), &[7, b'x', 0]);
}

#[test]
fn align_wpos_keeps_aligned_positions() {
    let mut buf = ByteBuffer::new();
    buf.write_u8(1);
    buf.write_u8(2);
    align_wpos(&mut buf, 2);
    assert_eq!(buf.get_wpos(), 2);
    align_wpos(&mut buf, 8);
    assert_eq!(buf.get_wpos(), 8);
}

#[test]
fn checked_0term_write_refuses_offsets_past_16_bits() {
    let mut buf = ByteBuffer::new();
    buf.write_bytes(&[7u8; 3]);
    assert_eq!(try_write_0term_str_to_bytebuffer(&mut buf, "ab"), Some(3));
    assert_eq!(buf.as_bytes(), &[7, 7, 7, b'a', b'b', 0]);
    let mut big = ByteBuffer::new();
    big.write_bytes(&vec![0u8; 65536]);
    assert_eq!(try_write_0term_str_to_bytebuffer(&mut big, "x"), None);
    assert_eq!(big.len(), 65536);
    assert_eq!(big.get_wpos(), 65536);
}

#[test]
fn write_cursor_follows_the_writes() {
    let mut buf = ByteBuffer::new();
    assert_eq!(write_cursor(&buf), 0);
    write_0term_str_to_bytebuffer(&mut buf, "abc");
    assert_eq!(write_cursor(&buf), 4);
}
