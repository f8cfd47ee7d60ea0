use smpp_rust::protocol::DecodeError;
use smpp_rust::wire::{
    read_cstring, read_i32, read_octets, read_u8, write_cstring, write_i32, write_octets,
    write_u16, write_u32, write_u8,
};

#[test]
fn numbers_are_written_most_significant_byte_first() {
    let mut buf: Vec<u8> = vec![0xEE];
    write_u8(&mut buf, 7);
    write_u16(&mut buf, 0x0102);
    write_u32(&mut buf, 0x8000_0021);
    write_i32(&mut buf, -2);
    write_i32(&mut buf, 0x7FFF_FFFF);
    assert_eq!(
        buf,
        vec![0xEEu8, 7, 1, 2, 0x80, 0, 0, 0x21, 0xFF, 0xFF, 0xFF, 0xFE, 0x7F, 0xFF, 0xFF, 0xFF]
    );
}

#[test]
fn string_is_written_with_one_terminator() {
    let mut buf: Vec<u8> = Vec::new();
    write_cstring(&mut buf, "abc");
    write_cstring(&mut buf, "");
    write_cstring(&mut buf, "\u{e9}");
    write_octets(&mut buf, &[1, 0, 2]);
    assert_eq!(buf, vec![b'a', b'b', b'c', 0, 0, 0xC3, 0xA9, 0, 1, 0, 2]);
}

#[test]
fn fields_are_read_where_the_cursor_stands() {
    let buf: Vec<u8> = vec![9, b'h', b'i', 0, 0xFF, 0xFF, 0xFF, 0xFE, 1, 2, 3];
    let mut offset: usize = 0;
    assert_eq!(read_u8(&buf, &mut offset), Ok(9));
    assert_eq!(offset, 1);
    assert_eq!(read_cstring(&buf, &mut offset), Ok("hi".to_string()));
    assert_eq!(offset, 4);
    assert_eq!(read_i32(&buf, &mut offset), Ok(-2));
    assert_eq!(offset, 8);
    assert_eq!(read_octets(&buf, &mut offset, 2), Ok(vec![1, 2]));
    assert_eq!(offset, 10);
    assert_eq!(read_octets(&buf, &mut offset, 0), Ok(vec![]));
    assert_eq!(offset, 10);
    assert_eq!(read_octets(&buf, &mut offset, 2), Err(DecodeError::TruncatedBody));
    assert_eq!(read_i32(&buf, &mut offset), Err(DecodeError::TruncatedBody));
    assert_eq!(read_cstring(&buf, &mut offset), Err(DecodeError::UnterminatedString));
    assert_eq!(offset, 10);
    assert_eq!(read_u8(&buf, &mut offset), Ok(3));
    assert_eq!(read_u8(&buf, &mut offset), Err(DecodeError::TruncatedBody));
    assert_eq!(offset, 11);
}

#[test]
fn cursor_past_the_end_reads_nothing() {
    let buf: Vec<u8> = vec![1, 0];
    let mut offset: usize = 5;
    assert_eq!(read_u8(&buf, &mut offset), Err(DecodeError::TruncatedBody));
    assert_eq!(read_i32(&buf, &mut offset), Err(DecodeError::TruncatedBody));
    assert_eq!(read_cstring(&buf, &mut offset), Err(DecodeError::UnterminatedString));
    assert_eq!(read_octets(&buf, &mut offset, 1), Err(DecodeError::TruncatedBody));
    assert_eq!(read_octets(&buf, &mut offset, 0), Ok(vec![]));
    assert_eq!(offset, 5);
}

#[test]
fn string_bytes_must_be_utf8() {
    let mut offset: usize = 0;
    assert_eq!(read_cstring(&[0x80, 0], &mut offset), Err(DecodeError::InvalidEncoding));
    assert_eq!(offset, 0);
    assert_eq!(read_cstring(&[0xED, 0xA0, 0x80, 0], &mut offset), Err(DecodeError::InvalidEncoding));
    assert_eq!(read_cstring(&[0xF0, 0x9F, 0x98, 0x80, 0], &mut offset), Ok("\u{1F600}".to_string()));
    assert_eq!(offset, 5);
}
