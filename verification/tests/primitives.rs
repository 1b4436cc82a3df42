use aiff::chunks::ChunkError;
use aiff::reader::{
    read_chunk_id, read_i16_be, read_i32_be, read_i8_be, read_pstring, read_u16_be, read_u32_be,
    read_u8, skip_pstring,
};
use aiff::source::{ByteSource, IoError};

#[test]
fn source_starts_at_zero() {
    let s = ByteSource::new(vec![1, 2, 3]);
    assert_eq!(s.position(), 0);
    assert_eq!(s.len(), 3);
    assert_eq!(s.available(), 3);
    assert_eq!(s.rest(), &[1, 2, 3]);
}

#[test]
fn source_peek_does_not_move() {
    let s = ByteSource::new(vec![10, 20, 30]);
    assert_eq!(s.peek(0), 10);
    assert_eq!(s.peek(2), 30);
    assert_eq!(s.position(), 0);
}

#[test]
fn source_copy_ahead_does_not_move() {
    let mut s = ByteSource::new(vec![1, 2, 3, 4, 5]);
    s.advance(1);
    assert_eq!(s.copy_ahead(1, 2), vec![3, 4]);
    assert_eq!(s.copy_ahead(0, 4), vec![2, 3, 4, 5]);
    assert_eq!(s.copy_ahead(4, 0), Vec::<u8>::new());
    assert_eq!(s.position(), 1);
}

#[test]
fn source_read_exact_copies_and_moves() {
    let mut s = ByteSource::new(vec![1, 2, 3, 4, 5]);
    s.advance(1);
    assert_eq!(s.read_exact(3), Ok(vec![2, 3, 4]));
    assert_eq!(s.position(), 4);
    assert_eq!(s.rest(), &[5]);
}

#[test]
fn source_read_exact_fails_without_moving() {
    let mut s = ByteSource::new(vec![1, 2, 3]);
    s.advance(2);
    assert_eq!(s.read_exact(2), Err(IoError::UnexpectedEof));
    assert_eq!(s.position(), 2);
    assert_eq!(s.read_exact(0), Ok(vec![]));
}

#[test]
fn source_skip_to_the_end_and_not_further() {
    let mut s = ByteSource::new(vec![1, 2, 3]);
    assert_eq!(s.skip(3), Ok(()));
    assert_eq!(s.position(), 3);
    assert_eq!(s.skip(1), Err(IoError::UnexpectedEof));
    assert_eq!(s.position(), 3);
}

#[test]
fn source_seek_current_both_ways() {
    let mut s = ByteSource::new(vec![0; 10]);
    assert_eq!(s.seek_current(7), Ok(7));
    assert_eq!(s.seek_current(-5), Ok(2));
    assert_eq!(s.seek_current(8), Ok(10));
    assert_eq!(s.seek_current(0), Ok(10));
}

#[test]
fn source_seek_current_out_of_range() {
    let mut s = ByteSource::new(vec![0; 10]);
    s.advance(4);
    assert_eq!(s.seek_current(7), Err(IoError::SeekOutOfRange));
    assert_eq!(s.seek_current(-5), Err(IoError::SeekOutOfRange));
    assert_eq!(s.seek_current(i64::MIN), Err(IoError::SeekOutOfRange));
    assert_eq!(s.seek_current(i64::MAX), Err(IoError::SeekOutOfRange));
    assert_eq!(s.position(), 4);
}

#[test]
fn source_seek_start_and_rewind() {
    let mut s = ByteSource::new(vec![0; 10]);
    assert_eq!(s.seek_start(10), Ok(10));
    assert_eq!(s.seek_start(11), Err(IoError::SeekOutOfRange));
    assert_eq!(s.position(), 10);
    s.rewind();
    assert_eq!(s.position(), 0);
}

#[test]
fn reads_chunk_id() {
    let mut s = ByteSource::new(b"FORMx".to_vec());
    assert_eq!(read_chunk_id(&mut s), Ok(*b"FORM"));
    assert_eq!(s.position(), 4);
    assert_eq!(read_chunk_id(&mut s), Err(IoError::UnexpectedEof));
    assert_eq!(s.position(), 4);
}

#[test]
fn reads_u8() {
    let mut s = ByteSource::new(vec![0xfe]);
    assert_eq!(read_u8(&mut s), Ok(0xfe));
    assert_eq!(read_u8(&mut s), Err(IoError::UnexpectedEof));
}

#[test]
fn reads_i8() {
    let mut s = ByteSource::new(vec![0x7f, 0x80, 0xff, 0x00]);
    assert_eq!(read_i8_be(&mut s), Ok(127));
    assert_eq!(read_i8_be(&mut s), Ok(-128));
    assert_eq!(read_i8_be(&mut s), Ok(-1));
    assert_eq!(read_i8_be(&mut s), Ok(0));
    assert_eq!(read_i8_be(&mut s), Err(IoError::UnexpectedEof));
}

#[test]
fn reads_u16_big_endian() {
    let mut s = ByteSource::new(vec![0x12, 0x34, 0xff, 0xff, 0x01]);
    assert_eq!(read_u16_be(&mut s), Ok(0x1234));
    assert_eq!(read_u16_be(&mut s), Ok(0xffff));
    assert_eq!(read_u16_be(&mut s), Err(IoError::UnexpectedEof));
    assert_eq!(s.position(), 4);
}

#[test]
fn reads_i16_big_endian() {
    let mut s = ByteSource::new(vec![0x7f, 0xff, 0x80, 0x00, 0xff, 0xfe]);
    assert_eq!(read_i16_be(&mut s), Ok(i16::MAX));
    assert_eq!(read_i16_be(&mut s), Ok(i16::MIN));
    assert_eq!(read_i16_be(&mut s), Ok(-2));
}

#[test]
fn reads_u32_big_endian() {
    let mut s = ByteSource::new(vec![0x12, 0x34, 0x56, 0x78, 0xff, 0xff, 0xff, 0xff, 0, 0, 0]);
    assert_eq!(read_u32_be(&mut s), Ok(0x1234_5678));
    assert_eq!(read_u32_be(&mut s), Ok(u32::MAX));
    assert_eq!(read_u32_be(&mut s), Err(IoError::UnexpectedEof));
    assert_eq!(s.position(), 8);
}

#[test]
fn reads_i32_big_endian() {
    let mut s = ByteSource::new(vec![
        0x7f, 0xff, 0xff, 0xff, 0x80, 0, 0, 0, 0xff, 0xff, 0xff, 0xe9, 0, 0, 0, 24,
    ]);
    assert_eq!(read_i32_be(&mut s), Ok(i32::MAX));
    assert_eq!(read_i32_be(&mut s), Ok(i32::MIN));
    assert_eq!(read_i32_be(&mut s), Ok(-23));
    assert_eq!(read_i32_be(&mut s), Ok(24));
}

#[test]
fn pstring_of_even_length_has_no_pad() {
    let mut s = ByteSource::new(vec![4, b'k', b'i', b'c', b'k', 9]);
    assert_eq!(read_pstring(&mut s), Ok("kick".to_string()));
    assert_eq!(s.position(), 5);
}

#[test]
fn pstring_of_odd_length_has_a_pad() {
    let mut s = ByteSource::new(vec![3, b'h', b'a', b't', 0, 9]);
    assert_eq!(read_pstring(&mut s), Ok("hat".to_string()));
    assert_eq!(s.position(), 5);
}

#[test]
fn pstring_empty() {
    let mut s = ByteSource::new(vec![0, 9]);
    assert_eq!(read_pstring(&mut s), Ok(String::new()));
    assert_eq!(s.position(), 1);
}

#[test]
fn pstring_without_its_pad_is_short() {
    let mut s = ByteSource::new(vec![3, b'h', b'a', b't']);
    assert_eq!(read_pstring(&mut s), Err(ChunkError::Io(IoError::UnexpectedEof)));
    assert_eq!(s.position(), 0);
    let mut empty = ByteSource::new(vec![]);
    assert_eq!(read_pstring(&mut empty), Err(ChunkError::Io(IoError::UnexpectedEof)));
}

#[test]
fn pstring_must_be_utf8() {
    let mut s = ByteSource::new(vec![2, 0xc3, 0x28, 7]);
    assert_eq!(read_pstring(&mut s), Err(ChunkError::InvalidData("Pascal string")));
    assert_eq!(s.position(), 0);
}

#[test]
fn pstring_decodes_utf8() {
    let mut s = ByteSource::new(vec![2, 0xc3, 0xa9]);
    assert_eq!(read_pstring(&mut s), Ok("é".to_string()));
}

#[test]
fn skip_pstring_moves_like_read_pstring() {
    let bytes = vec![3, b'h', b'a', b't', 0, 2, 0xff, 0xff, 1];
    let mut a = ByteSource::new(bytes.clone());
    let mut b = ByteSource::new(bytes);
    assert_eq!(skip_pstring(&mut a), Ok(()));
    assert!(read_pstring(&mut b).is_ok());
    assert_eq!(a.position(), b.position());
    // skipping does not look at the text
    assert_eq!(skip_pstring(&mut a), Ok(()));
    assert_eq!(a.position(), 8);
    assert_eq!(skip_pstring(&mut a), Err(IoError::UnexpectedEof));
    assert_eq!(a.position(), 8);
}
