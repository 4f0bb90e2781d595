use jvmmy::error::ClassFormatError;
use jvmmy::util::{text_eq, ByteReader};

#[test]
fn new_reader_starts_at_the_front() {
    let reader = ByteReader::new(vec![1, 2, 3]);
    assert_eq!(reader.index, 0);
    assert_eq!(reader.contents, vec![1, 2, 3]);
}

#[test]
fn read_u8_advances_by_one() {
    let mut reader = ByteReader::new(vec![0xab, 0xcd]);
    assert_eq!(reader.read_u8(), Ok(0xab));
    assert_eq!(reader.index, 1);
    assert_eq!(reader.read_u8(), Ok(0xcd));
    assert_eq!(reader.index, 2);
    assert_eq!(reader.read_u8(), Err(ClassFormatError::UnexpectedEof));
    assert_eq!(reader.index, 2);
}

#[test]
fn read_u16_is_big_endian() {
    let mut reader = ByteReader::new(vec![0x12, 0x34, 0x56]);
    assert_eq!(reader.read_u16(), Ok(0x1234));
    assert_eq!(reader.index, 2);
    assert_eq!(reader.read_u16(), Err(ClassFormatError::UnexpectedEof));
    assert_eq!(reader.index, 2);
    assert_eq!(reader.read_u8(), Ok(0x56));
}

#[test]
fn read_u32_is_big_endian() {
    let mut reader = ByteReader::new(vec![0xca, 0xfe, 0xba, 0xbe, 0xff, 0xff, 0xff]);
    assert_eq!(reader.read_u32(), Ok(0xcafebabe));
    assert_eq!(reader.index, 4);
    assert_eq!(reader.read_u32(), Err(ClassFormatError::UnexpectedEof));
    assert_eq!(reader.index, 4);
}

#[test]
fn read_u32_of_all_ones() {
    let mut reader = ByteReader::new(vec![0xff, 0xff, 0xff, 0xff]);
    assert_eq!(reader.read_u32(), Ok(u32::MAX));
}

#[test]
fn read_vec_u8_takes_the_bytes_asked_for() {
    let mut reader = ByteReader::new(vec![1, 2, 3, 4, 5]);
    assert_eq!(reader.read_u8(), Ok(1));
    assert_eq!(reader.read_vec_u8(3), Ok(vec![2, 3, 4]));
    assert_eq!(reader.index, 4);
    assert_eq!(reader.read_vec_u8(2), Err(ClassFormatError::UnexpectedEof));
    assert_eq!(reader.index, 4);
    assert_eq!(reader.read_vec_u8(0), Ok(vec![]));
    assert_eq!(reader.read_vec_u8(1), Ok(vec![5]));
    assert_eq!(reader.read_vec_u8(0), Ok(vec![]));
}

#[test]
fn read_vec_u8_of_a_huge_length_is_eof() {
    let mut reader = ByteReader::new(vec![1, 2, 3]);
    assert_eq!(reader.read_vec_u8(usize::MAX), Err(ClassFormatError::UnexpectedEof));
    assert_eq!(reader.index, 0);
}

#[test]
fn read_str_decodes_utf8() {
    // "h", "é" (two bytes), "€" (three bytes), "!"
    let mut reader = ByteReader::new(vec![0x68, 0xc3, 0xa9, 0xe2, 0x82, 0xac, 0x21]);
    assert_eq!(reader.read_str(6), Ok("hé€".to_string()));
    assert_eq!(reader.index, 6);
    assert_eq!(reader.read_str(1), Ok("!".to_string()));
    assert_eq!(reader.read_str(0), Ok(String::new()));
}

#[test]
fn read_str_rejects_invalid_utf8() {
    let mut reader = ByteReader::new(vec![0x41, 0xff, 0x42]);
    assert_eq!(reader.read_str(3), Err(ClassFormatError::InvalidUtf8));
    assert_eq!(reader.index, 0);
    // the first byte alone is fine
    assert_eq!(reader.read_str(1), Ok("A".to_string()));
    // half of a two-byte character is not
    let mut reader = ByteReader::new(vec![0xc3, 0xa9]);
    assert_eq!(reader.read_str(1), Err(ClassFormatError::InvalidUtf8));
}

#[test]
fn read_str_past_the_end_is_eof() {
    let mut reader = ByteReader::new(vec![0x41, 0xff]);
    assert_eq!(reader.read_str(3), Err(ClassFormatError::UnexpectedEof));
    assert_eq!(reader.index, 0);
}

#[test]
fn reads_on_a_reader_past_its_end_are_eof() {
    let mut reader = ByteReader { index: 7, contents: vec![1, 2, 3] };
    assert_eq!(reader.read_u8(), Err(ClassFormatError::UnexpectedEof));
    assert_eq!(reader.read_u16(), Err(ClassFormatError::UnexpectedEof));
    assert_eq!(reader.read_u32(), Err(ClassFormatError::UnexpectedEof));
    assert_eq!(reader.read_vec_u8(0), Err(ClassFormatError::UnexpectedEof));
    assert_eq!(reader.read_str(0), Err(ClassFormatError::UnexpectedEof));
    assert_eq!(reader.index, 7);
}

#[test]
fn text_eq_compares_characters() {
    assert!(text_eq("Code", "Code"));
    assert!(text_eq("", ""));
    assert!(!text_eq("Code", "code"));
    assert!(!text_eq("Code", "Cod"));
    assert!(!text_eq("Cod", "Code"));
    assert!(text_eq("hé€", "hé€"));
    assert!(!text_eq("hé", "he"));
}
