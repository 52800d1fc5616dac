use ezjww::{JwwError, Reader};

#[test]
fn read_numeric_values() {
    let data = [
        0x01, // u8
        0x02, 0x00, // u16
        0x58, 0x02, 0x00, 0x00, // u32 (600)
        0x00, 0x00, 0x00, 0x00, 0x00, 0x00, 0xf0, 0x3f, // binary64 (1.0)
    ];
    let mut reader = Reader::new(&data);
    assert_eq!(reader.read_u8().unwrap(), 1);
    assert_eq!(reader.read_u16().unwrap(), 2);
    assert_eq!(reader.read_u32().unwrap(), 600);
    assert_eq!(f64::from_bits(reader.read_f64().unwrap().to_bits()), 1.0);
}

#[test]
fn read_cstring_short() {
    let data = [4, b't', b'e', b's', b't'];
    let mut reader = Reader::new(&data);
    assert_eq!(reader.read_cstring().unwrap(), "test");
}

#[test]
fn read_cstring_empty() {
    let data = [0];
    let mut reader = Reader::new(&data);
    assert_eq!(reader.read_cstring().unwrap(), "");
}

#[test]
fn read_values_are_little_endian() {
    let data = [0x34, 0x12, 0x78, 0x56, 0x34, 0x12, 0x18, 0x2d, 0x44, 0x54, 0xfb, 0x21, 0x09, 0x40];
    let mut reader = Reader::new(&data);
    assert_eq!(reader.read_u16().unwrap(), 0x1234);
    assert_eq!(reader.read_u32().unwrap(), 0x1234_5678);
    assert_eq!(reader.read_f64().unwrap().to_bits(), 0x4009_21fb_5444_2d18);
    assert_eq!(reader.bytes_read(), 14);
}

#[test]
fn read_past_end_reports_bytes_and_stays() {
    let data = [1, 2, 3];
    let mut reader = Reader::new(&data);
    assert!(matches!(reader.read_u32(), Err(JwwError::UnexpectedEof("bytes"))));
    assert_eq!(reader.bytes_read(), 0);
    assert_eq!(reader.read_u16().unwrap(), 0x0201);
    assert!(matches!(reader.read_u16(), Err(JwwError::UnexpectedEof("bytes"))));
    assert_eq!(reader.bytes_read(), 2);
    assert!(matches!(reader.read_f64(), Err(JwwError::UnexpectedEof("bytes"))));
    assert_eq!(reader.read_u8().unwrap(), 3);
    assert!(matches!(reader.read_u8(), Err(JwwError::UnexpectedEof("bytes"))));
}

#[test]
fn skip_and_read_bytes_check_bounds() {
    let data = [9, 8, 7, 6, 5];
    let mut reader = Reader::new(&data);
    reader.skip(2).unwrap();
    assert_eq!(reader.bytes_read(), 2);
    assert_eq!(reader.read_bytes(2).unwrap(), vec![7, 6]);
    assert!(matches!(reader.read_bytes(2), Err(JwwError::UnexpectedEof("bytes"))));
    assert!(matches!(reader.skip(2), Err(JwwError::UnexpectedEof("bytes"))));
    assert!(matches!(reader.skip(usize::MAX), Err(JwwError::UnexpectedEof("offset"))));
    assert!(matches!(reader.read_bytes(usize::MAX), Err(JwwError::UnexpectedEof("offset"))));
    assert_eq!(reader.bytes_read(), 4);
    reader.skip(1).unwrap();
    reader.skip(0).unwrap();
    assert_eq!(reader.read_bytes(0).unwrap(), Vec::<u8>::new());
}

#[test]
fn read_cstring_decodes_shift_jis() {
    // "日本" in Shift-JIS.
    let data = [4, 0x93, 0xfa, 0x96, 0x7b];
    let mut reader = Reader::new(&data);
    assert_eq!(reader.read_cstring().unwrap(), "\u{65E5}\u{672C}");
    assert_eq!(reader.bytes_read(), 5);
}

#[test]
fn read_cstring_strips_trailing_nuls_only() {
    let data = [6, b'a', 0, b'b', 0, 0, 0];
    let mut reader = Reader::new(&data);
    assert_eq!(reader.read_cstring().unwrap(), "a\0b");
    let only_nuls = [2, 0, 0];
    let mut reader = Reader::new(&only_nuls);
    assert_eq!(reader.read_cstring().unwrap(), "");
}

#[test]
fn read_cstring_replaces_malformed_bytes() {
    let data = [3, b'a', 0xff, b'b'];
    let mut reader = Reader::new(&data);
    assert_eq!(reader.read_cstring().unwrap(), "a\u{FFFD}b");
}

#[test]
fn read_cstring_word_length_prefix() {
    let mut data = vec![0xff, 0x00, 0x01];
    data.extend(std::iter::repeat(b'x').take(256));
    data.push(b'!');
    let mut reader = Reader::new(&data);
    let text = reader.read_cstring().unwrap();
    assert_eq!(text.len(), 256);
    assert!(text.bytes().all(|c| c == b'x'));
    assert_eq!(reader.bytes_read(), 259);
}

#[test]
fn read_cstring_long_length_prefix() {
    let mut data = vec![0xff, 0xff, 0xff, 0x03, 0x00, 0x00, 0x00];
    data.extend_from_slice(b"abc");
    let mut reader = Reader::new(&data);
    assert_eq!(reader.read_cstring().unwrap(), "abc");
    assert_eq!(reader.bytes_read(), 10);
}

#[test]
fn read_cstring_short_path_for_254() {
    let mut data = vec![0xfe];
    data.extend(std::iter::repeat(b'y').take(254));
    let mut reader = Reader::new(&data);
    assert_eq!(reader.read_cstring().unwrap().len(), 254);
    assert_eq!(reader.bytes_read(), 255);
}

#[test]
fn read_cstring_fails_where_payload_is_short() {
    let data = [5, b'a', b'b'];
    let mut reader = Reader::new(&data);
    assert!(matches!(reader.read_cstring(), Err(JwwError::UnexpectedEof("bytes"))));
    assert_eq!(reader.bytes_read(), 1);
    let prefix_only = [0xff, 0x01];
    let mut reader = Reader::new(&prefix_only);
    assert!(matches!(reader.read_cstring(), Err(JwwError::UnexpectedEof("bytes"))));
    assert_eq!(reader.bytes_read(), 1);
    let nothing: [u8; 0] = [];
    let mut reader = Reader::new(&nothing);
    assert!(matches!(reader.read_cstring(), Err(JwwError::UnexpectedEof("bytes"))));
}

#[test]
fn error_messages() {
    assert_eq!(
        JwwError::InvalidSignature.message(),
        "invalid JWW signature: expected \"JwwData.\""
    );
    assert_eq!(
        JwwError::UnexpectedEof("bytes").message(),
        "unexpected EOF while reading bytes"
    );
    assert_eq!(JwwError::EntityListNotFound.message(), "could not find entity list in file");
    assert_eq!(JwwError::UnknownClassPid(4711).message(), "unknown class PID: 4711");
    assert_eq!(JwwError::UnknownClassPid(0).message(), "unknown class PID: 0");
    assert_eq!(
        JwwError::UnknownEntityClass("CDataX".to_string()).message(),
        "unknown entity class: CDataX"
    );
    let io = std::io::Error::new(std::io::ErrorKind::NotFound, "gone");
    let message = JwwError::from(io).message();
    assert!(message.starts_with("I/O error: "));
    assert!(message.contains("gone"));
}
