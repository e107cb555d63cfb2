use pq::legacy::error::StreamDelimitError;
use pq::legacy::leb128::{consume_single_leb128, decode_leb128, encode_leb128};
use pq::reader::ByteReader;

#[test]
fn leb128_test_simple() {
    let buf: &[u8] = &[0x01];
    assert_eq!(1, decode_leb128(&mut ByteReader::new(buf)).unwrap());
}

#[test]
fn test_leb128_delimiter_longer() {
    let buf: &[u8] = &[0xACu8, 0x02u8];
    assert_eq!(300, decode_leb128(&mut ByteReader::new(buf)).unwrap());
}

#[test]
fn test_encode_simple() {
    assert_eq!(vec![0x01], encode_leb128(1))
}

#[test]
fn test_encode_longer() {
    assert_eq!(vec![0xACu8, 0x02u8], encode_leb128(300))
}

#[test]
fn leb128_errors() {
    match decode_leb128(&mut ByteReader::new(&[0x81])) {
        Err(StreamDelimitError::VarintDecodeError(_)) => (),
        other => panic!("unexpected {:?}", other),
    }
    match decode_leb128(&mut ByteReader::new(&[0xff; 10])) {
        Err(StreamDelimitError::VarintDecodeMaxAttemptsExceededError) => (),
        other => panic!("unexpected {:?}", other),
    }
}

#[test]
fn consume_single_leb128_messages() {
    let mut r = ByteReader::new(&[0x03, b'a', b'b', b'c', 0x00, 0x02, b'x']);
    assert_eq!(consume_single_leb128(&mut r), Some(b"abc".to_vec()));
    // an empty message is read as such
    assert_eq!(consume_single_leb128(&mut r), Some(vec![]));
    // a message cut short gives nothing
    assert_eq!(consume_single_leb128(&mut r), None);
    assert_eq!(r.remaining(), 0);
    assert_eq!(consume_single_leb128(&mut r), None);
}
