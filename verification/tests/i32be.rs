use byteorder::{BigEndian, WriteBytesExt};
use pq::i32be::{consume_single_i32be, read_i32_from};
use pq::reader::ByteReader;

fn reads_back(x: i32) {
    let mut buf = vec![];
    buf.write_i32::<BigEndian>(x).unwrap();
    assert_eq!(Some(x), read_i32_from(&mut ByteReader::from_vec(buf)));
}

#[test]
fn i32be_test_simple() {
    reads_back(1);
}

#[test]
fn test_delimiter_longer() {
    reads_back(300);
}

#[test]
fn i32be_negative_and_short() {
    reads_back(-1);
    reads_back(i32::MIN);
    assert_eq!(read_i32_from(&mut ByteReader::new(&[0, 0, 1])), None);
}

#[test]
fn consume_single_i32be_messages() {
    let mut r = ByteReader::new(&[0, 0, 0, 2, 5, 6, 0, 0, 0, 9, 1]);
    assert_eq!(consume_single_i32be(&mut r), Some(vec![5, 6]));
    // the second message is cut short
    assert_eq!(consume_single_i32be(&mut r), None);
    assert_eq!(r.remaining(), 0);
}
