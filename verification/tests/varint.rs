use pq::reader::ByteReader;
use pq::varint::{decode_varint, encode_varint};
use pq::error::{ReadError, StreamDelimitError};

#[test]
fn varint_test_simple() {
    assert_eq!(
        1,
        decode_varint(&mut ByteReader::new(&encode_varint(1))).unwrap()
    );
}

#[test]
fn test_two_byte_varint() {
    assert_eq!(
        300,
        decode_varint(&mut ByteReader::new(&encode_varint(300))).unwrap()
    );
}

#[test]
fn test_decode_known_varint_bytes() {
    let cases: &[(u64, &[u8])] = &[
        (0, &[0x00]),
        (1, &[0x01]),
        (127, &[0x7f]),
        (128, &[0x80, 0x01]),
        (300, &[0xac, 0x02]),
        (16384, &[0x80, 0x80, 0x01]),
        (2097152, &[0x80, 0x80, 0x80, 0x01]),
        (u32::MAX as u64, &[0xff, 0xff, 0xff, 0xff, 0x0f]),
        (
            u64::MAX,
            &[0xff, 0xff, 0xff, 0xff, 0xff, 0xff, 0xff, 0xff, 0xff, 0x01],
        ),
    ];

    for &(expected, bytes) in cases {
        assert_eq!(expected, decode_varint(&mut ByteReader::new(bytes)).unwrap());
    }
}

#[test]
fn test_three_byte_varint() {
    // 16384 requires 3 bytes: 0x80 0x80 0x01
    assert_eq!(
        16384,
        decode_varint(&mut ByteReader::new(&encode_varint(16384))).unwrap()
    );
    assert_eq!(
        100000,
        decode_varint(&mut ByteReader::new(&encode_varint(100000))).unwrap()
    );
}

#[test]
fn test_four_byte_varint() {
    // 2097152 requires 4 bytes
    assert_eq!(
        2097152,
        decode_varint(&mut ByteReader::new(&encode_varint(2097152))).unwrap()
    );
    assert_eq!(
        10000000,
        decode_varint(&mut ByteReader::new(&encode_varint(10000000))).unwrap()
    );
}

#[test]
fn test_large_varints() {
    assert_eq!(
        u32::MAX as u64,
        decode_varint(&mut ByteReader::new(&encode_varint(u32::MAX as u64))).unwrap()
    );
    assert_eq!(
        u64::MAX,
        decode_varint(&mut ByteReader::new(&encode_varint(u64::MAX))).unwrap()
    );
}

#[test]
fn encode_known_values() {
    assert_eq!(encode_varint(0), vec![0x00]);
    assert_eq!(encode_varint(127), vec![0x7f]);
    assert_eq!(encode_varint(128), vec![0x80, 0x01]);
    assert_eq!(encode_varint(300), vec![0xac, 0x02]);
    assert_eq!(
        encode_varint(u64::MAX),
        vec![0xff, 0xff, 0xff, 0xff, 0xff, 0xff, 0xff, 0xff, 0xff, 0x01]
    );
}

#[test]
fn decode_consumes_only_the_varint() {
    let mut r = ByteReader::new(&[0xac, 0x02, 0x07, 0x08]);
    assert_eq!(300, decode_varint(&mut r).unwrap());
    assert_eq!(r.remaining(), 2);
    assert_eq!(r.read_byte(), Some(0x07));
}

#[test]
fn decode_roundtrip_followed_by_more() {
    for v in [0u64, 1, 127, 128, 255, 300, 16383, 16384, 1 << 35, u64::MAX - 1, u64::MAX] {
        let mut bytes = encode_varint(v);
        let n = bytes.len();
        assert!(n >= 1 && n <= 10);
        bytes.extend_from_slice(&[0xff, 0x00]);
        let mut r = ByteReader::from_vec(bytes);
        assert_eq!(v, decode_varint(&mut r).unwrap());
        assert_eq!(r.remaining(), 2);
    }
}

#[test]
fn decode_eof_error() {
    let mut r = ByteReader::new(&[0x80, 0x80]);
    match decode_varint(&mut r) {
        Err(StreamDelimitError::VarintDecodeError(ReadError::UnexpectedEof)) => (),
        other => panic!("unexpected {:?}", other),
    }
    assert_eq!(r.remaining(), 0);
    match decode_varint(&mut ByteReader::new(&[])) {
        Err(StreamDelimitError::VarintDecodeError(ReadError::UnexpectedEof)) => (),
        other => panic!("unexpected {:?}", other),
    }
}

#[test]
fn decode_too_many_bytes_error() {
    let mut r = ByteReader::new(&[0x80; 12]);
    match decode_varint(&mut r) {
        Err(StreamDelimitError::VarintDecodeMaxBytesError) => (),
        other => panic!("unexpected {:?}", other),
    }
    assert_eq!(r.remaining(), 2);
}

#[test]
fn decode_wraps_tenth_byte() {
    // the tenth byte contributes only its lowest bit
    let bytes = [0xff, 0xff, 0xff, 0xff, 0xff, 0xff, 0xff, 0xff, 0xff, 0x7f];
    assert_eq!(u64::MAX, decode_varint(&mut ByteReader::new(&bytes)).unwrap());
    // a non-minimal encoding is accepted
    assert_eq!(0, decode_varint(&mut ByteReader::new(&[0x80, 0x00])).unwrap());
}

#[test]
fn shortest_form_reencodes_to_itself() {
    let samples: Vec<Vec<u8>> = vec![
        vec![0x00],
        vec![0x7f],
        vec![0x80, 0x01],
        vec![0xac, 0x02],
        vec![0xff, 0xff, 0xff, 0xff, 0xff, 0xff, 0xff, 0xff, 0xff, 0x01],
    ];
    for b in samples {
        let v = decode_varint(&mut ByteReader::new(&b)).unwrap();
        assert_eq!(encode_varint(v), b);
    }
}
