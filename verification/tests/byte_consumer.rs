use pq::byte_consumer::ByteConsumer;
use pq::commands::{convert_frames, quota_reached, read_frames};
use pq::error::StreamDelimitError;
use pq::reader::ByteReader;
use pq::stream::{FramedRead, StreamType};
use pq::varint::encode_varint;

fn consumer(bytes: &[u8], t: StreamType) -> ByteConsumer {
    ByteConsumer::new(ByteReader::new(bytes), t)
}

#[test]
fn varint_stream_frames() {
    let mut c = consumer(&[0x02, b'h', b'i', 0x01, b'x'], StreamType::Varint);
    assert_eq!(c.next(), Some(b"hi".to_vec()));
    assert_eq!(c.next(), Some(b"x".to_vec()));
    assert_eq!(c.next(), None);
}

#[test]
fn leb128_stream_uses_the_same_framing() {
    let mut c = consumer(&[0x03, 1, 2, 3], StreamType::Leb128);
    assert_eq!(c.next(), Some(vec![1, 2, 3]));
    assert_eq!(c.next(), None);
}

#[test]
fn zero_length_frame_ends_the_stream() {
    let mut c = consumer(&[0x00, 0x01, b'a'], StreamType::Varint);
    assert_eq!(c.next(), None);
    assert_eq!(c.remaining(), 2);
}

#[test]
fn truncated_frame_is_returned_short() {
    let mut c = consumer(&[0x05, b'a', b'b'], StreamType::Varint);
    assert_eq!(c.next(), Some(b"ab".to_vec()));
    assert_eq!(c.next(), None);
}

#[test]
fn header_without_body_gives_empty_frame() {
    let mut c = consumer(&[0x05], StreamType::Varint);
    assert_eq!(c.next(), Some(vec![]));
    assert_eq!(c.next(), None);
}

#[test]
fn too_long_varint_is_an_error() {
    let mut c = consumer(&[0xff; 11], StreamType::Varint);
    let mut buffer = vec![9u8];
    match c.read_next_frame(&mut buffer) {
        Err(StreamDelimitError::VarintDecodeMaxBytesError) => (),
        other => panic!("unexpected {:?}", other),
    }
    // the buffer is left as it was
    assert_eq!(buffer, vec![9u8]);
    assert_eq!(c.remaining(), 1);
}

#[test]
fn i32be_stream_frames() {
    let mut c = consumer(&[0, 0, 0, 2, b'o', b'k', 0, 0, 0, 1, b'!', 0, 0], StreamType::I32BE);
    assert_eq!(c.next(), Some(b"ok".to_vec()));
    assert_eq!(c.next(), Some(b"!".to_vec()));
    // fewer than four bytes left: the end
    assert_eq!(c.next(), None);
    assert_eq!(c.remaining(), 0);
}

#[test]
fn i32be_negative_length_reads_the_rest() {
    let mut c = consumer(&[0xff, 0xff, 0xff, 0xff, 1, 2, 3], StreamType::I32BE);
    assert_eq!(c.next(), Some(vec![1, 2, 3]));
}

#[test]
fn single_stream_is_one_frame() {
    let mut c = consumer(&[7, 8, 9], StreamType::Single);
    let mut buffer = vec![1u8, 2];
    assert!(c.read_next_frame(&mut buffer).unwrap());
    assert_eq!(buffer, vec![7, 8, 9]);
    assert!(!c.read_next_frame(&mut buffer).unwrap());
    assert!(buffer.is_empty());
}

#[test]
fn empty_single_stream_has_no_frame() {
    let mut c = consumer(&[], StreamType::Single);
    assert_eq!(c.next(), None);
}

#[test]
fn read_frames_honours_count() {
    let bytes = [0x01, b'a', 0x01, b'b', 0x01, b'c'];
    let (all, err) = read_frames(&mut consumer(&bytes, StreamType::Varint), -1);
    assert_eq!(all, vec![b"a".to_vec(), b"b".to_vec(), b"c".to_vec()]);
    assert!(err.is_none());
    let (two, _) = read_frames(&mut consumer(&bytes, StreamType::Varint), 2);
    assert_eq!(two, vec![b"a".to_vec(), b"b".to_vec()]);
    let (none, _) = read_frames(&mut consumer(&bytes, StreamType::Varint), 0);
    assert!(none.is_empty());
}

#[test]
fn read_frames_reports_error_after_frames() {
    let mut bytes = vec![0x01, b'a'];
    bytes.extend_from_slice(&[0x80; 10]);
    let (frames, err) = read_frames(&mut consumer(&bytes, StreamType::Varint), -1);
    assert_eq!(frames, vec![b"a".to_vec()]);
    assert!(matches!(err, Some(StreamDelimitError::VarintDecodeMaxBytesError)));
    // the frame read past the count still reports its error
    let (frames, err) = read_frames(&mut consumer(&bytes, StreamType::Varint), 1);
    assert_eq!(frames, vec![b"a".to_vec()]);
    assert!(err.is_some());
}

#[test]
fn converted_stream_reads_back() {
    // i32be input converted to varint framing
    let input = [0, 0, 0, 3, 1, 2, 3, 0, 0, 1, 0x2c];
    let mut body = vec![0u8; 300];
    body[299] = 7;
    let mut all = input.to_vec();
    all.extend_from_slice(&body);
    let out = convert_frames(&mut consumer(&all, StreamType::I32BE), StreamType::Varint, -1);
    let mut expected = vec![0x03, 1, 2, 3, 0xac, 0x02];
    expected.extend_from_slice(&body);
    assert_eq!(out, expected);
    let (frames, err) = read_frames(&mut consumer(&out, StreamType::Varint), -1);
    assert_eq!(frames, vec![vec![1, 2, 3], body]);
    assert!(err.is_none());
}

#[test]
fn convert_frames_honours_count() {
    let bytes = [0x01, b'a', 0x01, b'b'];
    let out = convert_frames(&mut consumer(&bytes, StreamType::Varint), StreamType::Leb128, 1);
    assert_eq!(out, vec![0x01, b'a']);
    let single = convert_frames(&mut consumer(b"hello", StreamType::Single), StreamType::Varint, -1);
    assert_eq!(single, b"\x05hello".to_vec());
}

#[test]
fn frame_roundtrip_many_lengths() {
    for len in [1usize, 2, 127, 128, 129, 300, 16384] {
        let msg: Vec<u8> = (0..len).map(|i| (i % 251) as u8).collect();
        let mut framed = encode_varint(len as u64);
        framed.extend_from_slice(&msg);
        framed.extend_from_slice(&[0x01, 0x42]);
        let mut c = consumer(&framed, StreamType::Varint);
        assert_eq!(c.next(), Some(msg));
        assert_eq!(c.next(), Some(vec![0x42]));
        assert_eq!(c.next(), None);
    }
}

#[test]
fn quota_only_limits_a_nonnegative_count() {
    assert!(!quota_reached(-1, 0));
    assert!(!quota_reached(-1, 1000));
    assert!(quota_reached(0, 0));
    assert!(!quota_reached(2, 1));
    assert!(quota_reached(2, 2));
    assert!(quota_reached(2, 3));
}

#[test]
fn count_beyond_the_stream_takes_every_frame() {
    let bytes = [0x00, 0x00, 0x00, 0x01, b'a', 0x00, 0x00, 0x00, 0x02, b'b', b'c'];
    let (all, _) = read_frames(&mut consumer(&bytes, StreamType::I32BE), -1);
    let (many, err) = read_frames(&mut consumer(&bytes, StreamType::I32BE), 10);
    assert_eq!(many, all);
    assert_eq!(many, vec![b"a".to_vec(), b"bc".to_vec()]);
    assert!(err.is_none());
}
