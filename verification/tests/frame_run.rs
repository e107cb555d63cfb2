use pq::byte_consumer::ByteConsumer;
use pq::commands::read_frames;
use pq::error::StreamDelimitError;
use pq::frame_run::{FrameRun, RunStep};
use pq::reader::ByteReader;
use pq::stream::StreamType;

/// Runs over `bytes` fed in pieces of `piece` bytes; the frames, the error,
/// and how many bytes had been fed when the run ended.
fn run_in_pieces(t: StreamType, bytes: &[u8], piece: usize, count: i32) -> (Vec<Vec<u8>>, Option<StreamDelimitError>, usize) {
    let mut run = FrameRun::new(t, count);
    let mut fed = 0;
    let mut frames = Vec::new();
    loop {
        match run.step() {
            RunStep::NeedInput => {
                let end = std::cmp::min(fed + piece, bytes.len());
                run.feed(&bytes[fed..end]);
                fed = end;
            }
            RunStep::Frame(m) => frames.push(m),
            RunStep::Done(e) => return (frames, e, fed),
        }
    }
}

fn whole(t: StreamType, bytes: &[u8], count: i32) -> (Vec<Vec<u8>>, Option<StreamDelimitError>) {
    read_frames(&mut ByteConsumer::new(ByteReader::new(bytes), t), count)
}

#[test]
fn pieces_give_the_frames_of_the_whole_stream() {
    let mut varint = vec![0x03, 1, 2, 3, 0xac, 0x02];
    varint.extend(std::iter::repeat(9u8).take(300));
    varint.extend_from_slice(&[0x02, 7]);
    let i32be = vec![0, 0, 0, 2, 5, 6, 0, 0, 0, 1, 8, 0, 0, 0, 9, 1];
    for (t, bytes) in [(StreamType::Varint, &varint), (StreamType::Leb128, &varint), (StreamType::I32BE, &i32be)] {
        for piece in [1usize, 2, 3, 7, 1000] {
            for count in [-1, 0, 1, 2, 5] {
                let (frames, err, _) = run_in_pieces(t, bytes, piece, count);
                let (expected, expected_err) = whole(t, bytes, count);
                assert_eq!(frames, expected);
                assert_eq!(format!("{:?}", err), format!("{:?}", expected_err));
            }
        }
    }
}

#[test]
fn single_stream_waits_for_the_end() {
    let (frames, err, fed) = run_in_pieces(StreamType::Single, b"hello", 2, -1);
    assert_eq!(frames, vec![b"hello".to_vec()]);
    assert!(err.is_none());
    assert_eq!(fed, 5);
}

#[test]
fn count_ends_the_run_before_the_input_ends() {
    // two frames, then a third that never completes
    let bytes = [0x01, b'a', 0x01, b'b', 0x05, b'c'];
    let (frames, err, fed) = run_in_pieces(StreamType::Varint, &bytes, 1, 1);
    assert_eq!(frames, vec![b"a".to_vec()]);
    assert!(err.is_none());
    assert_eq!(fed, 4);
}

#[test]
fn too_long_header_ends_with_its_error() {
    let bytes = [0x80u8; 12];
    let (frames, err, _) = run_in_pieces(StreamType::Varint, &bytes, 3, -1);
    assert!(frames.is_empty());
    assert!(matches!(err, Some(StreamDelimitError::VarintDecodeMaxBytesError)));
}

#[test]
fn settled_frames_are_seen_early() {
    let mut c = ByteConsumer::new(ByteReader::new(&[0x02, b'x']), StreamType::Varint);
    assert!(!c.next_frame_settled());
    c.extend(&[b'y']);
    assert!(c.next_frame_settled());
    let mut z = ByteConsumer::new(ByteReader::new(&[0x00]), StreamType::Varint);
    assert!(z.next_frame_settled());
    assert_eq!(z.next(), None);
    let i = ByteConsumer::new(ByteReader::new(&[0xff, 0xff, 0xff, 0xff, 1]), StreamType::I32BE);
    assert!(!i.next_frame_settled());
}
