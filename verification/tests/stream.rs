use pq::error::{ReadError, StreamDelimitError};
use pq::stream::{str_to_streamtype, StreamType};

#[test]
fn stream_type_names() {
    assert_eq!(str_to_streamtype("single").unwrap(), StreamType::Single);
    assert_eq!(str_to_streamtype("varint").unwrap(), StreamType::Varint);
    assert_eq!(str_to_streamtype("leb128").unwrap(), StreamType::Leb128);
    assert_eq!(str_to_streamtype("i32be").unwrap(), StreamType::I32BE);
    match str_to_streamtype("kafka") {
        Err(StreamDelimitError::InvalidStreamTypeError(t)) => assert_eq!(t, "kafka"),
        _ => panic!("expected an error"),
    }
}

#[test]
fn stream_delimit_error_messages() {
    let e = str_to_streamtype("bogus").unwrap_err();
    assert_eq!(e.message(), "Invalid stream type: bogus (only support single,leb128,varint)");
    assert_eq!(e.description(), "invalid stream type");
    assert_eq!(
        StreamDelimitError::VarintDecodeMaxBytesError.message(),
        "Exceeded max attempts to decode leading varint"
    );
    assert_eq!(
        StreamDelimitError::VarintDecodeError(ReadError::UnexpectedEof).message(),
        "Couldn't decode leading varint: failed to fill whole buffer"
    );
    assert_eq!(
        StreamDelimitError::VarintDecodeError(ReadError::UnexpectedEof).description(),
        "couldn't decode leading varint"
    );
}
