use pq::legacy::consumer::Consumer;
use pq::legacy::converter::Converter;
use pq::legacy::error::StreamDelimitError;
use pq::legacy::stream::{str_to_streamtype, StreamType};
use pq::legacy::stream_converter::conversion_refusal;
use pq::legacy::stream_type::{string_to_stream_type, StreamType as NamedStreamType};
use pq::reader::ByteReader;

#[test]
fn legacy_consumer_reads_messages() {
    let mut c = Consumer::new(ByteReader::new(&[0x01, b'a', 0x00, 0x02, b'b', b'c']), StreamType::Leb128);
    assert_eq!(c.next(), Some(b"a".to_vec()));
    assert_eq!(c.next(), Some(vec![]));
    assert_eq!(c.next(), Some(b"bc".to_vec()));
    assert_eq!(c.next(), None);

    let mut v = Consumer::new(ByteReader::new(&[0x03, 1, 2]), StreamType::Varint);
    assert_eq!(v.next(), None);

    let mut s = Consumer::new(ByteReader::new(&[4, 5]), StreamType::Single);
    assert_eq!(s.next(), Some(vec![4, 5]));
    assert_eq!(s.next(), None);
}

#[test]
fn legacy_converter() {
    let c = Converter::new(StreamType::Leb128);
    assert_eq!(c.next(Some(vec![9; 2])), Some(vec![0x02, 9, 9]));
    assert_eq!(c.next(None), None);
    let v = Converter::new(StreamType::Varint);
    let framed = v.next(Some(vec![1; 300])).unwrap();
    assert_eq!(&framed[..2], &[0xac, 0x02]);
    assert_eq!(framed.len(), 302);
}

#[test]
fn legacy_stream_type_names() {
    assert_eq!(str_to_streamtype("leb128").unwrap(), StreamType::Leb128);
    assert_eq!(str_to_streamtype("varint").unwrap(), StreamType::Varint);
    assert_eq!(str_to_streamtype("single").unwrap(), StreamType::Single);
    assert!(matches!(str_to_streamtype("i32be"), Err(StreamDelimitError::InvalidStreamTypeError)));

    assert_eq!(string_to_stream_type(String::from("kafka")), NamedStreamType::Kafka);
    assert_eq!(string_to_stream_type(String::from("varint")), NamedStreamType::Varint);
    assert_eq!(string_to_stream_type(String::from("leb128")), NamedStreamType::Leb128);
    assert_eq!(string_to_stream_type(String::from("single")), NamedStreamType::Single);
}

#[test]
fn legacy_error_messages() {
    assert_eq!(StreamDelimitError::KafkaInitializeError.message(), "Couldn't initialize kafka consumer");
    assert_eq!(
        StreamDelimitError::VarintDecodeMaxAttemptsExceededError.description(),
        "couldn't decode leading varint"
    );
}

#[test]
fn only_kafka_to_varint_is_converted() {
    assert_eq!(conversion_refusal(NamedStreamType::Kafka, NamedStreamType::Varint), None);
    assert_eq!(
        conversion_refusal(NamedStreamType::Varint, NamedStreamType::Varint),
        Some("Won't convert bytevarint stream to itself")
    );
    assert_eq!(conversion_refusal(NamedStreamType::Varint, NamedStreamType::Single), Some("Unsupported conversion"));
    assert_eq!(conversion_refusal(NamedStreamType::Single, NamedStreamType::Varint), Some("Won't convert single stream"));
    assert_eq!(
        conversion_refusal(NamedStreamType::Kafka, NamedStreamType::Leb128),
        Some("conversion to this stream type is not supported")
    );
    assert_eq!(
        conversion_refusal(NamedStreamType::Leb128, NamedStreamType::Varint),
        Some("conversion to this stream type is not supported")
    );
}
