use pq::converter::Converter;
use pq::stream::StreamType;

#[test]
fn converter_prepends_varint_length() {
    let c = Converter::new(StreamType::Varint);
    assert_eq!(c.next(Some(b"abc".to_vec())), Some(vec![0x03, b'a', b'b', b'c']));
    assert_eq!(c.next(Some(vec![])), Some(vec![0x00]));
    assert_eq!(c.next(None), None);
    let long = vec![0u8; 300];
    let framed = Converter::new(StreamType::Leb128).next(Some(long.clone())).unwrap();
    assert_eq!(&framed[..2], &[0xac, 0x02]);
    assert_eq!(&framed[2..], &long[..]);
}
