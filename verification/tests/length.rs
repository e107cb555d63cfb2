use pq::length::LengthDelimiter;
use pq::pq_errors::PqrsError;

#[test]
fn length_delimiter_parse() {
    let mut d = LengthDelimiter::U32();
    let mut size = 0usize;
    d.parse(&[0xac, 0x02, 0xff], &mut size).unwrap();
    assert_eq!(size, 300);
    let mut size = 5usize;
    assert!(matches!(d.parse(&[0x80], &mut size), Err(PqrsError::NoLeadingVarintError)));
    assert_eq!(size, 5);
    // the varint is cut to its low 32 bits
    let mut size = 0usize;
    d.parse(&[0x80, 0x80, 0x80, 0x80, 0x10], &mut size).unwrap();
    assert_eq!(size, 0);
}
