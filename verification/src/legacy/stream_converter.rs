//! Which conversions the earlier stream converter performs.
use vstd::prelude::*;
use crate::legacy::stream_type::StreamType;

verus! {

/// Why converting a stream of type `src` into one of type `dest` is refused,
/// or `None` when it is done: only a Kafka stream is converted, and only to
/// varint framing.
pub open spec fn spec_conversion_refusal(src: StreamType, dest: StreamType) -> Option<Seq<char>> {
    match src {
        StreamType::Varint => match dest {
            StreamType::Varint => Some("Won't convert bytevarint stream to itself"@),
            StreamType::Leb128 => Some("conversion to this stream type is not supported"@),
            _ => Some("Unsupported conversion"@),
        },
        StreamType::Single => Some("Won't convert single stream"@),
        StreamType::Leb128 => Some("conversion to this stream type is not supported"@),
        StreamType::Kafka => match dest {
            StreamType::Varint => None,
            _ => Some("conversion to this stream type is not supported"@),
        },
    }
}

/// Why converting a stream of type `src` into one of type `dest` is refused,
/// or `None` when each message of the source is to be framed with its
/// varint length.
pub fn conversion_refusal(src: StreamType, dest: StreamType) -> (r: Option<&'static str>)
    ensures
        match r {
            Some(m) => spec_conversion_refusal(src, dest) == Some(m@),
            None => spec_conversion_refusal(src, dest) is None,
        },
{
    match src {
        StreamType::Varint => match dest {
            StreamType::Varint => Some("Won't convert bytevarint stream to itself"),
            StreamType::Leb128 => Some("conversion to this stream type is not supported"),
            _ => Some("Unsupported conversion"),
        },
        StreamType::Single => Some("Won't convert single stream"),
        StreamType::Leb128 => Some("conversion to this stream type is not supported"),
        StreamType::Kafka => match dest {
            StreamType::Varint => None,
            _ => Some("conversion to this stream type is not supported"),
        },
    }
}

} // verus!
