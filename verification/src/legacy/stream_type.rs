use vstd::prelude::*;
use crate::stream::str_equals;

verus! {

/// The kinds of stream the earlier consumer could read.
#[derive(Debug, Clone, Copy, PartialEq, Eq, Structural)]
pub enum StreamType {
    Varint,
    Leb128,
    Kafka,
    Single,
}

/// The stream type that a name selects.
pub open spec fn spec_stream_type_named(name: Seq<char>) -> Option<StreamType> {
    if name == "varint"@ {
        Some(StreamType::Varint)
    } else if name == "single"@ {
        Some(StreamType::Single)
    } else if name == "kafka"@ {
        Some(StreamType::Kafka)
    } else if name == "leb128"@ {
        Some(StreamType::Leb128)
    } else {
        None
    }
}

/// Converts a name (`varint`, `single`, `kafka` or `leb128`) to its stream
/// type; other names are not accepted.
pub fn string_to_stream_type(stream_type: String) -> (r: StreamType)
    requires
        spec_stream_type_named(stream_type@) is Some,
    ensures
        spec_stream_type_named(stream_type@) == Some(r),
{
    let s = stream_type.as_str();
    if str_equals(s, "varint") {
        StreamType::Varint
    } else if str_equals(s, "single") {
        StreamType::Single
    } else if str_equals(s, "kafka") {
        StreamType::Kafka
    } else {
        StreamType::Leb128
    }
}

} // verus!
