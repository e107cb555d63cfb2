use vstd::prelude::*;
use crate::legacy::error::StreamDelimitError;
use crate::stream::str_equals;

verus! {

/// How the messages of a byte stream are delimited.
#[derive(Debug, Clone, Copy, PartialEq, Eq, Structural)]
pub enum StreamType {
    /// Each message is preceded by its length in leb128.
    Leb128,
    /// Each message is preceded by its length as a varint.
    Varint,
    /// The whole stream is one message.
    Single,
}

/// The stream type that a name selects.
pub open spec fn spec_stream_type_named(name: Seq<char>) -> Option<StreamType> {
    if name == "single"@ {
        Some(StreamType::Single)
    } else if name == "varint"@ {
        Some(StreamType::Varint)
    } else if name == "leb128"@ {
        Some(StreamType::Leb128)
    } else {
        None
    }
}

/// Converts a name (`single`, `varint` or `leb128`) to its stream type.
pub fn str_to_streamtype(input: &str) -> (r: Result<StreamType, StreamDelimitError>)
    ensures
        spec_stream_type_named(input@) matches Some(t) ==> r == Ok::<StreamType, StreamDelimitError>(t),
        spec_stream_type_named(input@) is None ==> r == Err::<StreamType, StreamDelimitError>(
            StreamDelimitError::InvalidStreamTypeError,
        ),
{
    if str_equals(input, "single") {
        Ok(StreamType::Single)
    } else if str_equals(input, "varint") {
        Ok(StreamType::Varint)
    } else if str_equals(input, "leb128") {
        Ok(StreamType::Leb128)
    } else {
        Err(StreamDelimitError::InvalidStreamTypeError)
    }
}

} // verus!
