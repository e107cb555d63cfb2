use vstd::prelude::*;
use crate::error::StreamDelimitError;

verus! {

/// How the messages of a byte stream are delimited.
#[derive(Debug, Clone, Copy, PartialEq, Eq, Structural)]
pub enum StreamType {
    /// Each message is preceded by its length as unsigned LEB128.
    Leb128,
    /// Each message is preceded by its length as a protobuf varint.
    Varint,
    /// Each message is preceded by its length as a big-endian 32-bit signed integer.
    I32BE,
    /// The whole stream is a single message, with no delimiter.
    Single,
}

/// `a` and `b` hold the same characters.
pub fn str_equals(a: &str, b: &str) -> (r: bool)
    ensures
        r == (a@ == b@),
{
    let x = String::from_str(a);
    let y = String::from_str(b);
    x == y
}

/// The stream type that a name selects.
pub open spec fn spec_stream_type_named(name: Seq<char>) -> Option<StreamType> {
    if name == "single"@ {
        Some(StreamType::Single)
    } else if name == "varint"@ {
        Some(StreamType::Varint)
    } else if name == "leb128"@ {
        Some(StreamType::Leb128)
    } else if name == "i32be"@ {
        Some(StreamType::I32BE)
    } else {
        None
    }
}

/// Converts a name (`single`, `varint`, `leb128` or `i32be`) to its stream type.
pub fn str_to_streamtype(input: &str) -> (r: Result<StreamType, StreamDelimitError>)
    ensures
        spec_stream_type_named(input@) matches Some(t) ==> r == Ok::<StreamType, StreamDelimitError>(t),
        spec_stream_type_named(input@) is None ==> (r matches Err(
            StreamDelimitError::InvalidStreamTypeError(s),
        ) && s@ == input@),
{
    if str_equals(input, "single") {
        Ok(StreamType::Single)
    } else if str_equals(input, "varint") {
        Ok(StreamType::Varint)
    } else if str_equals(input, "leb128") {
        Ok(StreamType::Leb128)
    } else if str_equals(input, "i32be") {
        Ok(StreamType::I32BE)
    } else {
        Err(StreamDelimitError::InvalidStreamTypeError(String::from_str(input)))
    }
}

/// A stream that can be read in clearly delimited chunks.
pub trait FramedRead {
    /// What a failed read reports.
    type Error;

    /// Reads the next available frame into `buffer`, returning whether one
    /// was there. The buffer is cleared before it is filled.
    fn read_next_frame(&mut self, buffer: &mut Vec<u8>) -> Result<bool, Self::Error>;
}

} // verus!
