use vstd::prelude::*;

verus! {

/// Why a read from a byte stream failed.
#[derive(Debug, Clone, Copy, PartialEq, Eq, Structural)]
pub enum ReadError {
    /// The stream ended before the requested bytes could be read.
    UnexpectedEof,
}

impl ReadError {
    /// The text of the failure, as reading an exact number of bytes reports it.
    pub fn description(&self) -> (r: &'static str)
        ensures
            r@ == "failed to fill whole buffer"@,
    {
        match self {
            ReadError::UnexpectedEof => "failed to fill whole buffer",
        }
    }
}

/// Errors of the stream-delimiting layer.
#[derive(Debug)]
pub enum StreamDelimitError {
    /// The leading varint could not be read.
    VarintDecodeError(ReadError),
    /// A stream type name that is not one of the supported ones.
    InvalidStreamTypeError(String),
    /// Ten bytes were read without finding the end of the leading varint.
    VarintDecodeMaxBytesError,
}

impl StreamDelimitError {
    /// A short description of the error kind.
    pub fn description(&self) -> (r: &'static str)
        ensures
            r@ == (match self {
                StreamDelimitError::VarintDecodeError(_) => "couldn't decode leading varint"@,
                StreamDelimitError::VarintDecodeMaxBytesError => "couldn't decode leading varint"@,
                StreamDelimitError::InvalidStreamTypeError(_) => "invalid stream type"@,
            }),
    {
        match self {
            StreamDelimitError::VarintDecodeError(_) => "couldn't decode leading varint",
            StreamDelimitError::VarintDecodeMaxBytesError => "couldn't decode leading varint",
            StreamDelimitError::InvalidStreamTypeError(_) => "invalid stream type",
        }
    }

    /// The full human-readable message of the error.
    pub fn message(&self) -> (r: String)
        ensures
            r@ == (match self {
                StreamDelimitError::VarintDecodeError(_) =>
                    "Couldn't decode leading varint: "@ + "failed to fill whole buffer"@,
                StreamDelimitError::InvalidStreamTypeError(t) =>
                    "Invalid stream type: "@ + t@ + " (only support single,leb128,varint)"@,
                StreamDelimitError::VarintDecodeMaxBytesError =>
                    "Exceeded max attempts to decode leading varint"@,
            }),
    {
        match self {
            StreamDelimitError::VarintDecodeError(e) => {
                let mut s = String::from_str("Couldn't decode leading varint: ");
                s.append(e.description());
                s
            },
            StreamDelimitError::InvalidStreamTypeError(t) => {
                let mut s = String::from_str("Invalid stream type: ");
                s.append(t.as_str());
                s.append(" (only support single,leb128,varint)");
                s
            },
            StreamDelimitError::VarintDecodeMaxBytesError => {
                String::from_str("Exceeded max attempts to decode leading varint")
            },
        }
    }
}

} // verus!
