use vstd::prelude::*;
use crate::error::ReadError;

verus! {

/// Errors of the earlier stream-delimiting layer.
#[derive(Debug)]
pub enum StreamDelimitError {
    /// The Kafka consumer could not be set up.
    KafkaInitializeError,
    /// The leading length could not be read.
    VarintDecodeError(ReadError),
    /// Ten bytes were read without finding the end of the leading length.
    VarintDecodeMaxAttemptsExceededError,
    /// A stream type name that is not one of the supported ones.
    InvalidStreamTypeError,
}

impl StreamDelimitError {
    /// A short description of the error kind.
    pub fn description(&self) -> (r: &'static str)
        ensures
            r@ == (match self {
                StreamDelimitError::KafkaInitializeError => "couldn't initialize kafka consumer"@,
                StreamDelimitError::VarintDecodeError(_) => "couldn't decode leading varint"@,
                StreamDelimitError::VarintDecodeMaxAttemptsExceededError => "couldn't decode leading varint"@,
                StreamDelimitError::InvalidStreamTypeError => "invalid stream type"@,
            }),
    {
        match self {
            StreamDelimitError::KafkaInitializeError => "couldn't initialize kafka consumer",
            StreamDelimitError::VarintDecodeError(_) => "couldn't decode leading varint",
            StreamDelimitError::VarintDecodeMaxAttemptsExceededError => "couldn't decode leading varint",
            StreamDelimitError::InvalidStreamTypeError => "invalid stream type",
        }
    }

    /// The full human-readable message of the error.
    pub fn message(&self) -> (r: String)
        ensures
            r@ == (match self {
                StreamDelimitError::KafkaInitializeError => "Couldn't initialize kafka consumer"@,
                StreamDelimitError::VarintDecodeError(_) =>
                    "Couldn't decode leading varint: "@ + "failed to fill whole buffer"@,
                StreamDelimitError::VarintDecodeMaxAttemptsExceededError =>
                    "Exceeded max attempts to decode leading varint"@,
                StreamDelimitError::InvalidStreamTypeError => "Invalid stream type"@,
            }),
    {
        match self {
            StreamDelimitError::KafkaInitializeError => String::from_str("Couldn't initialize kafka consumer"),
            StreamDelimitError::VarintDecodeError(e) => {
                let mut s = String::from_str("Couldn't decode leading varint: ");
                s.append(e.description());
                s
            },
            StreamDelimitError::VarintDecodeMaxAttemptsExceededError => {
                String::from_str("Exceeded max attempts to decode leading varint")
            },
            StreamDelimitError::InvalidStreamTypeError => String::from_str("Invalid stream type"),
        }
    }
}

} // verus!
