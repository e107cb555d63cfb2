use vstd::prelude::*;
use crate::stream::StreamType;
use crate::varint::{encode_varint, spec_encode_varint};

verus! {

/// A message framed for a varint- or leb128-delimited stream: its length as a
/// varint, then its bytes.
pub open spec fn spec_varint_frame(m: Seq<u8>) -> Seq<u8> {
    spec_encode_varint(m.len()) + m
}

/// Converts the messages of a stream to the framing of another `StreamType`,
/// for example to dump Kafka messages as a varint-delimited byte stream.
pub struct Converter {
    stream_dest: StreamType,
}

impl Converter {
    /// The framing that messages are converted to.
    pub closed spec fn destination(&self) -> StreamType {
        self.stream_dest
    }

    /// A converter to the framing `stream_dest`.
    pub fn new(stream_dest: StreamType) -> (r: Converter)
        ensures
            r.destination() == stream_dest,
    {
        Converter { stream_dest }
    }

    /// Frames the next message of the source stream, `item` being what the
    /// source produced; the end of the source is the end of the output.
    /// Only varint and leb128 framing are supported as destinations.
    pub fn next(&self, item: Option<Vec<u8>>) -> (r: Option<Vec<u8>>)
        requires
            self.destination() == StreamType::Varint || self.destination() == StreamType::Leb128,
        ensures
            match item {
                Some(m) => r matches Some(f) && f@ == spec_varint_frame(m@),
                None => r is None,
            },
    {
        match item {
            Some(mut x) => {
                let mut lead_varint = encode_varint(x.len() as u64);
                lead_varint.append(&mut x);
                Some(lead_varint)
            },
            None => None,
        }
    }
}

} // verus!
