use vstd::prelude::*;
use crate::converter::spec_varint_frame;
use crate::legacy::leb128::encode_leb128;
use crate::legacy::stream::StreamType;
use crate::varint::encode_varint;

verus! {

/// Converts the messages of a stream to varint or leb128 framing.
pub struct Converter {
    stream_dest: StreamType,
}

impl Converter {
    /// The framing that messages are converted to.
    pub closed spec fn destination(&self) -> StreamType {
        self.stream_dest
    }

    /// A converter to the framing `stream_dest`.
    pub fn new(stream_dest: StreamType) -> (r: Converter)
        ensures
            r.destination() == stream_dest,
    {
        Converter { stream_dest }
    }

    /// Frames the next message of the source stream, `item` being what the
    /// source produced; the end of the source is the end of the output.
    /// A single-message destination is not supported.
    pub fn next(&self, item: Option<Vec<u8>>) -> (r: Option<Vec<u8>>)
        requires
            self.destination() != StreamType::Single,
        ensures
            match item {
                Some(m) => r matches Some(f) && f@ == spec_varint_frame(m@),
                None => r is None,
            },
    {
        match item {
            Some(mut x) => {
                let mut lead = if self.stream_dest == StreamType::Varint {
                    encode_varint(x.len() as u64)
                } else {
                    encode_leb128(x.len() as u64)
                };
                lead.append(&mut x);
                Some(lead)
            },
            None => None,
        }
    }
}

} // verus!
