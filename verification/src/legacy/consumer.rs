use vstd::prelude::*;
use crate::legacy::leb128::{consume_single_leb128, spec_consume_single_leb128};
use crate::legacy::stream::StreamType;
use crate::reader::ByteReader;

verus! {

/// Reading the next message from the stream `s` of type `t`: the message
/// (`None` at the end or on a failure) and the stream that is left. Varint
/// and leb128 streams share one framing; a single-message stream is one
/// message of all its bytes, if it has any.
pub open spec fn spec_consume(t: StreamType, s: Seq<u8>) -> (Option<Seq<u8>>, Seq<u8>) {
    match t {
        StreamType::Leb128 | StreamType::Varint => spec_consume_single_leb128(s),
        StreamType::Single => if s.len() > 0 {
            (Some(s), Seq::empty())
        } else {
            (None, Seq::empty())
        },
    }
}

/// A consumer of a byte stream of delimited messages.
pub struct Consumer {
    read: ByteReader,
    type_: StreamType,
}

impl Consumer {
    /// The bytes not consumed yet.
    pub closed spec fn pending(&self) -> Seq<u8> {
        self.read@
    }

    /// How the stream is delimited.
    pub closed spec fn stream_type(&self) -> StreamType {
        self.type_
    }

    /// A consumer of `read`, delimited as `type_` says.
    pub fn new(read: ByteReader, type_: StreamType) -> (r: Consumer)
        ensures
            r.pending() == read@,
            r.stream_type() == type_,
    {
        Consumer { read, type_ }
    }

    /// The next message, or `None`.
    pub fn next(&mut self) -> (r: Option<Vec<u8>>)
        ensures
            ({
                let (m, rest) = spec_consume(old(self).stream_type(), old(self).pending());
                &&& final(self).pending() == rest
                &&& final(self).stream_type() == old(self).stream_type()
                &&& match m {
                    Some(b) => r matches Some(v) && v@ == b,
                    None => r is None,
                }
            }),
    {
        match self.type_ {
            StreamType::Leb128 | StreamType::Varint => consume_single_leb128(&mut self.read),
            StreamType::Single => {
                let buf = self.read.read_to_end();
                if buf.len() > 0 {
                    Some(buf)
                } else {
                    None
                }
            },
        }
    }
}

} // verus!
