use vstd::prelude::*;
use crate::error::StreamDelimitError;
use crate::i32be::{read_i32_from, spec_i32_be};
use crate::reader::ByteReader;
use crate::stream::{FramedRead, StreamType};
use crate::varint::{decode_varint, spec_decode_varint, varint_len, varint_len_from};

verus! {

/// A length read from a frame header: `None` for zero, which ends the stream.
pub open spec fn nonzero_length(n: usize) -> Option<usize> {
    if n == 0 {
        None
    } else {
        Some(n)
    }
}

/// Reading the length header of the next frame from the stream `s` of type
/// `t`: the outcome and the stream that is left. Running out of bytes while
/// reading the header ends the stream; a varint longer than ten bytes is an
/// error; a single-message stream has no header.
pub open spec fn spec_frame_length(t: StreamType, s: Seq<u8>) -> (
    Result<Option<usize>, StreamDelimitError>,
    Seq<u8>,
) {
    match t {
        StreamType::Leb128 | StreamType::Varint => {
            let (r, n) = spec_decode_varint(s);
            match r {
                Ok(v) => (Ok(nonzero_length(v as usize)), s.skip(n as int)),
                Err(StreamDelimitError::VarintDecodeError(_)) => (Ok(None), s.skip(n as int)),
                Err(e) => (Err(e), s.skip(n as int)),
            }
        },
        StreamType::I32BE => if s.len() >= 4 {
            (Ok(nonzero_length(spec_i32_be(s) as usize)), s.skip(4))
        } else {
            (Ok(None), Seq::empty())
        },
        StreamType::Single => (Ok(None), s),
    }
}

/// Reading the next frame from the stream `s` of type `t`: the frame (or
/// `None` at the end of the stream, or the error) and the stream that is
/// left. A frame holds as many bytes as its header says, or the rest of the
/// stream when fewer are left; a single-message stream is one frame of all
/// its bytes, if it has any.
pub open spec fn spec_read_frame(t: StreamType, s: Seq<u8>) -> (
    Result<Option<Seq<u8>>, StreamDelimitError>,
    Seq<u8>,
) {
    let (r, s1) = spec_frame_length(t, s);
    match r {
        Err(e) => (Err(e), s1),
        Ok(Some(n)) => if n <= s1.len() {
            (Ok(Some(s1.take(n as int))), s1.skip(n as int))
        } else {
            (Ok(Some(s1)), Seq::empty())
        },
        Ok(None) => if t == StreamType::Single {
            if s1.len() > 0 {
                (Ok(Some(s1)), Seq::empty())
            } else {
                (Ok(None), Seq::empty())
            }
        } else {
            (Ok(None), s1)
        },
    }
}

/// Whether the bytes `s` already settle the next frame of a stream of type
/// `t`, so that bytes arriving after them cannot change it: a complete
/// length header (or one that is too long) and, unless it ends the stream,
/// the whole frame behind it. A single-message stream is settled only by
/// its end.
pub open spec fn frame_settled(t: StreamType, s: Seq<u8>) -> bool {
    match t {
        StreamType::Leb128 | StreamType::Varint => match varint_len(s) {
            Some(n) => {
                let k = spec_decode_varint(s).0->Ok_0 as usize;
                k == 0 || n + k <= s.len()
            },
            None => s.len() >= 10,
        },
        StreamType::I32BE => s.len() >= 4 && {
            let k = spec_i32_be(s) as usize;
            k == 0 || 4 + k <= s.len()
        },
        StreamType::Single => false,
    }
}

/// The varint scan of a stream looks at its first ten bytes only.
proof fn lemma_varint_len_head(s: Seq<u8>, i: int)
    requires
        0 <= i,
    ensures
        varint_len_from(s.take(if 10 < s.len() { 10 } else { s.len() as int }), i) == varint_len_from(s, i),
    decreases 10 - i,
{
    let h = s.take(if 10 < s.len() { 10 } else { s.len() as int });
    if i < 10 && i < s.len() {
        assert(h[i] == s[i]);
        lemma_varint_len_head(s, i + 1);
    }
}

/// A consumer of a byte stream of single, varint-, leb128- or
/// i32be-delimited messages.
pub struct ByteConsumer {
    read: ByteReader,
    type_: StreamType,
}

impl ByteConsumer {
    /// The bytes not consumed yet.
    pub closed spec fn pending(&self) -> Seq<u8> {
        self.read@
    }

    /// How the stream is delimited.
    pub closed spec fn stream_type(&self) -> StreamType {
        self.type_
    }

    /// A consumer of `read`, delimited as `type_` says.
    pub fn new(read: ByteReader, type_: StreamType) -> (r: ByteConsumer)
        ensures
            r.pending() == read@,
            r.stream_type() == type_,
    {
        ByteConsumer { read, type_ }
    }

    /// Adds `more` to the end of the stream.
    pub fn extend(&mut self, more: &[u8])
        ensures
            final(self).pending() == old(self).pending() + more@,
            final(self).stream_type() == old(self).stream_type(),
    {
        self.read.extend(more);
    }

    /// Whether the bytes not consumed yet settle the next frame.
    pub fn next_frame_settled(&self) -> (r: bool)
        ensures
            r == frame_settled(self.stream_type(), self.pending()),
    {
        let s = Ghost(self.read@);
        let total = self.read.remaining();
        match self.type_ {
            StreamType::Leb128 | StreamType::Varint => {
                let head = self.read.head(10);
                let ghost h = head@;
                proof {
                    lemma_varint_len_head(s@, 0);
                    if let Some(n) = varint_len(s@) {
                        crate::framing_laws::lemma_varint_len_le(s@);
                        assert(h.take(n as int) =~= s@.take(n as int));
                    }
                }
                let mut rd = ByteReader::from_vec(head);
                let before = rd.remaining();
                match decode_varint(&mut rd) {
                    Ok(v) => {
                        let n = before - rd.remaining();
                        let k = v as usize;
                        proof { crate::framing_laws::lemma_varint_len_le(h); }
                        k == 0 || k <= total - n
                    },
                    Err(StreamDelimitError::VarintDecodeMaxBytesError) => true,
                    Err(_) => false,
                }
            },
            StreamType::I32BE => {
                if total < 4 {
                    false
                } else {
                    let head = self.read.head(4);
                    let mut rd = ByteReader::from_vec(head);
                    match read_i32_from(&mut rd) {
                        Some(v) => {
                            let k = v as usize;
                            k == 0 || k <= total - 4
                        },
                        None => false,
                    }
                }
            },
            StreamType::Single => false,
        }
    }

    /// How many bytes have not been consumed yet.
    pub fn remaining(&self) -> (n: usize)
        ensures
            n == self.pending().len(),
    {
        self.read.remaining()
    }

    /// Reads the length header of the next frame.
    fn read_next_frame_length(&mut self) -> (r: Result<Option<usize>, StreamDelimitError>)
        ensures
            (r, final(self).pending()) == spec_frame_length(old(self).stream_type(), old(self).pending()),
            final(self).stream_type() == old(self).stream_type(),
    {
        match self.type_ {
            StreamType::Leb128 | StreamType::Varint => {
                match decode_varint(&mut self.read) {
                    Ok(v) => {
                        let n = v as usize;
                        if n == 0 {
                            Ok(None)
                        } else {
                            Ok(Some(n))
                        }
                    },
                    Err(StreamDelimitError::VarintDecodeError(_)) => Ok(None),
                    Err(e) => Err(e),
                }
            },
            StreamType::I32BE => {
                match read_i32_from(&mut self.read) {
                    Some(v) => {
                        let n = v as usize;
                        if n == 0 {
                            Ok(None)
                        } else {
                            Ok(Some(n))
                        }
                    },
                    None => {
                        assert(self.read@ =~= Seq::<u8>::empty());
                        Ok(None)
                    },
                }
            },
            StreamType::Single => Ok(None),
        }
    }

    /// Reads the next frame: `Some` of its bytes, or `None` at the end of
    /// the stream or on an error.
    pub fn next(&mut self) -> (r: Option<Vec<u8>>)
        ensures
            ({
                let (f, rest) = spec_read_frame(old(self).stream_type(), old(self).pending());
                &&& final(self).pending() == rest
                &&& final(self).stream_type() == old(self).stream_type()
                &&& match f {
                    Ok(Some(m)) => r matches Some(b) && b@ == m,
                    _ => r is None,
                }
            }),
    {
        let mut buffer: Vec<u8> = Vec::new();
        match self.read_next_frame(&mut buffer) {
            Ok(true) => Some(buffer),
            _ => None,
        }
    }
}

impl FramedRead for ByteConsumer {
    type Error = StreamDelimitError;

    fn read_next_frame(&mut self, buffer: &mut Vec<u8>) -> (r: Result<bool, StreamDelimitError>)
        ensures
            ({
                let (f, rest) = spec_read_frame(old(self).stream_type(), old(self).pending());
                &&& final(self).pending() == rest
                &&& final(self).stream_type() == old(self).stream_type()
                &&& match f {
                    Err(e) => r == Err::<bool, StreamDelimitError>(e) && final(buffer)@ == old(buffer)@,
                    Ok(Some(m)) => r == Ok::<bool, StreamDelimitError>(true) && final(buffer)@ == m,
                    Ok(None) => r == Ok::<bool, StreamDelimitError>(false) && (if old(self).stream_type()
                        == StreamType::Single {
                        final(buffer)@.len() == 0
                    } else {
                        final(buffer)@ == old(buffer)@
                    }),
                }
            }),
    {
        match self.read_next_frame_length() {
            Err(e) => Err(e),
            Ok(Some(length)) => {
                *buffer = self.read.read_up_to(length);
                Ok(true)
            },
            Ok(None) => {
                if self.type_ == StreamType::Single {
                    *buffer = self.read.read_to_end();
                    Ok(buffer.len() > 0)
                } else {
                    Ok(false)
                }
            },
        }
    }
}

} // verus!
