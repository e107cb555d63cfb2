use vstd::prelude::*;
use crate::converter::spec_varint_frame;
use crate::error::StreamDelimitError as DecodeFailure;
use crate::legacy::error::StreamDelimitError;
use crate::reader::ByteReader;
use crate::varint::{decode_varint, encode_varint, law_decode_encode_varint, spec_decode_varint, spec_encode_varint};

verus! {

/// What reading a leb128 number from the front of the stream `s` yields (the
/// same digits as a varint), and how many bytes it consumes.
pub open spec fn spec_decode_leb128(s: Seq<u8>) -> (Result<u64, StreamDelimitError>, nat) {
    let (r, n) = spec_decode_varint(s);
    (match r {
        Ok(v) => Ok(v),
        Err(DecodeFailure::VarintDecodeError(e)) => Err(StreamDelimitError::VarintDecodeError(e)),
        Err(_) => Err(StreamDelimitError::VarintDecodeMaxAttemptsExceededError),
    }, n)
}

/// Reading one leb128-length-prefixed message from the front of the stream
/// `s`: the message (`None` when the length cannot be read or the message
/// is cut short) and the stream that is left.
pub open spec fn spec_consume_single_leb128(s: Seq<u8>) -> (Option<Seq<u8>>, Seq<u8>) {
    let (r, n) = spec_decode_leb128(s);
    let s1 = s.skip(n as int);
    match r {
        Ok(v) => if (v as usize) <= s1.len() {
            (Some(s1.take(v as usize as int)), s1.skip(v as usize as int))
        } else {
            (None, Seq::empty())
        },
        Err(_) => (None, s1),
    }
}

/// Reads a leb128-encoded number from the front of `read`.
pub fn decode_leb128(read: &mut ByteReader) -> (r: Result<u64, StreamDelimitError>)
    ensures
        r == spec_decode_leb128(old(read)@).0,
        final(read)@ == old(read)@.skip(spec_decode_leb128(old(read)@).1 as int),
{
    match decode_varint(read) {
        Ok(v) => Ok(v),
        Err(DecodeFailure::VarintDecodeError(e)) => Err(StreamDelimitError::VarintDecodeError(e)),
        Err(_) => Err(StreamDelimitError::VarintDecodeMaxAttemptsExceededError),
    }
}

/// Encodes `value` as leb128.
pub fn encode_leb128(value: u64) -> (r: Vec<u8>)
    ensures
        r@ == spec_encode_varint(value as nat),
{
    encode_varint(value)
}

/// Reads one message preceded by its length in leb128. `None` when the
/// length cannot be read or the message is cut short.
pub fn consume_single_leb128(read: &mut ByteReader) -> (r: Option<Vec<u8>>)
    ensures
        ({
            let (m, rest) = spec_consume_single_leb128(old(read)@);
            &&& final(read)@ == rest
            &&& match m {
                Some(b) => r matches Some(v) && v@ == b,
                None => r is None,
            }
        }),
{
    match decode_leb128(read) {
        Ok(x) => read.read_exact(x as usize),
        Err(_) => None,
    }
}

/// A message preceded by its leb128 length is read back as itself, whatever
/// follows it; unlike the newer stream consumers, this holds for the empty
/// message too.
pub proof fn law_leb128_message_reads_back(m: Seq<u8>, rest: Seq<u8>)
    requires
        m.len() <= usize::MAX,
    ensures
        spec_consume_single_leb128(spec_varint_frame(m) + rest) == (Some(m), rest),
{
    let e = spec_encode_varint(m.len());
    let s = spec_varint_frame(m) + rest;
    assert(s =~= e + (m + rest));
    law_decode_encode_varint(m.len() as u64, m + rest);
    assert(s.skip(e.len() as int) =~= m + rest);
    assert((m + rest).take(m.len() as int) =~= m);
    assert((m + rest).skip(m.len() as int) =~= rest);
}

} // verus!
