use vstd::prelude::*;
use crate::pq_errors::PqrsError;
use crate::varint::spec_decode_varint;

verus! {

/// The 32-bit number at the front of `bytes`: the varint there, cut to its
/// low 32 bits, or `None` when no varint can be read.
pub open spec fn coded_raw_varint32(bytes: Seq<u8>) -> Option<u32> {
    match spec_decode_varint(bytes).0 {
        Ok(v) => Some(v as u32),
        Err(_) => None,
    }
}

/// protobuf's `CodedInputStream::from_bytes(buf).read_raw_varint32()`: reads
/// a varint (at most ten bytes, seven bits each, least significant first,
/// wrapped to 64 bits; an error when the bytes run out or ten do not end it)
/// and keeps its low 32 bits.
#[verifier::external_body]
fn read_raw_varint32(buf: &[u8]) -> (r: Option<u32>)
    ensures
        r == coded_raw_varint32(buf@),
{
    protobuf::CodedInputStream::from_bytes(buf).read_raw_varint32().ok()
}

/// How the length of a message is given in front of it.
#[derive(Debug, Clone, Copy, PartialEq, Eq, Structural)]
pub enum LengthDelimiter {
    /// A 32-bit varint.
    U32(),
}

/// Stores the length read from a leading varint in `size`, or reports that
/// there was none; `read` is what reading the varint gave.
pub fn size_from_leading_varint(read: Option<u32>, size: &mut usize) -> (r: Result<(), PqrsError>)
    ensures
        match read {
            Some(y) => r is Ok && *final(size) == y as usize,
            None => (r matches Err(PqrsError::NoLeadingVarintError)) && *final(size) == *old(size),
        },
{
    match read {
        Some(y) => {
            *size = y as usize;
            Ok(())
        },
        None => Err(PqrsError::NoLeadingVarintError),
    }
}

impl LengthDelimiter {
    /// Reads the length of the message at the front of `buf` into `size`.
    pub fn parse(&mut self, buf: &[u8], size: &mut usize) -> (r: Result<(), PqrsError>)
        ensures
            *final(self) == *old(self),
            match coded_raw_varint32(buf@) {
                Some(y) => r is Ok && *final(size) == y as usize,
                None => (r matches Err(PqrsError::NoLeadingVarintError)) && *final(size) == *old(size),
            },
    {
        match self {
            LengthDelimiter::U32() => size_from_leading_varint(read_raw_varint32(buf), size),
        }
    }
}

} // verus!
