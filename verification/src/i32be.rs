use vstd::prelude::*;
use crate::reader::ByteReader;

verus! {

/// The four bytes `b[0..4]` read as a big-endian two's-complement 32-bit number.
pub open spec fn spec_i32_be(b: Seq<u8>) -> i32 {
    ((b[0] as int * 0x100_0000 + b[1] as int * 0x1_0000 + b[2] as int * 0x100 + b[3] as int) as u32) as i32
}

/// byteorder's `BigEndian::read_i32`: reads the first four bytes of `buf`
/// as a big-endian two's-complement number (it panics on fewer than four).
#[verifier::external_body]
fn read_i32_be(buf: &[u8]) -> (r: i32)
    requires
        buf@.len() >= 4,
    ensures
        r == spec_i32_be(buf@),
{
    <byteorder::BigEndian as byteorder::ByteOrder>::read_i32(buf)
}

/// Reads a big-endian 32-bit signed integer from the front of `read`. When
/// fewer than four bytes are left, the stream is consumed to its end and
/// `None` is returned.
pub fn read_i32_from(read: &mut ByteReader) -> (r: Option<i32>)
    ensures
        old(read)@.len() >= 4 ==> r == Some(spec_i32_be(old(read)@))
            && final(read)@ == old(read)@.skip(4),
        old(read)@.len() < 4 ==> r is None && final(read)@.len() == 0,
{
    match read.read_exact(4) {
        Some(bytes) => {
            let v = read_i32_be(bytes.as_slice());
            assert(bytes@ == old(read)@.take(4));
            Some(v)
        },
        None => None,
    }
}

/// Reads one message that is preceded by its length as a big-endian 32-bit
/// integer. `None` when the length or the message is cut short.
pub fn consume_single_i32be(read: &mut ByteReader) -> (r: Option<Vec<u8>>)
    ensures
        ({
            let s = old(read)@;
            if s.len() < 4 {
                r is None && final(read)@.len() == 0
            } else {
                let n = spec_i32_be(s) as usize;
                let body = s.skip(4);
                if n <= body.len() {
                    r matches Some(m) && m@ == body.take(n as int)
                        && final(read)@ == body.skip(n as int)
                } else {
                    r is None && final(read)@.len() == 0
                }
            }
        }),
{
    match read_i32_from(read) {
        Some(length) => read.read_exact(length as usize),
        None => None,
    }
}

} // verus!
