use vstd::prelude::*;
use crate::error::{ReadError, StreamDelimitError};
use crate::reader::ByteReader;

verus! {

/// A varint never takes more than this many bytes.
pub const VARINT_MAX_BYTES: usize = 10;

/// 2^64, the modulus of `u64` arithmetic.
pub open spec fn u64_modulus() -> nat {
    0x1_0000_0000_0000_0000
}

/// The number that a little-endian string of base-128 digits denotes: the
/// low seven bits of each byte, least significant group first.
pub open spec fn base128_value(s: Seq<u8>) -> nat
    decreases s.len(),
{
    if s.len() == 0 {
        0
    } else {
        (s[0] % 128) as nat + 128 * base128_value(s.drop_first())
    }
}

/// Scanning `s` from index `i`, the length of the leading varint: one past the
/// first byte below 0x80, provided it is found among the first
/// `VARINT_MAX_BYTES` bytes and before the end of `s`.
pub open spec fn varint_len_from(s: Seq<u8>, i: int) -> Option<nat>
    decreases 10 - i,
{
    if i < 0 || i >= 10 || i >= s.len() {
        None
    } else if s[i] < 128 {
        Some((i + 1) as nat)
    } else {
        varint_len_from(s, i + 1)
    }
}

/// The length of the varint at the front of `s`, if it ends in time.
pub open spec fn varint_len(s: Seq<u8>) -> Option<nat> {
    varint_len_from(s, 0)
}

/// What reading a varint from the front of the stream `s` yields, and how
/// many bytes it consumes: the value (wrapped to 64 bits) when a terminating
/// byte is found within `VARINT_MAX_BYTES`; an end-of-stream error when the
/// stream runs out first; otherwise the too-many-bytes error after ten bytes.
pub open spec fn spec_decode_varint(s: Seq<u8>) -> (Result<u64, StreamDelimitError>, nat) {
    match varint_len(s) {
        Some(n) => (Ok((base128_value(s.take(n as int)) % u64_modulus()) as u64), n),
        None => if s.len() < 10 {
            (Err(StreamDelimitError::VarintDecodeError(ReadError::UnexpectedEof)), s.len())
        } else {
            (Err(StreamDelimitError::VarintDecodeMaxBytesError), 10)
        },
    }
}

/// The varint (unsigned LEB128) encoding of `v`: seven bits per byte, least
/// significant group first, the high bit set on every byte but the last.
pub open spec fn spec_encode_varint(v: nat) -> Seq<u8>
    decreases v,
{
    if v < 128 {
        seq![v as u8]
    } else {
        seq![(128 + v % 128) as u8] + spec_encode_varint(v / 128)
    }
}

/// Reads a varint-encoded number from the front of `read`.
pub fn decode_varint(read: &mut ByteReader) -> (r: Result<u64, StreamDelimitError>)
    ensures
        r == spec_decode_varint(old(read)@).0,
        final(read)@ == old(read)@.skip(spec_decode_varint(old(read)@).1 as int),
{
    let ghost s = read@;
    let mut varint_buf: Vec<u8> = Vec::new();
    let mut i: usize = 0;
    while i < VARINT_MAX_BYTES
        invariant
            i <= 10,
            i <= s.len(),
            s == old(read)@,
            varint_buf@ == s.take(i as int),
            read@ == s.skip(i as int),
            varint_len(s) == varint_len_from(s, i as int),
        decreases 10 - i,
    {
        match read.read_byte() {
            None => {
                assert(s.skip(i as int).len() == 0);
                assert(i == s.len());
                assert(varint_len_from(s, i as int) is None);
                assert(read@ =~= s.skip(s.len() as int));
                return Err(StreamDelimitError::VarintDecodeError(ReadError::UnexpectedEof));
            },
            Some(b) => {
                varint_buf.push(b);
                assert(s[i as int] == b);
                assert(varint_buf@ =~= s.take(i + 1));
                assert(s.skip(i as int).drop_first() =~= s.skip(i + 1));
                if b & 0x80 == 0 {
                    assert(b & 0x80 == 0 ==> b < 128) by (bit_vector);
                    let concat = combine_base128(&varint_buf);
                    return Ok(concat);
                }
                assert(b & 0x80 != 0 ==> b >= 128) by (bit_vector);
            },
        }
        i = i + 1;
    }
    assert(varint_len_from(s, 10) is None);
    Err(StreamDelimitError::VarintDecodeMaxBytesError)
}

/// `((x << 7) | low)` is `x * 128 + low` wrapped to 64 bits.
proof fn lemma_shift_in_digit(x: u64, low: u64)
    requires
        low < 128,
    ensures
        ((x << 7u64) | low) as int == (x as int * 128 + low as int) % (u64_modulus() as int),
{
    assert(((x << 7u64) | low) == (x as int * 128 + low as int) % 0x1_0000_0000_0000_0000int)
        by (bit_vector)
        requires low < 128;
}

/// Combines base-128 digits, least significant first, into their value
/// wrapped to 64 bits.
fn combine_base128(digits: &Vec<u8>) -> (r: u64)
    ensures
        r as int == base128_value(digits@) as int % u64_modulus() as int,
{
    let mut acc: u64 = 0;
    let mut k: usize = digits.len();
    assert(digits@.skip(k as int) =~= Seq::<u8>::empty());
    while k > 0
        invariant
            k <= digits@.len(),
            acc as int == base128_value(digits@.skip(k as int)) as int % u64_modulus() as int,
        decreases k,
    {
        k = k - 1;
        let d: u8 = digits[k];
        let low: u64 = (d & 0x7f) as u64;
        assert(d & 0x7f == d % 128) by (bit_vector);
        let ghost tail = digits@.skip(k + 1);
        assert(digits@.skip(k as int).drop_first() =~= tail);
        proof {
            lemma_shift_in_digit(acc, low);
            let m = u64_modulus() as int;
            let t = base128_value(tail) as int;
            vstd::arithmetic::div_mod::lemma_mul_mod_noop_left(t, 128, m);
            vstd::arithmetic::div_mod::lemma_add_mod_noop(t * 128, low as int, m);
            vstd::arithmetic::div_mod::lemma_add_mod_noop((t % m) * 128, low as int, m);
            vstd::arithmetic::div_mod::lemma_small_mod(low as nat, m as nat);
        }
        acc = (acc << 7u64) | low;
    }
    assert(digits@.skip(0) =~= digits@);
    acc
}

/// Encodes `value` as a varint.
pub fn encode_varint(value: u64) -> (r: Vec<u8>)
    ensures
        r@ == spec_encode_varint(value as nat),
{
    let mut ret: Vec<u8> = Vec::new();
    let mut v: u64 = value;
    while v > 127
        invariant
            ret@ + spec_encode_varint(v as nat) == spec_encode_varint(value as nat),
        decreases v,
    {
        let byte: u8 = 0x80 | (v & 0x7f) as u8;
        assert(0x80 | (v & 0x7f) as u8 == (128 + v % 128) as u8) by (bit_vector);
        assert(v >> 7u64 == v / 128) by (bit_vector);
        let ghost old_ret = ret@;
        ret.push(byte);
        assert(ret@ + spec_encode_varint((v / 128) as nat) =~= old_ret + spec_encode_varint(v as nat));
        v = v >> 7u64;
    }
    ret.push(v as u8);
    assert(ret@ =~= spec_encode_varint(value as nat));
    ret
}

/// 128^k.
pub open spec fn pow128(k: nat) -> nat
    decreases k,
{
    if k == 0 {
        1
    } else {
        128 * pow128((k - 1) as nat)
    }
}

/// The encoding of `v` is a run of bytes with the high bit set, closed by one
/// byte without it, and it denotes `v`.
pub proof fn lemma_encode_varint_shape(v: nat)
    ensures
        spec_encode_varint(v).len() >= 1,
        spec_encode_varint(v).last() < 128,
        forall|j: int| 0 <= j < spec_encode_varint(v).len() - 1 ==> spec_encode_varint(v)[j] >= 128,
        base128_value(spec_encode_varint(v)) == v,
    decreases v,
{
    let e = spec_encode_varint(v);
    if v < 128 {
        assert(e.drop_first() =~= Seq::<u8>::empty());
        assert(base128_value(e) == (e[0] % 128) as nat + 128 * base128_value(e.drop_first()));
    }
    if v >= 128 {
        lemma_encode_varint_shape(v / 128);
        let t = spec_encode_varint(v / 128);
        assert(e.drop_first() =~= t);
        assert(e[0] == (128 + v % 128) as u8);
        assert(e[0] % 128 == v % 128);
        assert(base128_value(e) == (e[0] % 128) as nat + 128 * base128_value(t));
        assert(v == v % 128 + 128 * (v / 128));
        assert forall|j: int| 0 <= j < e.len() - 1 implies e[j] >= 128 by {
            if j > 0 {
                assert(e[j] == t[j - 1]);
            }
        }
    }
}

/// A value below 128^k takes at most k bytes.
pub proof fn lemma_encode_varint_len_bound(v: nat, k: nat)
    requires
        k >= 1,
        v < pow128(k),
    ensures
        spec_encode_varint(v).len() <= k,
    decreases v,
{
    if v >= 128 {
        assert(k >= 2) by {
            if k == 1 {
                assert(pow128(1) == 128 * pow128(0));
            }
        }
        assert(v / 128 < pow128((k - 1) as nat));
        lemma_encode_varint_len_bound(v / 128, (k - 1) as nat);
    }
}

/// Every 64-bit value is encoded in one to ten bytes.
pub proof fn lemma_encode_varint_len(v: u64)
    ensures
        1 <= spec_encode_varint(v as nat).len() <= VARINT_MAX_BYTES,
{
    reveal_with_fuel(pow128, 11);
    assert(pow128(10) == 0x40_0000_0000_0000_0000nat);
    lemma_encode_varint_shape(v as nat);
    lemma_encode_varint_len_bound(v as nat, 10);
}

/// Scanning a stream whose bytes `i .. n-1` carry the high bit and whose byte
/// `n-1` does not finds a varint of length `n`.
proof fn lemma_varint_len_from_run(t: Seq<u8>, i: int, n: int)
    requires
        0 <= i < n <= 10,
        n <= t.len(),
        t[n - 1] < 128,
        forall|j: int| i <= j < n - 1 ==> t[j] >= 128,
    ensures
        varint_len_from(t, i) == Some(n as nat),
    decreases n - i,
{
    if i < n - 1 {
        lemma_varint_len_from_run(t, i + 1, n);
    }
}

/// Reading a varint back from the front of a stream that starts with the
/// encoding of `v` yields `v` and consumes exactly the encoding, whatever
/// follows it.
pub proof fn law_decode_encode_varint(v: u64, rest: Seq<u8>)
    ensures
        spec_decode_varint(spec_encode_varint(v as nat) + rest)
            == (Ok::<u64, StreamDelimitError>(v), spec_encode_varint(v as nat).len()),
{
    let e = spec_encode_varint(v as nat);
    let t = e + rest;
    lemma_encode_varint_len(v);
    lemma_encode_varint_shape(v as nat);
    assert forall|j: int| 0 <= j < e.len() - 1 implies t[j] >= 128 by {
        assert(t[j] == e[j]);
    }
    assert(t[e.len() - 1] == e.last());
    lemma_varint_len_from_run(t, 0, e.len() as int);
    assert(t.take(e.len() as int) =~= e);
    vstd::arithmetic::div_mod::lemma_small_mod(v as nat, u64_modulus());
}

/// The bytes `s` are a shortest-form varint: every byte but the last has
/// the high bit set, the last has it clear, and the last is not zero unless
/// it is the only byte.
pub open spec fn is_shortest_varint(s: Seq<u8>) -> bool {
    &&& s.len() >= 1
    &&& forall|j: int| 0 <= j < s.len() - 1 ==> s[j] >= 128
    &&& s.last() < 128
    &&& (s.len() == 1 || s.last() != 0)
}

/// A base-128 string whose last digit is not zero denotes a positive number.
proof fn lemma_base128_positive(s: Seq<u8>)
    requires
        s.len() >= 1,
        0 < s.last() < 128,
    ensures
        base128_value(s) >= 1,
    decreases s.len(),
{
    if s.len() > 1 {
        let t = s.drop_first();
        assert(t.last() == s.last());
        lemma_base128_positive(t);
    } else {
        assert(s.drop_first() =~= Seq::<u8>::empty());
    }
}

/// Encoding the number that a shortest-form varint denotes gives back its
/// bytes.
proof fn lemma_encode_base128(s: Seq<u8>)
    requires
        is_shortest_varint(s),
    ensures
        spec_encode_varint(base128_value(s)) == s,
    decreases s.len(),
{
    let t = s.drop_first();
    if s.len() == 1 {
        assert(t =~= Seq::<u8>::empty());
        assert(base128_value(s) == s[0] as nat);
        assert(spec_encode_varint(base128_value(s)) =~= s);
    } else {
        assert(t.last() == s.last());
        assert forall|j: int| 0 <= j < t.len() - 1 implies t[j] >= 128 by {
            assert(t[j] == s[j + 1]);
        }
        lemma_encode_base128(t);
        lemma_base128_positive(t);
        let w = base128_value(t);
        let r = (s[0] % 128) as nat;
        let v = base128_value(s);
        assert(v == r + 128 * w);
        assert(s[0] >= 128);
        assert(r == s[0] - 128);
        assert(v % 128 == r && v / 128 == w) by (nonlinear_arith)
            requires
                v == r + 128 * w,
                r < 128,
        ;
        assert(spec_encode_varint(v) == seq![(128 + v % 128) as u8] + spec_encode_varint(v / 128));
        assert(seq![s[0]] + t =~= s);
    }
}

/// Reading a shortest-form varint of at most ten bytes whose value fits in
/// 64 bits gives that value, consuming all of it, and encoding the value
/// gives back the same bytes.
pub proof fn law_encode_decode_varint(s: Seq<u8>)
    requires
        is_shortest_varint(s),
        s.len() <= 10,
        base128_value(s) < u64_modulus(),
    ensures
        spec_decode_varint(s) == (Ok::<u64, StreamDelimitError>(base128_value(s) as u64), s.len()),
        spec_encode_varint(base128_value(s) as u64 as nat) == s,
{
    lemma_varint_len_from_run(s, 0, s.len() as int);
    assert(s.take(s.len() as int) =~= s);
    vstd::arithmetic::div_mod::lemma_small_mod(base128_value(s), u64_modulus());
    lemma_encode_base128(s);
}

} // verus!
