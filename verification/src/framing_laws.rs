//! What the framings promise across functions: a framed message reads back
//! as itself, and a whole converted stream reads back as its messages.
use vstd::prelude::*;
use crate::byte_consumer::{spec_frame_length, spec_read_frame};
use crate::converter::spec_varint_frame;
use crate::error::StreamDelimitError;
use crate::i32be::spec_i32_be;
use crate::stream::StreamType;
use crate::varint::{law_decode_encode_varint, spec_decode_varint, spec_encode_varint};

verus! {

/// The frames that a run over the stream `s` of type `t` takes, and the
/// error that ended it, if any. A negative `quota` takes every frame;
/// otherwise at most `quota` frames are taken, though one more frame is read
/// (and dropped) before the run stops, so an error in that read still ends
/// the run with that error.
pub open spec fn spec_frame_run(t: StreamType, s: Seq<u8>, quota: int) -> (
    Seq<Seq<u8>>,
    Option<StreamDelimitError>,
)
    decreases s.len(),
{
    let (r, s1) = spec_read_frame(t, s);
    match r {
        Err(e) => (Seq::empty(), Some(e)),
        Ok(None) => (Seq::empty(), None),
        Ok(Some(m)) => if quota == 0 {
            (Seq::empty(), None)
        } else if s1.len() < s.len() {
            let (ms, e) = spec_frame_run(t, s1, if quota > 0 { quota - 1 } else { quota });
            (seq![m] + ms, e)
        } else {
            (seq![m], None)
        },
    }
}

/// The varint-delimited stream of the messages `ms`, each framed by
/// `spec_varint_frame`, one after another.
pub open spec fn spec_varint_stream(ms: Seq<Seq<u8>>) -> Seq<u8>
    decreases ms.len(),
{
    if ms.len() == 0 {
        Seq::empty()
    } else {
        spec_varint_frame(ms[0]) + spec_varint_stream(ms.drop_first())
    }
}

/// The four big-endian bytes of a length below 2^31.
pub open spec fn spec_i32_be_bytes(n: nat) -> Seq<u8> {
    seq![(n / 0x100_0000) as u8, ((n / 0x1_0000) % 0x100) as u8, ((n / 0x100) % 0x100) as u8, (n % 0x100) as u8]
}

/// Reading a frame that is there always consumes at least one byte.
pub proof fn lemma_read_frame_progress(t: StreamType, s: Seq<u8>)
    ensures
        spec_read_frame(t, s).0 matches Ok(Some(_)) ==> spec_read_frame(t, s).1.len() < s.len(),
{
    let (r, s1) = spec_frame_length(t, s);
    if t == StreamType::Varint || t == StreamType::Leb128 {
        let (d, n) = spec_decode_varint(s);
        if d is Ok {
            lemma_varint_len_positive(s, 0);
            assert(n >= 1);
        }
    }
}

/// A varint found at the front of `s` lies within `s`.
pub proof fn lemma_varint_len_le(s: Seq<u8>)
    ensures
        crate::varint::varint_len(s) matches Some(n) ==> 1 <= n <= s.len() && n <= 10,
{
    lemma_varint_len_positive(s, 0);
    lemma_varint_len_at_most_ten(s, 0);
}

proof fn lemma_varint_len_at_most_ten(s: Seq<u8>, i: int)
    requires
        0 <= i,
    ensures
        crate::varint::varint_len_from(s, i) matches Some(n) ==> n <= 10,
    decreases 10 - i,
{
    if 0 <= i < 10 && i < s.len() && s[i] >= 128 {
        lemma_varint_len_at_most_ten(s, i + 1);
    }
}

proof fn lemma_varint_len_positive(s: Seq<u8>, i: int)
    requires
        0 <= i,
    ensures
        crate::varint::varint_len_from(s, i) matches Some(n) ==> n >= i + 1 && n <= s.len(),
    decreases 10 - i,
{
    if 0 <= i < 10 && i < s.len() && s[i] >= 128 {
        lemma_varint_len_positive(s, i + 1);
    }
}

/// A message framed with its varint length reads back from a varint- or
/// leb128-delimited stream as itself, leaving whatever follows untouched.
/// An empty message does not: its zero length ends the stream.
pub proof fn law_varint_frame_reads_back(t: StreamType, m: Seq<u8>, rest: Seq<u8>)
    requires
        t == StreamType::Varint || t == StreamType::Leb128,
        0 < m.len() <= usize::MAX,
    ensures
        spec_read_frame(t, spec_varint_frame(m) + rest) == (
            Ok::<Option<Seq<u8>>, StreamDelimitError>(Some(m)),
            rest,
        ),
{
    let n = m.len() as u64;
    let e = spec_encode_varint(m.len());
    let s = spec_varint_frame(m) + rest;
    assert(s =~= e + (m + rest));
    law_decode_encode_varint(n, m + rest);
    assert(s.skip(e.len() as int) =~= m + rest);
    assert((m + rest).take(m.len() as int) =~= m);
    assert((m + rest).skip(m.len() as int) =~= rest);
}

/// A message preceded by its length as four big-endian bytes reads back from
/// an i32be-delimited stream as itself, leaving whatever follows untouched.
pub proof fn law_i32be_frame_reads_back(m: Seq<u8>, rest: Seq<u8>)
    requires
        0 < m.len() < 0x8000_0000,
    ensures
        spec_read_frame(StreamType::I32BE, spec_i32_be_bytes(m.len()) + m + rest) == (
            Ok::<Option<Seq<u8>>, StreamDelimitError>(Some(m)),
            rest,
        ),
{
    let h = spec_i32_be_bytes(m.len());
    let s = h + m + rest;
    let n = m.len();
    assert(s[0] == h[0] && s[1] == h[1] && s[2] == h[2] && s[3] == h[3]);
    assert(h[0] as int * 0x100_0000 + h[1] as int * 0x1_0000 + h[2] as int * 0x100 + h[3] as int == n) by (nonlinear_arith)
        requires
            n < 0x8000_0000,
            h[0] == (n / 0x100_0000) as u8,
            h[1] == ((n / 0x1_0000) % 0x100) as u8,
            h[2] == ((n / 0x100) % 0x100) as u8,
            h[3] == (n % 0x100) as u8,
    ;
    assert(spec_i32_be(s) == n as i32);
    assert(s.skip(4) =~= m + rest);
    assert((m + rest).take(m.len() as int) =~= m);
    assert((m + rest).skip(m.len() as int) =~= rest);
}

/// Converting messages to a varint-delimited stream and reading that stream
/// back (as varint or as leb128) gives the same messages and no error,
/// provided none is empty.
pub proof fn law_varint_stream_reads_back(t: StreamType, ms: Seq<Seq<u8>>)
    requires
        t == StreamType::Varint || t == StreamType::Leb128,
        forall|i: int| 0 <= i < ms.len() ==> 0 < #[trigger] ms[i].len() <= usize::MAX,
    ensures
        spec_frame_run(t, spec_varint_stream(ms), -1) == (ms, None::<StreamDelimitError>),
    decreases ms.len(),
{
    let s = spec_varint_stream(ms);
    if ms.len() == 0 {
        assert(spec_frame_length(t, s).0 == Ok::<Option<usize>, StreamDelimitError>(None)) by {
            assert(crate::varint::varint_len(s) is None);
        }
        assert(spec_frame_run(t, s, -1).0 =~= Seq::<Seq<u8>>::empty());
    } else {
        let tail = ms.drop_first();
        assert(0 < ms[0].len());
        law_varint_frame_reads_back(t, ms[0], spec_varint_stream(tail));
        lemma_read_frame_progress(t, s);
        assert forall|i: int| 0 <= i < tail.len() implies 0 < #[trigger] tail[i].len() <= usize::MAX by {
            assert(tail[i] == ms[i + 1]);
        }
        law_varint_stream_reads_back(t, tail);
        assert(seq![ms[0]] + tail =~= ms);
    }
}

/// A single-message stream is read as one frame of all its bytes, and nothing
/// after it.
pub proof fn law_single_stream_is_one_frame(s: Seq<u8>)
    requires
        s.len() > 0,
    ensures
        spec_frame_run(StreamType::Single, s, -1) == (seq![s], None::<StreamDelimitError>),
{
    let (r, rest) = spec_read_frame(StreamType::Single, s);
    assert(rest.len() == 0);
    let (r2, rest2) = spec_read_frame(StreamType::Single, rest);
    assert(r2 == Ok::<Option<Seq<u8>>, StreamDelimitError>(None));
    assert(spec_frame_run(StreamType::Single, rest, -1).0 =~= Seq::<Seq<u8>>::empty());
    assert(seq![s] + Seq::<Seq<u8>>::empty() =~= seq![s]);
}

/// A count of `q` frames takes the first `q` frames of the whole stream (all
/// of them when there are fewer).
pub proof fn law_count_takes_a_prefix(t: StreamType, s: Seq<u8>, q: int)
    requires
        q >= 0,
    ensures
        ({
            let all = spec_frame_run(t, s, -1).0;
            spec_frame_run(t, s, q).0 == all.take(if q < all.len() { q } else { all.len() as int })
        }),
    decreases s.len(),
{
    let all = spec_frame_run(t, s, -1).0;
    let (r, s1) = spec_read_frame(t, s);
    lemma_read_frame_progress(t, s);
    match r {
        Ok(Some(m)) => {
            if q == 0 {
                assert(all.take(0) =~= Seq::<Seq<u8>>::empty());
            } else {
                law_count_takes_a_prefix(t, s1, q - 1);
                let rest = spec_frame_run(t, s1, -1).0;
                assert(all == seq![m] + rest);
                let k = if q - 1 < rest.len() { q - 1 } else { rest.len() as int };
                assert(all.take(k + 1) =~= seq![m] + rest.take(k));
            }
        },
        _ => {
            assert(all.take(0) =~= Seq::<Seq<u8>>::empty());
        },
    }
}

/// Extending a stream behind a varint that has ended, or behind ten bytes,
/// does not change how the varint is scanned.
proof fn lemma_varint_len_extend(s: Seq<u8>, rest: Seq<u8>, i: int)
    requires
        0 <= i,
        crate::varint::varint_len_from(s, i) is Some || s.len() >= 10,
    ensures
        crate::varint::varint_len_from(s + rest, i) == crate::varint::varint_len_from(s, i),
    decreases 10 - i,
{
    if i < 10 && i < s.len() {
        assert((s + rest)[i] == s[i]);
        if s[i] >= 128 {
            lemma_varint_len_extend(s, rest, i + 1);
        }
    }
}

/// Once the bytes of a stream settle its next frame, more bytes arriving
/// behind them do not change that frame, or its error, and stay behind
/// what reading it leaves.
pub proof fn law_settled_frame_unchanged(t: StreamType, s: Seq<u8>, rest: Seq<u8>)
    requires
        crate::byte_consumer::frame_settled(t, s),
    ensures
        spec_read_frame(t, s + rest) == (spec_read_frame(t, s).0, spec_read_frame(t, s).1 + rest),
{
    let x = s + rest;
    if t == StreamType::Varint || t == StreamType::Leb128 {
        lemma_varint_len_extend(s, rest, 0);
        lemma_varint_len_le(s);
        match crate::varint::varint_len(s) {
            Some(n) => {
                assert(x.take(n as int) =~= s.take(n as int));
                assert(x.skip(n as int) =~= s.skip(n as int) + rest);
                let s1 = s.skip(n as int);
                let k = spec_decode_varint(s).0->Ok_0 as usize;
                if k != 0 {
                    assert((s1 + rest).take(k as int) =~= s1.take(k as int));
                    assert((s1 + rest).skip(k as int) =~= s1.skip(k as int) + rest);
                }
            },
            None => {
                assert(x.skip(10) =~= s.skip(10) + rest);
            },
        }
    } else if t == StreamType::I32BE {
        assert(x[0] == s[0] && x[1] == s[1] && x[2] == s[2] && x[3] == s[3]);
        assert(spec_i32_be(x) == spec_i32_be(s));
        assert(x.skip(4) =~= s.skip(4) + rest);
        let s1 = s.skip(4);
        let k = spec_i32_be(s) as usize;
        if k != 0 {
            assert((s1 + rest).take(k as int) =~= s1.take(k as int));
            assert((s1 + rest).skip(k as int) =~= s1.skip(k as int) + rest);
        }
    }
}

} // verus!
