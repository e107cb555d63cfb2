//! The decisions of the command runner: which frames of the input stream are
//! decoded or converted, how the message type is named, and when output is
//! pretty-printed.
use vstd::prelude::*;
use crate::byte_consumer::{spec_read_frame, ByteConsumer};
use crate::converter::Converter;
use crate::error::StreamDelimitError;
use crate::framing_laws::{lemma_read_frame_progress, spec_frame_run, spec_varint_stream};
use crate::stream::{FramedRead, StreamType};

verus! {

/// The fully qualified name of a message type, as the decoder looks it up:
/// the name behind a leading dot.
pub fn message_type_path(msgtype: &str) -> (r: String)
    ensures
        r@ == "."@ + msgtype@,
{
    let mut r = String::from_str(".");
    r.append(msgtype);
    r
}

/// Whether output is pretty-printed: when asked for, or when standard output
/// is a terminal.
pub fn use_pretty_json(prettyjson: bool, stdout_is_tty: bool) -> (r: bool)
    ensures
        r == (prettyjson || stdout_is_tty),
{
    if prettyjson {
        prettyjson
    } else {
        stdout_is_tty
    }
}

/// Whether a run limited to `count` frames (none when `count` is negative)
/// stops before taking another, having taken `taken` so far.
pub fn quota_reached(count: i32, taken: usize) -> (r: bool)
    ensures
        r == (count >= 0 && taken >= count),
{
    count >= 0 && taken >= count as usize
}

/// Reads the frames to decode from `consumer`: all of them when `count` is
/// negative, else the first `count`. Reading stops at the end of the stream,
/// after the frame that exceeds `count`, or at an error, which is returned
/// beside the frames read before it.
pub fn read_frames(consumer: &mut ByteConsumer, count: i32) -> (r: (Vec<Vec<u8>>, Option<StreamDelimitError>))
    ensures
        ({
            let (ms, e) = spec_frame_run(old(consumer).stream_type(), old(consumer).pending(), count as int);
            &&& r.0@.map_values(|f: Vec<u8>| f@) == ms
            &&& r.1 == e
        }),
{
    let ghost t = consumer.stream_type();
    let ghost s0 = consumer.pending();
    let total = consumer.remaining();
    let mut frames: Vec<Vec<u8>> = Vec::new();
    let mut ctr: usize = 0;
    let mut buffer: Vec<u8> = Vec::new();
    loop
        invariant
            consumer.stream_type() == t,
            t == old(consumer).stream_type(),
            s0 == old(consumer).pending(),
            total == s0.len(),
            ctr + consumer.pending().len() <= total,
            count < 0 || ctr <= count,
            ctr == frames.len(),
            ({
                let quota = if count < 0 { count as int } else { count - ctr };
                let (ms, e) = spec_frame_run(t, consumer.pending(), quota);
                let (all, e0) = spec_frame_run(t, s0, count as int);
                all == frames@.map_values(|f: Vec<u8>| f@) + ms && e0 == e
            }),
        decreases consumer.pending().len(),
    {
        let ghost before = consumer.pending();
        proof { lemma_read_frame_progress(t, before); }
        match consumer.read_next_frame(&mut buffer) {
            Err(e) => {
                proof {
                    assert(frames@.map_values(|f: Vec<u8>| f@) + Seq::<Seq<u8>>::empty()
                        =~= frames@.map_values(|f: Vec<u8>| f@));
                }
                return (frames, Some(e));
            },
            Ok(false) => {
                proof {
                    assert(frames@.map_values(|f: Vec<u8>| f@) + Seq::<Seq<u8>>::empty()
                        =~= frames@.map_values(|f: Vec<u8>| f@));
                }
                return (frames, None);
            },
            Ok(true) => {
                if quota_reached(count, ctr) {
                    proof {
                        assert(frames@.map_values(|f: Vec<u8>| f@) + Seq::<Seq<u8>>::empty()
                            =~= frames@.map_values(|f: Vec<u8>| f@));
                    }
                    return (frames, None);
                }
                let ghost old_frames = frames@;
                frames.push(crate::reader::copy_bytes(buffer.as_slice()));
                ctr = ctr + 1;
                proof {
                    assert(frames@.map_values(|f: Vec<u8>| f@) =~= old_frames.map_values(|f: Vec<u8>| f@)
                        + seq![buffer@]);
                    let quota_before = if count < 0 { count as int } else { count - (ctr - 1) };
                    let (ms, e) = spec_frame_run(t, consumer.pending(), if quota_before > 0 { quota_before - 1 } else { quota_before });
                    assert(spec_frame_run(t, before, quota_before) == (seq![buffer@] + ms, e));
                    assert(old_frames.map_values(|f: Vec<u8>| f@) + (seq![buffer@] + ms)
                        =~= frames@.map_values(|f: Vec<u8>| f@) + ms);
                }
            },
        }
    }
}

/// Converts the frames of `consumer` to a varint- or leb128-delimited byte
/// stream: all of them when `count` is negative, else the first `count`. A
/// read error ends the stream like its end does.
pub fn convert_frames(consumer: &mut ByteConsumer, stream_dest: StreamType, count: i32) -> (r: Vec<u8>)
    requires
        stream_dest == StreamType::Varint || stream_dest == StreamType::Leb128,
    ensures
        r@ == spec_varint_stream(
            spec_frame_run(old(consumer).stream_type(), old(consumer).pending(), count as int).0,
        ),
{
    let ghost t = consumer.stream_type();
    let ghost s0 = consumer.pending();
    let total = consumer.remaining();
    let converter = Converter::new(stream_dest);
    let mut out: Vec<u8> = Vec::new();
    let mut ctr: usize = 0;
    loop
        invariant
            consumer.stream_type() == t,
            t == old(consumer).stream_type(),
            s0 == old(consumer).pending(),
            total == s0.len(),
            ctr + consumer.pending().len() <= total,
            converter.destination() == stream_dest,
            stream_dest == StreamType::Varint || stream_dest == StreamType::Leb128,
            count < 0 || ctr <= count,
            ({
                let quota = if count < 0 { count as int } else { count - ctr };
                let ms = spec_frame_run(t, consumer.pending(), quota).0;
                let all = spec_frame_run(t, s0, count as int).0;
                spec_varint_stream(all) == out@ + spec_varint_stream(ms)
            }),
        decreases consumer.pending().len(),
    {
        let ghost before = consumer.pending();
        proof { lemma_read_frame_progress(t, before); }
        let item = consumer.next();
        match converter.next(item) {
            None => {
                assert(out@ + Seq::<u8>::empty() =~= out@);
                return out;
            },
            Some(mut framed) => {
                if quota_reached(count, ctr) {
                    assert(out@ + Seq::<u8>::empty() =~= out@);
                    return out;
                }
                let ghost old_out = out@;
                let ghost f = framed@;
                out.append(&mut framed);
                ctr = ctr + 1;
                proof {
                    let quota_before = if count < 0 { count as int } else { count - (ctr - 1) };
                    let ms = spec_frame_run(t, consumer.pending(), if quota_before > 0 { quota_before - 1 } else { quota_before }).0;
                    let all_before = spec_frame_run(t, before, quota_before).0;
                    let m = spec_read_frame(t, before).0->Ok_0->Some_0;
                    assert(all_before == seq![m] + ms);
                    assert((seq![m] + ms).drop_first() =~= ms);
                    assert(old_out + (f + spec_varint_stream(ms)) =~= out@ + spec_varint_stream(ms));
                }
            },
        }
    }
}

} // verus!
