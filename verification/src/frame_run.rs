//! Taking the frames of a byte stream as its bytes arrive: a run decides,
//! from the bytes fed to it so far, whether the next frame is settled and
//! can be taken, or whether it needs more input first. Whatever bytes arrive
//! later, the frames it hands out and the way it ends are those of the whole
//! stream.
use vstd::prelude::*;
use crate::byte_consumer::{frame_settled, spec_read_frame, ByteConsumer};
use crate::commands::quota_reached;
use crate::error::StreamDelimitError;
use crate::framing_laws::{law_settled_frame_unchanged, lemma_read_frame_progress, spec_frame_run};
use crate::reader::ByteReader;
use crate::stream::{FramedRead, StreamType};

verus! {

/// The frames still to be taken after `taken` of a run limited to `count`:
/// unlimited when `count` is negative.
pub open spec fn quota_left(count: i32, taken: usize) -> int {
    if count < 0 {
        count as int
    } else {
        count - taken
    }
}

/// What a run asks for or hands out next.
pub enum RunStep {
    /// More input is needed before the next frame is settled.
    NeedInput,
    /// The next frame.
    Frame(Vec<u8>),
    /// The run is over, with the error that ended it, if any.
    Done(Option<StreamDelimitError>),
}

/// A run over the frames of a byte stream that arrives piece by piece.
pub struct FrameRun {
    consumer: ByteConsumer,
    count: i32,
    taken: usize,
    eof: bool,
    fed: Ghost<Seq<u8>>,
    emitted: Ghost<Seq<Seq<u8>>>,
}

impl FrameRun {
    /// The bytes fed so far.
    pub closed spec fn fed(&self) -> Seq<u8> {
        self.fed@
    }

    /// The frames handed out so far.
    pub closed spec fn emitted(&self) -> Seq<Seq<u8>> {
        self.emitted@
    }

    /// How the stream is delimited.
    pub closed spec fn stream_type(&self) -> StreamType {
        self.consumer.stream_type()
    }

    /// The most frames the run takes (all when negative).
    pub closed spec fn count(&self) -> i32 {
        self.count
    }

    /// Whether the end of the input has been fed.
    pub closed spec fn at_end(&self) -> bool {
        self.eof
    }

    /// Whether `rest` may still arrive behind the bytes fed so far.
    pub open spec fn may_follow(&self, rest: Seq<u8>) -> bool {
        !self.at_end() || rest.len() == 0
    }

    /// What has been handed out, followed by what the rest of the run will
    /// hand out, is the run over the whole stream, whatever bytes follow.
    pub closed spec fn wf(&self) -> bool {
        &&& self.count >= 0 ==> self.taken <= self.count
        &&& forall|rest: Seq<u8>| #![trigger self.fed@ + rest] self.may_follow(rest) ==> {
            let (ms, e) = spec_frame_run(
                self.consumer.stream_type(),
                self.consumer.pending() + rest,
                quota_left(self.count, self.taken),
            );
            spec_frame_run(self.consumer.stream_type(), self.fed@ + rest, self.count as int) == (self.emitted@ + ms, e)
        }
    }

    /// A run over a stream of type `t` that takes at most `count` frames
    /// (all of them when `count` is negative), with no input yet.
    pub fn new(t: StreamType, count: i32) -> (r: FrameRun)
        ensures
            r.wf(),
            r.fed() == Seq::<u8>::empty(),
            r.emitted() == Seq::<Seq<u8>>::empty(),
            r.stream_type() == t,
            r.count() == count,
            !r.at_end(),
    {
        let consumer = ByteConsumer::new(ByteReader::from_vec(Vec::new()), t);
        let r = FrameRun {
            consumer,
            count,
            taken: 0,
            eof: false,
            fed: Ghost(Seq::empty()),
            emitted: Ghost(Seq::empty()),
        };
        assert forall|rest: Seq<u8>| #![trigger r.fed@ + rest] r.may_follow(rest) implies {
            let (ms, e) = spec_frame_run(t, r.consumer.pending() + rest, quota_left(count, 0));
            spec_frame_run(t, r.fed@ + rest, count as int) == (r.emitted@ + ms, e)
        } by {
            assert(r.consumer.pending() + rest =~= rest);
            assert(r.fed@ + rest =~= rest);
            let (ms, e) = spec_frame_run(t, rest, count as int);
            assert(Seq::<Seq<u8>>::empty() + ms =~= ms);
        }
        r
    }

    /// Feeds the next piece of input; an empty piece marks the end of the
    /// input. Nothing is taken once the end has been fed.
    pub fn feed(&mut self, more: &[u8])
        requires
            old(self).wf(),
        ensures
            final(self).wf(),
            final(self).stream_type() == old(self).stream_type(),
            final(self).count() == old(self).count(),
            final(self).emitted() == old(self).emitted(),
            old(self).at_end() ==> final(self).fed() == old(self).fed() && final(self).at_end(),
            !old(self).at_end() ==> final(self).fed() == old(self).fed() + more@
                && final(self).at_end() == (more@.len() == 0),
    {
        if self.eof {
            return;
        }
        if more.len() == 0 {
            self.eof = true;
            proof {
                assert forall|rest: Seq<u8>| #![trigger self.fed@ + rest] self.may_follow(rest) implies {
                    let (ms, e) = spec_frame_run(
                        self.consumer.stream_type(),
                        self.consumer.pending() + rest,
                        quota_left(self.count, self.taken),
                    );
                    spec_frame_run(self.consumer.stream_type(), self.fed@ + rest, self.count as int) == (self.emitted@ + ms, e)
                } by {
                    assert(old(self).may_follow(rest));
                    assert(old(self).fed@ + rest == self.fed@ + rest);
                }
            }
            return;
        }
        let ghost old_fed = self.fed@;
        let ghost old_pending = self.consumer.pending();
        self.consumer.extend(more);
        self.fed = Ghost(self.fed@ + more@);
        proof {
            assert forall|rest: Seq<u8>| #![trigger self.fed@ + rest] self.may_follow(rest) implies {
                let (ms, e) = spec_frame_run(
                    self.consumer.stream_type(),
                    self.consumer.pending() + rest,
                    quota_left(self.count, self.taken),
                );
                spec_frame_run(self.consumer.stream_type(), self.fed@ + rest, self.count as int) == (self.emitted@ + ms, e)
            } by {
                let r2 = more@ + rest;
                assert(old(self).may_follow(r2));
                assert(old_fed + r2 =~= self.fed@ + rest);
                assert(old_pending + r2 =~= self.consumer.pending() + rest);
                assert(old(self).fed@ + r2 == old_fed + r2);
            }
        }
    }

    /// The next thing the run asks for or hands out. `NeedInput` leaves the
    /// run as it is; a frame is handed out only once no later input can
    /// change it; `Done` ends the run, and what it handed out and the error it
    /// ends with are the run over the whole stream, whatever bytes follow.
    pub fn step(&mut self) -> (r: RunStep)
        requires
            old(self).wf(),
        ensures
            match r {
                RunStep::NeedInput => *final(self) == *old(self) && !old(self).at_end(),
                RunStep::Frame(m) => {
                    &&& final(self).wf()
                    &&& final(self).emitted() == old(self).emitted().push(m@)
                    &&& final(self).fed() == old(self).fed()
                    &&& final(self).at_end() == old(self).at_end()
                    &&& final(self).stream_type() == old(self).stream_type()
                    &&& final(self).count() == old(self).count()
                },
                RunStep::Done(e) => forall|rest: Seq<u8>| old(self).may_follow(rest) ==>
                    #[trigger] spec_frame_run(old(self).stream_type(), old(self).fed() + rest, old(self).count() as int)
                        == (old(self).emitted(), e),
            },
    {
        if !self.eof && !self.consumer.next_frame_settled() {
            return RunStep::NeedInput;
        }
        let ghost t = self.consumer.stream_type();
        let ghost p = self.consumer.pending();
        let ghost q = quota_left(self.count, self.taken);
        let ghost settled = frame_settled(t, p);
        let mut buf: Vec<u8> = Vec::new();
        let got = self.consumer.read_next_frame(&mut buf);
        let ghost (f, s1) = spec_read_frame(t, p);
        proof {
            assert forall|rest: Seq<u8>| old(self).may_follow(rest) implies
                #[trigger] spec_read_frame(t, p + rest) == (f, s1 + rest) by {
                if settled {
                    law_settled_frame_unchanged(t, p, rest);
                } else {
                    assert(rest.len() == 0);
                    assert(p + rest =~= p);
                    assert(s1 + rest =~= s1);
                }
            }
        }
        match got {
            Err(e) => {
                proof {
                    assert forall|rest: Seq<u8>| old(self).may_follow(rest) implies
                        #[trigger] spec_frame_run(t, old(self).fed() + rest, old(self).count() as int)
                            == (old(self).emitted(), Some(e)) by {
                        assert(old(self).fed@ + rest == old(self).fed() + rest);
                        assert(spec_read_frame(t, p + rest) == (f, s1 + rest));
                        assert(old(self).emitted@ + Seq::<Seq<u8>>::empty() =~= old(self).emitted@);
                    }
                }
                RunStep::Done(Some(e))
            },
            Ok(false) => {
                proof {
                    assert forall|rest: Seq<u8>| old(self).may_follow(rest) implies
                        #[trigger] spec_frame_run(t, old(self).fed() + rest, old(self).count() as int)
                            == (old(self).emitted(), None::<StreamDelimitError>) by {
                        assert(old(self).fed@ + rest == old(self).fed() + rest);
                        assert(spec_read_frame(t, p + rest) == (f, s1 + rest));
                        assert(old(self).emitted@ + Seq::<Seq<u8>>::empty() =~= old(self).emitted@);
                    }
                }
                RunStep::Done(None)
            },
            Ok(true) => {
                if quota_reached(self.count, self.taken) {
                    proof {
                        assert(q == 0);
                        assert forall|rest: Seq<u8>| old(self).may_follow(rest) implies
                            #[trigger] spec_frame_run(t, old(self).fed() + rest, old(self).count() as int)
                                == (old(self).emitted(), None::<StreamDelimitError>) by {
                            assert(old(self).fed@ + rest == old(self).fed() + rest);
                            assert(spec_read_frame(t, p + rest) == (f, s1 + rest));
                            assert(old(self).emitted@ + Seq::<Seq<u8>>::empty() =~= old(self).emitted@);
                        }
                    }
                    return RunStep::Done(None);
                }
                if self.count >= 0 {
                    self.taken = self.taken + 1;
                }
                let ghost m = buf@;
                self.emitted = Ghost(self.emitted@.push(m));
                proof {
                    let q2 = quota_left(self.count, self.taken);
                    assert(q2 == (if q > 0 { q - 1 } else { q }));
                    assert forall|rest: Seq<u8>| #![trigger self.fed@ + rest] self.may_follow(rest) implies {
                        let (ms, e) = spec_frame_run(t, self.consumer.pending() + rest, q2);
                        spec_frame_run(t, self.fed@ + rest, self.count as int) == (self.emitted@ + ms, e)
                    } by {
                        assert(old(self).may_follow(rest));
                        assert(old(self).fed@ + rest == self.fed@ + rest);
                        assert(spec_read_frame(t, p + rest) == (f, s1 + rest));
                        lemma_read_frame_progress(t, p + rest);
                        let (ms, e) = spec_frame_run(t, s1 + rest, q2);
                        assert(spec_frame_run(t, p + rest, q) == (seq![m] + ms, e));
                        assert(old(self).emitted@ + (seq![m] + ms) =~= self.emitted@ + ms);
                    }
                }
                RunStep::Frame(buf)
            },
        }
    }
}

} // verus!
