//! The order in which forced decoding tries the slices of a buffer.
//!
//! Forced decoding starts with the whole buffer and keeps trying smaller
//! windows until one decodes. The windows it tries do not depend on what
//! the attempts give, only on the buffer's length, so they are computed
//! here; the caller makes the attempts in this order and stops at the first
//! that decodes.
use vstd::prelude::*;

verus! {

/// The windows tried in the pass that starts at offset `o`, from position
/// `n` on: `(n, buflen - o)` for each `n` up to `o`, each attempt having
/// moved the offset on by one. `true` when the offset overruns the buffer
/// before the pass ends.
pub open spec fn pass_attempts(buflen: nat, o: nat, n: nat) -> (Seq<(nat, nat)>, bool)
    decreases o + 1 - n,
{
    if n > o {
        (Seq::empty(), false)
    } else if o + n > buflen {
        (Seq::empty(), true)
    } else {
        let (rest, over) = pass_attempts(buflen, o, n + 1);
        (seq![(n, (buflen - o) as nat)] + rest, over)
    }
}

/// All windows tried from the pass at offset `o` on, passes running while
/// the offset is below `buflen`, each pass starting at twice the offset of
/// the one before plus one. `true` when the offset overruns the buffer.
pub open spec fn force_attempts(buflen: nat, o: nat) -> (Seq<(nat, nat)>, bool)
    decreases buflen - o,
{
    if o >= buflen {
        (Seq::empty(), false)
    } else {
        let (here, over) = pass_attempts(buflen, o, 0);
        if over {
            (here, true)
        } else if 2 * o + 1 < buflen {
            let (later, over2) = force_attempts(buflen, 2 * o + 1);
            (here + later, over2)
        } else {
            (here, false)
        }
    }
}

/// The windows `(start, end)` of a buffer of `buflen` bytes that forced
/// decoding tries, in order, and whether the search overruns the buffer
/// after the last of them (where it cannot go on).
pub fn forcefully_decode_attempts(buflen: usize) -> (r: (Vec<(usize, usize)>, bool))
    requires
        buflen < usize::MAX,
    ensures
        r.0@.map_values(|w: (usize, usize)| (w.0 as nat, w.1 as nat)) == force_attempts(buflen as nat, 0).0,
        r.1 == force_attempts(buflen as nat, 0).1,
        forall|k: int| 0 <= k < r.0.len() ==> (#[trigger] r.0@[k]).0 <= r.0@[k].1 <= buflen,
{
    let mut attempts: Vec<(usize, usize)> = Vec::new();
    let mut offset: usize = 0;
    while offset < buflen
        invariant
            buflen < usize::MAX,
            offset <= buflen + 1,
            force_attempts(buflen as nat, 0).0 == attempts@.map_values(|w: (usize, usize)| (w.0 as nat, w.1 as nat))
                + force_attempts(buflen as nat, offset as nat).0,
            force_attempts(buflen as nat, 0).1 == force_attempts(buflen as nat, offset as nat).1,
            forall|k: int| 0 <= k < attempts.len() ==> (#[trigger] attempts@[k]).0 <= attempts@[k].1 <= buflen,
        decreases buflen + 1 - offset,
    {
        let o = offset;
        let ghost before = attempts@.map_values(|w: (usize, usize)| (w.0 as nat, w.1 as nat));
        let mut n: usize = 0;
        while n <= o
            invariant
                buflen < usize::MAX,
                o < buflen,
                n <= o + 1,
                offset <= buflen + 1,
                force_attempts(buflen as nat, 0).0 == before + force_attempts(buflen as nat, o as nat).0,
                force_attempts(buflen as nat, 0).1 == force_attempts(buflen as nat, o as nat).1,
                offset == o + n,
                pass_attempts(buflen as nat, o as nat, 0).0 == attempts@.map_values(|w: (usize, usize)| (w.0 as nat, w.1 as nat)).skip(before.len() as int)
                    + pass_attempts(buflen as nat, o as nat, n as nat).0,
                pass_attempts(buflen as nat, o as nat, 0).1 == pass_attempts(buflen as nat, o as nat, n as nat).1,
                before.len() <= attempts.len(),
                attempts@.map_values(|w: (usize, usize)| (w.0 as nat, w.1 as nat)).take(before.len() as int) == before,
                forall|k: int| 0 <= k < attempts.len() ==> (#[trigger] attempts@[k]).0 <= attempts@[k].1 <= buflen,
            decreases o + 1 - n,
        {
            if offset > buflen {
                // the search cannot go on: the offset has overrun the buffer
                proof {
                    let m = attempts@.map_values(|w: (usize, usize)| (w.0 as nat, w.1 as nat));
                    assert(m =~= before + m.skip(before.len() as int));
                    assert(pass_attempts(buflen as nat, o as nat, n as nat) == (Seq::<(nat, nat)>::empty(), true));
                    assert(force_attempts(buflen as nat, o as nat) == pass_attempts(buflen as nat, o as nat, 0));
                    assert(force_attempts(buflen as nat, 0).0 =~= m + Seq::<(nat, nat)>::empty());
                }
                return (attempts, true);
            }
            let end = buflen - offset + n;
            let ghost old_m = attempts@.map_values(|w: (usize, usize)| (w.0 as nat, w.1 as nat));
            attempts.push((n, end));
            proof {
                let m = attempts@.map_values(|w: (usize, usize)| (w.0 as nat, w.1 as nat));
                assert(m =~= old_m.push((n as nat, end as nat)));
                assert(m.take(before.len() as int) =~= old_m.take(before.len() as int));
                assert(m.skip(before.len() as int) =~= old_m.skip(before.len() as int).push((n as nat, end as nat)));
                assert(pass_attempts(buflen as nat, o as nat, n as nat).0 =~= seq![(n as nat, end as nat)]
                    + pass_attempts(buflen as nat, o as nat, (n + 1) as nat).0);
            }
            offset = offset + 1;
            n = n + 1;
        }
        proof {
            let m = attempts@.map_values(|w: (usize, usize)| (w.0 as nat, w.1 as nat));
            assert(m =~= before + m.skip(before.len() as int));
            assert(pass_attempts(buflen as nat, o as nat, n as nat) == (Seq::<(nat, nat)>::empty(), false));
            assert(offset == 2 * o + 1);
            if offset < buflen {
                assert(force_attempts(buflen as nat, o as nat).0 =~= pass_attempts(buflen as nat, o as nat, 0).0
                    + force_attempts(buflen as nat, offset as nat).0);
            } else {
                assert(force_attempts(buflen as nat, offset as nat) == (Seq::<(nat, nat)>::empty(), false));
                assert(force_attempts(buflen as nat, o as nat) == pass_attempts(buflen as nat, o as nat, 0));
            }
            assert(force_attempts(buflen as nat, 0).0 =~= m + force_attempts(buflen as nat, offset as nat).0);
        }
    }
    proof {
        assert(force_attempts(buflen as nat, offset as nat) == (Seq::<(nat, nat)>::empty(), false));
        let m = attempts@.map_values(|w: (usize, usize)| (w.0 as nat, w.1 as nat));
        assert(m + Seq::<(nat, nat)>::empty() =~= m);
    }
    (attempts, false)
}

} // verus!
