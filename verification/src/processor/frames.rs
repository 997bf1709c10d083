//! Decoded frames of interleaved 16-bit PCM, and their way into the sample
//! queues.

use crate::processor::pipeline::{interleaved_index, lemma_interleaved_index};
use crate::processor::rings::{drained, extended, front, rest};
use crate::sample::{dequantised, quantised, silence, Sample};
use std::collections::VecDeque;
use vstd::prelude::*;

verus! {

/// Shape of one decoded frame.
#[derive(Clone, Copy, PartialEq, Eq, Structural, Debug)]
pub struct DecodedFrame {
    pub samples: usize,
    pub channels: usize,
}

/// What channel `src` of a decoded frame holds, its first `skip` samples left
/// out.
pub open spec fn frame_channel(
    pcm: Seq<i16>,
    frame: DecodedFrame,
    skip: nat,
    src: int,
) -> Seq<Sample> {
    Seq::new(
        (frame.samples - skip) as nat,
        |s: int| dequantised(pcm[interleaved_index(skip + s, src, frame.channels as int)]),
    )
}

/// Adds channel `src` of a decoded frame to one queue, its first `skip`
/// samples left out.
pub fn push_frame_channel(
    ring: &mut VecDeque<Sample>,
    pcm: &Vec<i16>,
    frame: DecodedFrame,
    skip: usize,
    src: usize,
)
    requires
        skip <= frame.samples,
        src < frame.channels,
        frame.samples * frame.channels <= pcm.len(),
    ensures
        final(ring)@ == old(ring)@ + frame_channel(pcm@, frame, skip as nat, src as int),
{
    let kept: usize = frame.samples - skip;
    ring.reserve(kept);
    let ghost before = ring@;
    let ghost value = |s: int|
        dequantised(pcm@[interleaved_index(skip + s, src as int, frame.channels as int)]);
    proof {
        assert(before =~= before + Seq::new(0, value));
    }
    for s in 0..kept
        invariant
            kept == frame.samples - skip,
            skip <= frame.samples,
            src < frame.channels,
            frame.samples * frame.channels <= pcm.len(),
            value == (|s: int|
                dequantised(
                    pcm@[interleaved_index(skip + s, src as int, frame.channels as int)],
                )),
            ring@ == before + Seq::new(s as nat, value),
    {
        proof {
            lemma_interleaved_index(
                skip + s,
                src as int,
                frame.samples as int,
                frame.channels as int,
            );
            assert((skip + s) * frame.channels <= frame.samples * frame.channels)
                by (nonlinear_arith)
                requires
                    skip + s < frame.samples,
                    frame.channels >= 0,
            ;
        }
        let f = Sample::dequantise(pcm[(skip + s) * frame.channels + src]);
        ring.push_back(f);
        proof {
            assert(ring@ =~= before + Seq::new((s + 1) as nat, value));
        }
    }
}

/// Takes the first sample of a queue, or silence.
pub fn take_sample(ring: &mut VecDeque<Sample>) -> (r: Sample)
    ensures
        r == front(old(ring)@, 1)[0],
        final(ring)@ == rest(old(ring)@, 1),
{
    let ghost before = ring@;
    match ring.pop_front() {
        Some(s) => {
            proof {
                assert(ring@ =~= rest(before, 1));
            }
            s
        },
        None => {
            proof {
                assert(ring@ =~= rest(before, 1));
            }
            silence()
        },
    }
}

pub proof fn lemma_rest_rest(s: Seq<Sample>, a: nat, b: nat)
    ensures
        rest(rest(s, a), b) == rest(s, a + b),
{
    assert(rest(rest(s, a), b) =~= rest(s, a + b));
}

pub proof fn lemma_front_rest(s: Seq<Sample>, i: nat, n: nat)
    requires
        i < n,
    ensures
        front(rest(s, i), 1)[0] == front(s, n)[i as int],
{
}

/// Takes the next `n` samples of one channel as 16-bit PCM.
pub fn stage_channel(ring: &mut VecDeque<Sample>, n: usize) -> (r: Vec<i16>)
    ensures
        final(ring)@ == rest(old(ring)@, n as nat),
        is_staged(old(ring)@, n as nat, r@),
{
    let ghost before = ring@;
    let mut r: Vec<i16> = Vec::new();
    proof {
        assert(ring@ =~= rest(before, 0));
    }
    for s in 0..n
        invariant
            ring@ == rest(before, s as nat),
            r.len() == s,
            forall|i: int| 0 <= i < s ==> #[trigger] r@[i] == quantised(front(before, n as nat)[i]),
    {
        proof {
            lemma_rest_rest(before, s as nat, 1);
            lemma_front_rest(before, s as nat, n as nat);
        }
        let f = take_sample(ring);
        r.push(f.quantise());
    }
    r
}

/// `pcm` holds the first `n` samples of a queue, quantised.
pub open spec fn is_staged(ring: Seq<Sample>, n: nat, pcm: Seq<i16>) -> bool {
    &&& pcm.len() == n
    &&& forall|i: int| 0 <= i < n ==> #[trigger] pcm[i] == quantised(front(ring, n)[i])
}

/// Taking `a` and then `b` samples takes `a + b`.
pub proof fn lemma_front_split(s: Seq<Sample>, a: nat, b: nat)
    ensures
        front(s, a) + front(rest(s, a), b) == front(s, a + b),
{
    assert(front(s, a) + front(rest(s, a), b) =~= front(s, a + b));
}

/// What stands at place `i` when the first `n` samples of each queue are laid
/// out frame by frame.
pub open spec fn interleaved_sample(rings: Seq<VecDeque<Sample>>, n: nat, i: int) -> Sample {
    front(rings[i % rings.len() as int]@, n)[i / rings.len() as int]
}

/// `frame` is the first `n` samples of each queue, laid out frame by frame.
pub open spec fn is_interleaved(
    rings: Seq<VecDeque<Sample>>,
    n: nat,
    frame: Seq<Sample>,
) -> bool {
    &&& frame.len() == n * rings.len()
    &&& forall|i: int|
        0 <= i < n * rings.len() ==> #[trigger] frame[i] == interleaved_sample(rings, n, i)
}

/// What a frame of `n` interleaved samples holds for channel `ch`.
pub open spec fn channel_of(frame: Seq<Sample>, n: nat, channels: nat, ch: int) -> Seq<Sample> {
    Seq::new(n, |s: int| frame[interleaved_index(s, ch, channels as int)])
}

/// Takes the first `n` samples of each queue, frame by frame.
pub fn drain_interleaved(rings: &mut Vec<VecDeque<Sample>>, n: usize) -> (r: Vec<Sample>)
    requires
        n * old(rings).len() <= usize::MAX,
    ensures
        drained(old(rings)@, final(rings)@, n as nat),
        is_interleaved(old(rings)@, n as nat, r@),
{
    let ghost r0 = rings@;
    let channels: usize = rings.len();
    let mut r: Vec<Sample> = Vec::new();
    proof {
        assert forall|c: int| 0 <= c < r0.len() implies (#[trigger] r0[c])@ == rest(r0[c]@, 0) by {
            assert(r0[c]@ =~= rest(r0[c]@, 0));
        }
        assert(0 * channels == 0) by (nonlinear_arith);
    }
    for s in 0..n
        invariant
            channels == r0.len(),
            rings.len() == r0.len(),
            r.len() == s * channels,
            forall|c: int| 0 <= c < r0.len() ==> (#[trigger] rings@[c])@ == rest(r0[c]@, s as nat),
            forall|i: int|
                0 <= i < s * channels ==> #[trigger] r@[i] == interleaved_sample(r0, n as nat, i),
    {
        for ch in 0..channels
            invariant
                s < n,
                channels == r0.len(),
                rings.len() == r0.len(),
                r.len() == s * channels + ch,
                forall|c: int|
                    0 <= c < ch ==> (#[trigger] rings@[c])@ == rest(r0[c]@, (s + 1) as nat),
                forall|c: int|
                    ch <= c < r0.len() ==> (#[trigger] rings@[c])@ == rest(r0[c]@, s as nat),
                forall|i: int|
                    0 <= i < s * channels + ch ==> #[trigger] r@[i] == interleaved_sample(
                        r0,
                        n as nat,
                        i,
                    ),
        {
            proof {
                lemma_interleaved_index(s as int, ch as int, n as int, channels as int);
                lemma_rest_rest(r0[ch as int]@, s as nat, 1);
                lemma_front_rest(r0[ch as int]@, s as nat, n as nat);
            }
            let f = take_sample(&mut rings[ch]);
            r.push(f);
        }
        proof {
            assert((s + 1) * channels == s * channels + channels) by (nonlinear_arith);
        }
    }
    r
}

/// Puts the samples of one channel of a frame behind a queue.
fn push_interleaved_channel(
    frame: &Vec<Sample>,
    n: usize,
    channels: usize,
    ch: usize,
    ring: &mut VecDeque<Sample>,
)
    requires
        ch < channels,
        frame.len() >= n * channels,
    ensures
        final(ring)@ == old(ring)@ + channel_of(frame@, n as nat, channels as nat, ch as int),
{
    ring.reserve(n);
    let ghost before = ring@;
    proof {
        assert(before =~= before + channel_of(frame@, 0, channels as nat, ch as int));
    }
    for s in 0..n
        invariant
            ch < channels,
            frame.len() >= n * channels,
            ring@ == before + channel_of(frame@, s as nat, channels as nat, ch as int),
    {
        proof {
            lemma_interleaved_index(s as int, ch as int, n as int, channels as int);
            assert(s * channels <= n * channels) by (nonlinear_arith)
                requires
                    s < n,
                    channels >= 0,
            ;
        }
        ring.push_back(frame[s * channels + ch]);
        proof {
            assert(ring@ =~= before + channel_of(
                frame@,
                (s + 1) as nat,
                channels as nat,
                ch as int,
            ));
        }
    }
}

/// Puts a frame of `n` interleaved samples behind the queues.
pub fn push_interleaved(frame: &Vec<Sample>, n: usize, rings: &mut Vec<VecDeque<Sample>>)
    requires
        frame.len() >= n * old(rings).len(),
    ensures
        extended(
            old(rings)@,
            final(rings)@,
            |ch: int| channel_of(frame@, n as nat, old(rings).len() as nat, ch),
        ),
{
    let ghost r0 = rings@;
    let channels: usize = rings.len();
    for ch in 0..channels
        invariant
            channels == r0.len(),
            rings.len() == r0.len(),
            frame.len() >= n * channels,
            forall|c: int|
                0 <= c < ch ==> (#[trigger] rings@[c])@ == r0[c]@ + channel_of(
                    frame@,
                    n as nat,
                    channels as nat,
                    c,
                ),
            forall|c: int| ch <= c < r0.len() ==> rings@[c] == r0[c],
    {
        push_interleaved_channel(frame, n, channels, ch, &mut rings[ch]);
    }
}

/// Laying queues out frame by frame and taking the frame apart again gives
/// back each channel's own samples.
pub proof fn law_interleave_round_trip(
    rings: Seq<VecDeque<Sample>>,
    n: nat,
    frame: Seq<Sample>,
    ch: int,
)
    requires
        is_interleaved(rings, n, frame),
        0 <= ch < rings.len(),
    ensures
        channel_of(frame, n, rings.len(), ch) == front(rings[ch]@, n),
{
    assert forall|s: int| 0 <= s < n implies #[trigger] channel_of(frame, n, rings.len(), ch)[s]
        == front(rings[ch]@, n)[s] by {
        lemma_interleaved_index(s, ch, n as int, rings.len() as int);
        let i = interleaved_index(s, ch, rings.len() as int);
        assert(frame[i] == interleaved_sample(rings, n, i));
    }
    assert(channel_of(frame, n, rings.len(), ch) =~= front(rings[ch]@, n));
}

}
