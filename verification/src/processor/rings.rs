//! Sample queues, one per channel, and the bulk moves between them.

use crate::sample::{silence, Sample};
use std::collections::VecDeque;
use vstd::prelude::*;

verus! {

/// `n` samples of silence.
pub open spec fn zeros(n: nat) -> Seq<Sample> {
    Seq::new(n, |i: int| Sample { bits: 0 })
}

/// The first `n` samples of a queue, with silence where it runs short.
pub open spec fn front(s: Seq<Sample>, n: nat) -> Seq<Sample> {
    if s.len() >= n {
        s.take(n as int)
    } else {
        s + zeros((n - s.len()) as nat)
    }
}

/// What is left of a queue once its first `n` samples have gone.
pub open spec fn rest(s: Seq<Sample>, n: nat) -> Seq<Sample> {
    if s.len() >= n {
        s.skip(n as int)
    } else {
        Seq::empty()
    }
}

/// Every queue of `rings` holds `s`.
pub open spec fn all_hold(rings: Seq<VecDeque<Sample>>, s: Seq<Sample>) -> bool {
    forall|ch: int| 0 <= ch < rings.len() ==> (#[trigger] rings[ch])@ == s
}

/// Each queue of `after` is the one of `before` with its first `n` samples gone.
pub open spec fn drained(
    before: Seq<VecDeque<Sample>>,
    after: Seq<VecDeque<Sample>>,
    n: nat,
) -> bool {
    &&& after.len() == before.len()
    &&& forall|ch: int|
        0 <= ch < before.len() ==> (#[trigger] after[ch])@ == rest(before[ch]@, n)
}

/// Each queue of `after` is the one of `before` with `tail(ch)` behind it.
pub open spec fn extended(
    before: Seq<VecDeque<Sample>>,
    after: Seq<VecDeque<Sample>>,
    tail: spec_fn(int) -> Seq<Sample>,
) -> bool {
    &&& after.len() == before.len()
    &&& forall|ch: int|
        0 <= ch < before.len() ==> (#[trigger] after[ch])@ == before[ch]@ + tail(ch)
}

/// One empty queue per channel.
pub fn new_rings(channels: usize, capacity: usize) -> (r: Vec<VecDeque<Sample>>)
    ensures
        r.len() == channels,
        all_hold(r@, Seq::empty()),
{
    let mut r: Vec<VecDeque<Sample>> = Vec::new();
    for ch in 0..channels
        invariant
            r.len() == ch,
            all_hold(r@, Seq::empty()),
    {
        r.push(VecDeque::with_capacity(capacity));
    }
    r
}

/// Puts `n` samples of silence behind one queue.
pub fn append_silence(ring: &mut VecDeque<Sample>, n: usize)
    ensures
        final(ring)@ == old(ring)@ + zeros(n as nat),
{
    ring.reserve(n);
    let ghost before = ring@;
    proof {
        assert(before =~= before + zeros(0));
    }
    for i in 0..n
        invariant
            ring@ == before + zeros(i as nat),
    {
        ring.push_back(silence());
        proof {
            assert(ring@ =~= before + zeros((i + 1) as nat));
        }
    }
}

/// Puts `n` samples of silence behind each queue.
pub fn append_silence_all(rings: &mut Vec<VecDeque<Sample>>, n: usize)
    ensures
        extended(old(rings)@, final(rings)@, |ch: int| zeros(n as nat)),
{
    let ghost before = rings@;
    let channels: usize = rings.len();
    for ch in 0..channels
        invariant
            channels == rings.len(),
            rings.len() == before.len(),
            forall|c: int| ch <= c < before.len() ==> rings@[c] == before[c],
            forall|c: int|
                0 <= c < ch ==> (#[trigger] rings@[c])@ == before[c]@ + zeros(n as nat),
    {
        append_silence(&mut rings[ch], n);
    }
}

/// Empties each queue.
pub fn clear_all(rings: &mut Vec<VecDeque<Sample>>)
    ensures
        final(rings).len() == old(rings).len(),
        all_hold(final(rings)@, Seq::empty()),
{
    let ghost before = rings@;
    let channels: usize = rings.len();
    for ch in 0..channels
        invariant
            channels == rings.len(),
            rings.len() == before.len(),
            forall|c: int| 0 <= c < ch ==> (#[trigger] rings@[c])@ == Seq::<Sample>::empty(),
    {
        rings[ch].clear();
    }
}

/// Replaces what each queue holds by `n` samples of silence.
pub fn prefill_all(rings: &mut Vec<VecDeque<Sample>>, n: usize)
    ensures
        final(rings).len() == old(rings).len(),
        all_hold(final(rings)@, zeros(n as nat)),
{
    clear_all(rings);
    append_silence_all(rings, n);
    proof {
        assert(Seq::<Sample>::empty() + zeros(n as nat) =~= zeros(n as nat));
    }
}

/// Moves everything in each queue of `from` behind the queue of the same
/// channel in `to`.
pub fn move_all(from: &mut Vec<VecDeque<Sample>>, to: &mut Vec<VecDeque<Sample>>)
    requires
        old(from).len() == old(to).len(),
    ensures
        final(from).len() == old(from).len(),
        all_hold(final(from)@, Seq::empty()),
        extended(old(to)@, final(to)@, |ch: int| old(from)@[ch]@),
{
    let ghost f = from@;
    let ghost t = to@;
    let channels: usize = from.len();
    for ch in 0..channels
        invariant
            channels == from.len(),
            from.len() == f.len(),
            to.len() == f.len(),
            t.len() == f.len(),
            forall|c: int| ch <= c < f.len() ==> from@[c] == f[c] && to@[c] == t[c],
            forall|c: int| 0 <= c < ch ==> (#[trigger] from@[c])@ == Seq::<Sample>::empty(),
            forall|c: int| 0 <= c < ch ==> (#[trigger] to@[c])@ == t[c]@ + f[c]@,
    {
        let mut moved: VecDeque<Sample> = VecDeque::new();
        moved.append(&mut from[ch]);
        proof {
            assert(moved@ =~= f[ch as int]@);
        }
        to[ch].append(&mut moved);
    }
}

/// Takes the first `n` samples of a queue, padded with silence.
pub fn bulk_drain(ring: &mut VecDeque<Sample>, n: usize) -> (r: Vec<Sample>)
    ensures
        r@ == front(old(ring)@, n as nat),
        final(ring)@ == rest(old(ring)@, n as nat),
{
    let ghost before = ring@;
    let mut r: Vec<Sample> = Vec::new();
    proof {
        assert(r@ =~= front(before, 0));
        assert(ring@ =~= rest(before, 0));
    }
    for i in 0..n
        invariant
            r@ == front(before, i as nat),
            ring@ == rest(before, i as nat),
    {
        let s = match ring.pop_front() {
            Some(s) => s,
            None => silence(),
        };
        r.push(s);
        proof {
            assert(r@ =~= front(before, (i + 1) as nat));
            assert(ring@ =~= rest(before, (i + 1) as nat));
        }
    }
    r
}

/// Takes the first `n` samples of every queue, padded with silence.
pub fn drain_all(rings: &mut Vec<VecDeque<Sample>>, n: usize) -> (r: Vec<Vec<Sample>>)
    ensures
        r.len() == old(rings).len(),
        forall|ch: int|
            0 <= ch < r.len() ==> (#[trigger] r@[ch])@ == front(old(rings)@[ch]@, n as nat),
        drained(old(rings)@, final(rings)@, n as nat),
{
    let ghost before = rings@;
    let mut r: Vec<Vec<Sample>> = Vec::new();
    let channels: usize = rings.len();
    for ch in 0..channels
        invariant
            channels == rings.len(),
            rings.len() == before.len(),
            r.len() == ch,
            forall|c: int| ch <= c < before.len() ==> rings@[c] == before[c],
            forall|c: int|
                0 <= c < ch ==> (#[trigger] rings@[c])@ == rest(before[c]@, n as nat),
            forall|c: int| 0 <= c < ch ==> (#[trigger] r@[c])@ == front(before[c]@, n as nat),
    {
        let head = bulk_drain(&mut rings[ch], n);
        r.push(head);
    }
    r
}

/// Puts the first `n` samples of `src` behind a queue.
pub fn append_slice(ring: &mut VecDeque<Sample>, src: &[Sample], n: usize)
    requires
        n <= src@.len(),
    ensures
        final(ring)@ == old(ring)@ + src@.take(n as int),
{
    ring.reserve(n);
    let ghost before = ring@;
    proof {
        assert(before =~= before + src@.take(0));
    }
    for i in 0..n
        invariant
            n <= src@.len(),
            ring@ == before + src@.take(i as int),
    {
        ring.push_back(src[i]);
        proof {
            assert(ring@ =~= before + src@.take(i + 1));
        }
    }
}

/// Puts the first `n` samples of each channel of `src` behind the queue of
/// that channel.
pub fn append_block(rings: &mut Vec<VecDeque<Sample>>, src: &Vec<Vec<Sample>>, n: usize)
    requires
        src.len() >= old(rings).len(),
        forall|ch: int| 0 <= ch < old(rings).len() ==> n <= (#[trigger] src@[ch]).len(),
    ensures
        extended(old(rings)@, final(rings)@, |ch: int| src@[ch]@.take(n as int)),
{
    let ghost before = rings@;
    let channels: usize = rings.len();
    for ch in 0..channels
        invariant
            channels == rings.len(),
            rings.len() == before.len(),
            src.len() >= before.len(),
            forall|c: int| 0 <= c < before.len() ==> n <= (#[trigger] src@[c]).len(),
            forall|c: int| ch <= c < before.len() ==> rings@[c] == before[c],
            forall|c: int|
                0 <= c < ch ==> (#[trigger] rings@[c])@ == before[c]@ + src@[c]@.take(n as int),
    {
        append_slice(&mut rings[ch], src[ch].as_slice(), n);
    }
}

/// Writes `head` over the first samples of `dst`.
pub fn overwrite(dst: &mut Vec<Sample>, head: &Vec<Sample>)
    requires
        head.len() <= old(dst).len(),
    ensures
        final(dst)@ == head@ + old(dst)@.skip(head.len() as int),
{
    let ghost before = dst@;
    let n: usize = head.len();
    proof {
        assert(dst@ =~= head@.take(0) + before.skip(0));
    }
    for i in 0..n
        invariant
            n == head.len(),
            n <= before.len(),
            dst@ == head@.take(i as int) + before.skip(i as int),
    {
        dst[i] = head[i];
        proof {
            assert(dst@ =~= head@.take(i + 1) + before.skip(i + 1));
        }
    }
    proof {
        assert(head@.take(n as int) =~= head@);
    }
}

/// Each of the first `channels` blocks of `after` starts with `head(ch)` and
/// goes on as in `before`; the others are as before.
pub open spec fn overwritten(
    before: Seq<Vec<Sample>>,
    after: Seq<Vec<Sample>>,
    channels: nat,
    head: spec_fn(int) -> Seq<Sample>,
) -> bool {
    &&& after.len() == before.len()
    &&& forall|ch: int|
        0 <= ch < channels ==> (#[trigger] after[ch])@ == head(ch) + before[ch]@.skip(
            head(ch).len() as int,
        )
    &&& forall|ch: int| channels <= ch < before.len() ==> after[ch] == before[ch]
}

/// Both blocks have the same channels, each as long as the other's.
pub open spec fn same_shape(a: Seq<Vec<Sample>>, b: Seq<Vec<Sample>>) -> bool {
    &&& a.len() == b.len()
    &&& forall|ch: int| 0 <= ch < a.len() ==> (#[trigger] b[ch]).len() == a[ch].len()
}

/// Writing heads that fit keeps a block's shape.
pub proof fn lemma_overwritten_shape(
    before: Seq<Vec<Sample>>,
    after: Seq<Vec<Sample>>,
    channels: nat,
    head: spec_fn(int) -> Seq<Sample>,
)
    requires
        overwritten(before, after, channels, head),
        before.len() >= channels,
        forall|ch: int|
            0 <= ch < channels ==> head(ch).len() <= (#[trigger] before[ch]).len(),
    ensures
        same_shape(before, after),
{
    assert forall|ch: int| 0 <= ch < before.len() implies (#[trigger] after[ch]).len()
        == before[ch].len() by {
        if ch < channels {
            assert(after[ch]@ == head(ch) + before[ch]@.skip(head(ch).len() as int));
            assert(head(ch).len() <= before[ch].len());
        }
    }
}

/// Takes `n` samples of every queue into the block of its channel, padded
/// with silence.
pub fn drain_into(rings: &mut Vec<VecDeque<Sample>>, block: &mut Vec<Vec<Sample>>, n: usize)
    requires
        old(block).len() >= old(rings).len(),
        forall|ch: int| 0 <= ch < old(rings).len() ==> n <= (#[trigger] old(block)@[ch]).len(),
    ensures
        drained(old(rings)@, final(rings)@, n as nat),
        overwritten(
            old(block)@,
            final(block)@,
            old(rings).len() as nat,
            |ch: int| front(old(rings)@[ch]@, n as nat),
        ),
        same_shape(old(block)@, final(block)@),
{
    let ghost r0 = rings@;
    let ghost b0 = block@;
    let channels: usize = rings.len();
    for ch in 0..channels
        invariant
            channels == rings.len(),
            rings.len() == r0.len(),
            block.len() == b0.len(),
            b0.len() >= r0.len(),
            forall|c: int| 0 <= c < r0.len() ==> n <= (#[trigger] b0[c]).len(),
            forall|c: int| ch <= c < r0.len() ==> rings@[c] == r0[c],
            forall|c: int| ch <= c < b0.len() ==> block@[c] == b0[c],
            forall|c: int| 0 <= c < ch ==> (#[trigger] rings@[c])@ == rest(r0[c]@, n as nat),
            forall|c: int|
                0 <= c < ch ==> (#[trigger] block@[c])@ == front(r0[c]@, n as nat) + b0[c]@.skip(
                    n as int,
                ),
    {
        let head = bulk_drain(&mut rings[ch], n);
        assert(n <= b0[ch as int].len());
        overwrite(&mut block[ch], &head);
    }
    proof {
        lemma_overwritten_shape(
            b0,
            block@,
            channels as nat,
            |ch: int| front(r0[ch]@, n as nat),
        );
    }
}

/// The channels of `src` that there are queues for hold `n` samples.
pub open spec fn channels_fit(src: Seq<Vec<Sample>>, channels: nat, n: nat) -> bool {
    forall|ch: int| 0 <= ch < src.len() && ch < channels ==> n <= (#[trigger] src[ch]).len()
}

/// What a block with `n` samples per channel adds to a queue: nothing where it has
/// no such channel.
pub open spec fn channel_head(src: Seq<Vec<Sample>>, n: nat, ch: int) -> Seq<Sample> {
    if ch < src.len() {
        src[ch]@.take(n as int)
    } else {
        Seq::empty()
    }
}

/// `n` samples have left each of the first `channels` queues.
pub open spec fn drained_first(
    before: Seq<VecDeque<Sample>>,
    after: Seq<VecDeque<Sample>>,
    channels: nat,
    n: nat,
) -> bool {
    &&& after.len() == before.len()
    &&& forall|ch: int|
        0 <= ch < before.len() ==> (#[trigger] after[ch])@ == if ch < channels {
            rest(before[ch]@, n)
        } else {
            before[ch]@
        }
}

/// Puts the first `n` samples of each channel of a block behind its queue, as far
/// as there are channels.
pub fn append_channels(rings: &mut Vec<VecDeque<Sample>>, src: &Vec<Vec<Sample>>, n: usize)
    requires
        channels_fit(src@, old(rings).len() as nat, n as nat),
    ensures
        extended(old(rings)@, final(rings)@, |ch: int| channel_head(src@, n as nat, ch)),
{
    let ghost before = rings@;
    let channels: usize = rings.len();
    for ch in 0..channels
        invariant
            channels == rings.len(),
            rings.len() == before.len(),
            channels_fit(src@, before.len(), n as nat),
            forall|c: int| ch <= c < before.len() ==> rings@[c] == before[c],
            forall|c: int|
                0 <= c < ch ==> (#[trigger] rings@[c])@ == before[c]@ + channel_head(
                    src@,
                    n as nat,
                    c,
                ),
    {
        if ch < src.len() {
            assert(n <= src@[ch as int].len());
            append_slice(&mut rings[ch], src[ch].as_slice(), n);
        } else {
            assert(before[ch as int]@ + Seq::<Sample>::empty() =~= before[ch as int]@);
        }
    }
}

/// Moves `n` samples of each queue to the front of its channel of a block, as far
/// as there are channels; silence where a queue runs out.
pub fn drain_channels(rings: &mut Vec<VecDeque<Sample>>, block: &mut Vec<Vec<Sample>>, n: usize)
    requires
        channels_fit(old(block)@, old(rings).len() as nat, n as nat),
    ensures
        drained_first(old(rings)@, final(rings)@, old(block).len() as nat, n as nat),
        overwritten(
            old(block)@,
            final(block)@,
            vstd::math::min(old(block).len() as int, old(rings).len() as int) as nat,
            |ch: int| front(old(rings)@[ch]@, n as nat),
        ),
        same_shape(old(block)@, final(block)@),
{
    let ghost r0 = rings@;
    let ghost b0 = block@;
    let channels: usize = if rings.len() < block.len() {
        rings.len()
    } else {
        block.len()
    };
    for ch in 0..channels
        invariant
            channels == vstd::math::min(b0.len() as int, r0.len() as int),
            rings.len() == r0.len(),
            block.len() == b0.len(),
            channels_fit(b0, r0.len(), n as nat),
            forall|c: int| ch <= c < r0.len() ==> rings@[c] == r0[c],
            forall|c: int| ch <= c < b0.len() ==> block@[c] == b0[c],
            forall|c: int| 0 <= c < ch ==> (#[trigger] rings@[c])@ == rest(r0[c]@, n as nat),
            forall|c: int|
                0 <= c < ch ==> (#[trigger] block@[c])@ == front(r0[c]@, n as nat) + b0[c]@.skip(
                    n as int,
                ),
    {
        let head = bulk_drain(&mut rings[ch], n);
        assert(n <= b0[ch as int].len());
        overwrite(&mut block[ch], &head);
    }
    proof {
        lemma_overwritten_shape(
            b0,
            block@,
            channels as nat,
            |ch: int| front(r0[ch]@, n as nat),
        );
    }
}

/// Writes `n` samples of silence over the start of the first `channels`
/// blocks.
pub fn silence_blocks(block: &mut Vec<Vec<Sample>>, channels: usize, n: usize)
    requires
        old(block).len() >= channels,
        forall|ch: int| 0 <= ch < channels ==> n <= (#[trigger] old(block)@[ch]).len(),
    ensures
        overwritten(old(block)@, final(block)@, channels as nat, |ch: int| zeros(n as nat)),
{
    let ghost b0 = block@;
    let mut quiet: VecDeque<Sample> = VecDeque::new();
    let head = bulk_drain(&mut quiet, n);
    proof {
        assert(head@ =~= zeros(n as nat));
    }
    for ch in 0..channels
        invariant
            block.len() == b0.len(),
            b0.len() >= channels,
            head@ == zeros(n as nat),
            forall|c: int| 0 <= c < channels ==> n <= (#[trigger] b0[c]).len(),
            forall|c: int| ch <= c < b0.len() ==> block@[c] == b0[c],
            forall|c: int|
                0 <= c < ch ==> (#[trigger] block@[c])@ == zeros(n as nat) + b0[c]@.skip(n as int),
    {
        assert(n <= b0[ch as int].len());
        overwrite(&mut block[ch], &head);
    }
}

}
