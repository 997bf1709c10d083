//! The pump between two sets of queues, with or without a resampler in
//! between.

use crate::processor::pipeline::{is_chunk, moved};
use crate::processor::rings::{drain_all, drained, move_all};
use crate::sample::Sample;
use std::collections::VecDeque;
use vstd::prelude::*;

verus! {

/// One step of a pump: everything moves where the rates match; with a
/// resampler the next full chunk is taken out, if there is one.
pub open spec fn pumped(
    from_before: Seq<VecDeque<Sample>>,
    from_after: Seq<VecDeque<Sample>>,
    to_before: Seq<VecDeque<Sample>>,
    to_after: Seq<VecDeque<Sample>>,
    resampled: bool,
    chunk: nat,
    r: Option<Vec<Vec<Sample>>>,
) -> bool {
    &&& !resampled ==> r is None && moved(from_before, from_after, to_before, to_after)
    &&& resampled ==> {
        &&& r is Some <==> from_before[0]@.len() >= chunk
        &&& to_after == to_before
        &&& r is None ==> from_after == from_before
        &&& r matches Some(c) ==> {
            &&& drained(from_before, from_after, chunk)
            &&& is_chunk(c@, from_before, chunk)
        }
    }
}

pub fn pump(
    from: &mut Vec<VecDeque<Sample>>,
    to: &mut Vec<VecDeque<Sample>>,
    resampled: bool,
    chunk: usize,
) -> (r: Option<Vec<Vec<Sample>>>)
    requires
        old(from).len() == old(to).len(),
        old(from).len() >= 1,
    ensures
        pumped(
            old(from)@,
            final(from)@,
            old(to)@,
            final(to)@,
            resampled,
            chunk as nat,
            r,
        ),
        final(from).len() == old(from).len(),
        final(to).len() == old(to).len(),
{
    if !resampled {
        move_all(from, to);
        return None;
    }
    if from[0].len() < chunk {
        return None;
    }
    Some(drain_all(from, chunk))
}

/// ~10 ms of samples, at least one.
pub fn chunk_at(rate: u32) -> (r: usize)
    ensures
        r == if rate < 100 {
            1int
        } else {
            rate as int / 100
        },
{
    let chunk: usize = rate as usize / 100;
    if chunk < 1 {
        1
    } else {
        chunk
    }
}

}
