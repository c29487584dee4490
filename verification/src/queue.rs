//! The handoff queue between the dispatcher and one render callback.
//!
//! The dispatcher is the only producer of a queue and the render callback of
//! its channel the only consumer. The queue has no capacity limit, so a push
//! never waits; a pop never waits either.

use std::collections::VecDeque;
use vstd::prelude::*;
use crate::pcm::SILENCE;

verus! {

/// What a period of `period` slots plays from `queue`: its front samples in
/// order, then silence where the queue has run dry.
pub open spec fn period_output(queue: Seq<u32>, period: nat) -> Seq<u32> {
    Seq::new(period, |i: int| if i < queue.len() { queue[i] } else { SILENCE })
}

/// What is left of `queue` after a period of `period` slots.
pub open spec fn period_rest(queue: Seq<u32>, period: nat) -> Seq<u32> {
    if period < queue.len() {
        queue.skip(period as int)
    } else {
        Seq::empty()
    }
}

/// A first-in, first-out queue of samples.
pub struct HandoffQueue {
    items: VecDeque<u32>,
}

impl View for HandoffQueue {
    type V = Seq<u32>;

    closed spec fn view(&self) -> Seq<u32> {
        self.items@
    }
}

impl HandoffQueue {
    pub fn new() -> (queue: HandoffQueue)
        ensures
            queue@ == Seq::<u32>::empty(),
    {
        HandoffQueue { items: VecDeque::new() }
    }

    pub fn len(&self) -> (n: usize)
        ensures
            n == self@.len(),
    {
        self.items.len()
    }

    pub fn is_empty(&self) -> (empty: bool)
        ensures
            empty == (self@.len() == 0),
    {
        self.items.len() == 0
    }

    /// Appends one sample.
    pub fn push(&mut self, sample: u32)
        ensures
            final(self)@ == old(self)@.push(sample),
    {
        self.items.push_back(sample);
    }

    /// Takes the oldest sample, if there is one.
    pub fn pop(&mut self) -> (sample: Option<u32>)
        ensures
            match sample {
                Some(value) => old(self)@.len() > 0 && value == old(self)@[0] && final(self)@
                    == old(self)@.skip(1),
                None => old(self)@.len() == 0 && final(self)@ == old(self)@,
            },
    {
        self.items.pop_front()
    }

    /// Appends `samples` in order.
    pub fn extend(&mut self, samples: &[u32])
        ensures
            final(self)@ == old(self)@ + samples@,
    {
        let n: usize = samples.len();
        let mut i: usize = 0;
        while i < n
            invariant
                n == samples@.len(),
                i <= n,
                self@ == old(self)@ + samples@.take(i as int),
            decreases n - i,
        {
            self.items.push_back(samples[i]);
            assert(samples@.take(i + 1) == samples@.take(i as int).push(samples@[i as int]));
            i = i + 1;
        }
        assert(samples@.take(n as int) == samples@);
    }

    /// Fills one output period. Each slot takes the oldest queued sample;
    /// once the queue is empty the remaining slots are set to silence, so
    /// that nothing of an earlier period is played again.
    pub fn render(&mut self, out: &mut [u32])
        ensures
            final(out)@ == period_output(old(self)@, old(out)@.len()),
            final(self)@ == period_rest(old(self)@, old(out)@.len()),
    {
        let n: usize = out.len();
        let mut i: usize = 0;
        while i < n
            invariant
                n == out@.len(),
                i <= n,
                self@ == period_rest(old(self)@, i as nat),
                forall|k: int| 0 <= k < i ==> out@[k] == period_output(old(self)@, n as nat)[k],
            decreases n - i,
        {
            match self.items.pop_front() {
                Some(sample) => {
                    out[i] = sample;
                },
                None => {
                    out[i] = SILENCE;
                },
            }
            i = i + 1;
        }
        assert(out@ =~= period_output(old(self)@, n as nat));
    }

    /// A copy of the queued samples, oldest first.
    pub fn to_vec(&self) -> (samples: Vec<u32>)
        ensures
            samples@ == self@,
    {
        let n: usize = self.items.len();
        let mut samples: Vec<u32> = Vec::new();
        let mut i: usize = 0;
        while i < n
            invariant
                n == self@.len(),
                i <= n,
                samples@ == self@.take(i as int),
            decreases n - i,
        {
            samples.push(self.items[i]);
            assert(self@.take(i + 1) == self@.take(i as int).push(self@[i as int]));
            i = i + 1;
        }
        assert(self@.take(n as int) == self@);
        samples
    }
}

/// Streams every sample of `sample` into `queue`, in order.
pub fn play_sample(sample: &[u32], queue: &mut HandoffQueue)
    ensures
        final(queue)@ == old(queue)@ + sample@,
{
    queue.extend(sample);
}

} // verus!
