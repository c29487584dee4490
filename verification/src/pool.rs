//! The channel pool: a fixed number of render channels, each with its own
//! handoff queue, handed out in rotation.
//!
//! The pool does not mix and does not pre-empt. With more buffers in flight
//! than channels, a buffer is queued behind the one still playing on its
//! channel; callers pick the channel count with that in mind.

use vstd::prelude::*;
use crate::pcm::SILENCE;
use crate::queue::{HandoffQueue, period_output, period_rest};

verus! {

/// What a [`ChannelPool`] holds: the queued samples of each channel, and the
/// channel that the next buffer goes to.
pub struct PoolView {
    pub queues: Seq<Seq<u32>>,
    pub cursor: int,
}

impl PoolView {
    /// The cursor names a channel of the pool.
    pub open spec fn wf(self) -> bool {
        0 <= self.cursor < self.queues.len()
    }

    /// A pool of `channels` empty queues with the cursor on the first.
    pub open spec fn fresh(channels: nat) -> PoolView {
        PoolView { queues: Seq::new(channels, |i: int| Seq::<u32>::empty()), cursor: 0 }
    }

    /// The channel after `channel` in the rotation.
    pub open spec fn next_channel(self, channel: int) -> int {
        (channel + 1) % (self.queues.len() as int)
    }

    /// The pool after `samples` went to the channel under the cursor and the
    /// cursor moved on.
    pub open spec fn dispatched(self, samples: Seq<u32>) -> PoolView {
        PoolView {
            queues: self.queues.update(self.cursor, self.queues[self.cursor] + samples),
            cursor: self.next_channel(self.cursor),
        }
    }

    /// What `channel` plays in a period of `period` slots. A channel that
    /// the pool does not have plays silence.
    pub open spec fn output(self, channel: int, period: nat) -> Seq<u32> {
        if 0 <= channel < self.queues.len() {
            period_output(self.queues[channel], period)
        } else {
            Seq::new(period, |i: int| SILENCE)
        }
    }

    /// The pool after `channel` played a period of `period` slots.
    pub open spec fn rendered(self, channel: int, period: nat) -> PoolView {
        if 0 <= channel < self.queues.len() {
            PoolView {
                queues: self.queues.update(channel, period_rest(self.queues[channel], period)),
                ..self
            }
        } else {
            self
        }
    }
}

/// The render channels and the dispatch cursor.
pub struct ChannelPool {
    queues: Vec<HandoffQueue>,
    cursor: usize,
}

impl View for ChannelPool {
    type V = PoolView;

    closed spec fn view(&self) -> PoolView {
        PoolView {
            queues: self.queues@.map_values(|q: HandoffQueue| q@),
            cursor: self.cursor as int,
        }
    }
}

impl ChannelPool {
    #[verifier::type_invariant]
    spec fn inv(self) -> bool {
        self@.wf()
    }

    /// A pool of `channels` channels, all idle; none for a count of zero.
    pub fn new(channels: usize) -> (pool: Option<ChannelPool>)
        ensures
            match pool {
                Some(p) => channels > 0 && p@ == PoolView::fresh(channels as nat),
                None => channels == 0,
            },
    {
        if channels == 0 {
            return None;
        }
        let mut queues: Vec<HandoffQueue> = Vec::new();
        let mut i: usize = 0;
        while i < channels
            invariant
                i <= channels,
                queues@.len() == i,
                forall|k: int| 0 <= k < i ==> (#[trigger] queues@[k])@ == Seq::<u32>::empty(),
            decreases channels - i,
        {
            queues.push(HandoffQueue::new());
            i = i + 1;
        }
        let pool = ChannelPool { queues, cursor: 0 };
        assert(pool@.queues =~= PoolView::fresh(channels as nat).queues);
        Some(pool)
    }

    /// The number of channels; never zero.
    pub fn len(&self) -> (n: usize)
        ensures
            n == self@.queues.len(),
            self@.wf(),
    {
        proof {
            use_type_invariant(self);
        }
        self.queues.len()
    }

    /// The channel that the next buffer goes to.
    pub fn cursor(&self) -> (channel: usize)
        ensures
            channel == self@.cursor,
            self@.wf(),
    {
        proof {
            use_type_invariant(self);
        }
        self.cursor
    }

    /// Streams `samples` into the queue of the channel under the cursor,
    /// then moves the cursor to the next channel, wrapping after the last.
    /// Returns the channel that took the samples.
    pub fn dispatch(&mut self, samples: &[u32]) -> (channel: usize)
        ensures
            channel == old(self)@.cursor,
            old(self)@.wf(),
            final(self)@ == old(self)@.dispatched(samples@),
            final(self)@.wf(),
    {
        proof {
            use_type_invariant(&*self);
        }
        let channel: usize = self.cursor;
        let n: usize = self.queues.len();
        self.queues[channel].extend(samples);
        self.cursor = if channel + 1 == n {
            0
        } else {
            channel + 1
        };
        proof {
            let c = channel as int;
            if c + 1 == n {
                vstd::arithmetic::div_mod::lemma_mod_self_0(n as int);
            } else {
                vstd::arithmetic::div_mod::lemma_small_mod((c + 1) as nat, n as nat);
            }
            assert(self@.queues =~= old(self)@.dispatched(samples@).queues);
        }
        channel
    }

    /// Fills one output period of `channel` from its queue. Asked for a
    /// channel that the pool does not have, it fills the period with silence.
    pub fn render(&mut self, channel: usize, out: &mut [u32])
        ensures
            final(out)@ == old(self)@.output(channel as int, old(out)@.len()),
            final(self)@ == old(self)@.rendered(channel as int, old(out)@.len()),
            final(self)@.wf(),
    {
        proof {
            use_type_invariant(&*self);
        }
        if channel < self.queues.len() {
            self.queues[channel].render(out);
            assert(self@.queues =~= old(self)@.rendered(channel as int, old(out)@.len()).queues);
        } else {
            let n: usize = out.len();
            let mut i: usize = 0;
            while i < n
                invariant
                    n == out@.len(),
                    i <= n,
                    forall|k: int| 0 <= k < i ==> out@[k] == SILENCE,
                decreases n - i,
            {
                out[i] = SILENCE;
                i = i + 1;
            }
            assert(out@ =~= old(self)@.output(channel as int, n as nat));
        }
    }

    /// The number of samples waiting on `channel`; zero for a channel that
    /// the pool does not have.
    pub fn queued(&self, channel: usize) -> (n: usize)
        ensures
            n == if channel < self@.queues.len() {
                self@.queues[channel as int].len()
            } else {
                0
            },
    {
        if channel < self.queues.len() {
            self.queues[channel].len()
        } else {
            0
        }
    }

    /// A copy of the samples waiting on `channel`, oldest first; empty for a
    /// channel that the pool does not have.
    pub fn snapshot(&self, channel: usize) -> (samples: Vec<u32>)
        ensures
            samples@ == if channel < self@.queues.len() {
                self@.queues[channel as int]
            } else {
                Seq::<u32>::empty()
            },
    {
        if channel < self.queues.len() {
            self.queues[channel].to_vec()
        } else {
            Vec::new()
        }
    }
}

} // verus!
