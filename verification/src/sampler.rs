//! The dispatcher: from a note to a buffer on a channel.
//!
//! A trigger is looked up in the library. A note that the library does not
//! hold is ignored without a trace: unmapped notes are part of normal play.
//! A note that it holds has its whole buffer streamed, in order, into the
//! queue of the channel under the cursor, and the cursor moves on, so that
//! the next note plays on another channel and does not cut into this one.
//! A release is not acted upon: a triggered sample plays to its end.

use vstd::prelude::*;
use crate::event::{note_on_of, parse_note_on};
use crate::library::{EntryView, SampleLibrary, lookup};
use crate::pool::{ChannelPool, PoolView};

verus! {

/// What a [`Sampler`] holds.
pub struct SamplerView {
    pub library: Seq<EntryView>,
    pub pool: PoolView,
}

impl SamplerView {
    pub open spec fn wf(self) -> bool {
        self.pool.wf()
    }

    /// The number of channels.
    pub open spec fn channels(self) -> int {
        self.pool.queues.len() as int
    }

    /// The channel that `note` would play on now, if the library holds it.
    pub open spec fn target(self, note: u8) -> Option<int> {
        if lookup(self.library, note) is Some {
            Some(self.pool.cursor)
        } else {
            None
        }
    }

    /// The state after `note` was triggered.
    pub open spec fn after_trigger(self, note: u8) -> SamplerView {
        match lookup(self.library, note) {
            Some(buffer) => SamplerView { pool: self.pool.dispatched(buffer.samples), ..self },
            None => self,
        }
    }

    /// The state after `notes` were triggered one after the other.
    pub open spec fn after_triggers(self, notes: Seq<u8>) -> SamplerView
        decreases notes.len(),
    {
        if notes.len() == 0 {
            self
        } else {
            self.after_triggers(notes.drop_last()).after_trigger(notes.last())
        }
    }

    /// The state after a raw event came in.
    pub open spec fn after_event(self, message: Seq<u8>) -> SamplerView {
        match note_on_of(message) {
            Some(note) => self.after_trigger(note),
            None => self,
        }
    }

    /// The channel that the dispatch `steps` places after the next one uses.
    pub open spec fn channel_in(self, steps: int) -> int {
        (self.pool.cursor + steps) % self.channels()
    }
}

/// The sample library together with the channel pool that plays it.
pub struct Sampler {
    library: SampleLibrary,
    pool: ChannelPool,
}

impl View for Sampler {
    type V = SamplerView;

    closed spec fn view(&self) -> SamplerView {
        SamplerView { library: self.library@, pool: self.pool@ }
    }
}

impl Sampler {
    pub fn new(library: SampleLibrary, pool: ChannelPool) -> (sampler: Sampler)
        ensures
            sampler@ == (SamplerView { library: library@, pool: pool@ }),
    {
        Sampler { library, pool }
    }

    pub fn library(&self) -> (library: &SampleLibrary)
        ensures
            library@ == self@.library,
    {
        &self.library
    }

    pub fn pool(&self) -> (pool: &ChannelPool)
        ensures
            pool@ == self@.pool,
    {
        &self.pool
    }

    /// Handles one trigger. Returns the channel that took the buffer, or
    /// `None` where the library holds no such note and nothing was done.
    pub fn on_trigger(&mut self, note: u8) -> (channel: Option<usize>)
        ensures
            final(self)@ == old(self)@.after_trigger(note),
            match channel {
                Some(c) => old(self)@.target(note) == Some(c as int),
                None => old(self)@.target(note) is None && final(self)@ == old(self)@,
            },
            old(self)@.wf(),
            final(self)@.wf(),
    {
        let _ = self.pool.len();
        match self.library.find(note) {
            Some(buffer) => {
                let channel: usize = self.pool.dispatch(buffer.samples());
                Some(channel)
            },
            None => None,
        }
    }

    /// Handles one raw event: a sounding note message is a trigger, any other
    /// message is ignored.
    pub fn on_event(&mut self, message: &[u8]) -> (channel: Option<usize>)
        ensures
            final(self)@ == old(self)@.after_event(message@),
            match channel {
                Some(c) => note_on_of(message@) matches Some(note) && old(self)@.target(note)
                    == Some(c as int),
                None => final(self)@ == old(self)@ && (note_on_of(message@) matches Some(note)
                    ==> old(self)@.target(note) is None),
            },
            old(self)@.wf(),
            final(self)@.wf(),
    {
        match parse_note_on(message) {
            Some(note) => self.on_trigger(note),
            None => {
                let _ = self.pool.len();
                None
            },
        }
    }

    /// Fills one output period of `channel`; see [`ChannelPool::render`].
    pub fn render(&mut self, channel: usize, out: &mut [u32])
        ensures
            final(out)@ == old(self)@.pool.output(channel as int, old(out)@.len()),
            final(self)@ == (SamplerView {
                pool: old(self)@.pool.rendered(channel as int, old(out)@.len()),
                ..old(self)@
            }),
            final(self)@.wf(),
    {
        self.pool.render(channel, out);
    }
}

/// Channels `i` and `j` places along the rotation differ while fewer than
/// a full round lies between them.
pub proof fn lemma_rotation_distinct(cursor: int, channels: int, i: int, j: int)
    requires
        channels > 0,
        0 <= cursor,
        0 <= i < j < i + channels,
    ensures
        (cursor + i) % channels != (cursor + j) % channels,
{
    let a = cursor + i;
    let b = cursor + j;
    vstd::arithmetic::div_mod::lemma_fundamental_div_mod(a, channels);
    vstd::arithmetic::div_mod::lemma_fundamental_div_mod(b, channels);
    if a % channels == b % channels {
        let k = b / channels - a / channels;
        assert(b - a == channels * k) by (nonlinear_arith)
            requires
                a == channels * (a / channels) + a % channels,
                b == channels * (b / channels) + b % channels,
                a % channels == b % channels,
                k == b / channels - a / channels,
        ;
        assert(false) by (nonlinear_arith)
            requires
                b - a == channels * k,
                0 < b - a < channels,
        ;
    }
}

/// Moving on by one from the channel `steps` places along gives the channel
/// `steps + 1` places along.
pub proof fn lemma_rotation_step(cursor: int, channels: int, steps: int)
    requires
        channels > 0,
        0 <= cursor,
        0 <= steps,
    ensures
        ((cursor + steps) % channels + 1) % channels == (cursor + steps + 1) % channels,
        0 <= (cursor + steps) % channels < channels,
{
    vstd::arithmetic::div_mod::lemma_add_mod_noop_right(1, cursor + steps, channels);
    vstd::arithmetic::div_mod::lemma_mod_bound(cursor + steps, channels);
}

/// A note that the library does not hold has no effect: no queue takes a
/// sample and the cursor stays.
pub proof fn law_unmapped_note_changes_nothing(sampler: SamplerView, note: u8)
    requires
        lookup(sampler.library, note) is None,
    ensures
        sampler.after_trigger(note) == sampler,
        sampler.target(note) is None,
{
}

/// Round robin. Of up to as many mapped notes as there are channels, the
/// note in place `i` lands on the channel `i` places along from the cursor,
/// wrapping after the last channel; with the cursor on the first channel
/// that is channel `i`. Those channels all differ; each takes exactly the
/// buffer of its note behind what it held, and every other queue is
/// untouched.
pub proof fn law_round_robin(sampler: SamplerView, notes: Seq<u8>)
    requires
        sampler.wf(),
        notes.len() <= sampler.channels(),
        forall|i: int| 0 <= i < notes.len() ==> lookup(sampler.library, #[trigger] notes[i]) is Some,
    ensures
        sampler.after_triggers(notes).library == sampler.library,
        sampler.after_triggers(notes).pool.queues.len() == sampler.pool.queues.len(),
        sampler.after_triggers(notes).pool.cursor == sampler.channel_in(notes.len() as int),
        sampler.after_triggers(notes).wf(),
        sampler.pool.cursor == 0 ==> forall|i: int|
            0 <= i < notes.len() ==> #[trigger] sampler.channel_in(i) == i,
        forall|i: int, j: int|
            0 <= i < j < notes.len() ==> #[trigger] sampler.channel_in(i)
                != #[trigger] sampler.channel_in(j),
        forall|i: int|
            0 <= i < notes.len() ==> 0 <= #[trigger] sampler.channel_in(i) < sampler.channels()
                && sampler.after_triggers(notes.take(i)).target(notes[i]) == Some(
                sampler.channel_in(i),
            ) && sampler.after_triggers(notes).pool.queues[sampler.channel_in(i)]
                == sampler.pool.queues[sampler.channel_in(i)] + lookup(
                sampler.library,
                notes[i],
            )->0.samples,
        forall|channel: int|
            0 <= channel < sampler.channels() && (forall|i: int|
                0 <= i < notes.len() ==> #[trigger] sampler.channel_in(i) != channel)
                ==> #[trigger] sampler.after_triggers(notes).pool.queues[channel]
                == sampler.pool.queues[channel],
    decreases notes.len(),
{
    let n = sampler.channels();
    let c = sampler.pool.cursor;
    if c == 0 {
        assert forall|i: int| 0 <= i < notes.len() implies #[trigger] sampler.channel_in(i)
            == i by {
            vstd::arithmetic::div_mod::lemma_small_mod(i as nat, n as nat);
        }
    }
    if notes.len() == 0 {
        vstd::arithmetic::div_mod::lemma_small_mod(c as nat, n as nat);
    } else {
        let k = notes.len() - 1;
        let head = notes.drop_last();
        let note = notes.last();
        assert forall|i: int| 0 <= i < head.len() implies lookup(
            sampler.library,
            #[trigger] head[i],
        ) is Some by {
            assert(head[i] == notes[i]);
        }
        law_round_robin(sampler, head);
        let before = sampler.after_triggers(head);
        let after = sampler.after_triggers(notes);
        assert(after == before.after_trigger(note));
        assert(lookup(sampler.library, notes[k]) is Some);
        let samples = lookup(sampler.library, note)->0.samples;
        lemma_rotation_step(c, n, k);
        assert(before.pool.cursor == sampler.channel_in(k));
        assert(after.pool.cursor == sampler.channel_in(k + 1));
        assert forall|i: int, j: int| 0 <= i < j < notes.len() implies #[trigger] sampler.channel_in(
            i,
        ) != #[trigger] sampler.channel_in(j) by {
            lemma_rotation_distinct(c, n, i, j);
        }
        assert forall|i: int| 0 <= i < notes.len() implies 0 <= #[trigger] sampler.channel_in(i)
            < sampler.channels() && sampler.after_triggers(notes.take(i)).target(notes[i]) == Some(
            sampler.channel_in(i),
        ) && after.pool.queues[sampler.channel_in(i)] == sampler.pool.queues[sampler.channel_in(i)]
            + lookup(sampler.library, notes[i])->0.samples by {
            lemma_rotation_step(c, n, i);
            if i < k {
                assert(head[i] == notes[i]);
                assert(head.take(i) == notes.take(i));
                lemma_rotation_distinct(c, n, i, k);
            } else {
                assert(notes.take(k) == head);
                assert(forall|m: int| 0 <= m < head.len() ==> sampler.channel_in(m)
                    != sampler.channel_in(k)) by {
                    assert forall|m: int| 0 <= m < head.len() implies sampler.channel_in(m)
                        != sampler.channel_in(k) by {
                        lemma_rotation_distinct(c, n, m, k);
                    }
                }
                assert(before.pool.queues[sampler.channel_in(k)]
                    == sampler.pool.queues[sampler.channel_in(k)]);
            }
        }
        assert forall|channel: int|
            0 <= channel < sampler.channels() && (forall|i: int|
                0 <= i < notes.len() ==> #[trigger] sampler.channel_in(i) != channel)
                implies #[trigger] after.pool.queues[channel] == sampler.pool.queues[channel] by {
            assert(sampler.channel_in(k) != channel);
            assert forall|i: int| 0 <= i < head.len() implies #[trigger] sampler.channel_in(i)
                != channel by {
                assert(sampler.channel_in(i) != channel);
            }
            assert(before.pool.queues[channel] == sampler.pool.queues[channel]);
        }
    }
}

/// The cursor wraps exactly once per round: after as many mapped notes as
/// there are channels it is back where it was, so the note after them plays
/// on the channel of the first. From a cursor on the first channel that is
/// channel 0 again.
pub proof fn law_full_round_wraps(sampler: SamplerView, notes: Seq<u8>)
    requires
        sampler.wf(),
        notes.len() == sampler.channels() + 1,
        forall|i: int| 0 <= i < notes.len() ==> lookup(sampler.library, #[trigger] notes[i]) is Some,
    ensures
        sampler.after_triggers(notes.drop_last()).pool.cursor == sampler.pool.cursor,
        sampler.after_triggers(notes.drop_last()).target(notes.last()) == sampler.target(notes[0]),
        sampler.pool.cursor == 0 ==> sampler.after_triggers(notes.drop_last()).target(notes.last())
            == Some(0int),
        sampler.after_triggers(notes).pool.queues[sampler.pool.cursor]
            == sampler.pool.queues[sampler.pool.cursor] + lookup(
            sampler.library,
            notes[0],
        )->0.samples + lookup(sampler.library, notes.last())->0.samples,
{
    let n = sampler.channels();
    let c = sampler.pool.cursor;
    let round = notes.drop_last();
    assert forall|i: int| 0 <= i < round.len() implies lookup(
        sampler.library,
        #[trigger] round[i],
    ) is Some by {
        assert(round[i] == notes[i]);
    }
    law_round_robin(sampler, round);
    vstd::arithmetic::div_mod::lemma_mod_add_multiples_vanish(c, n);
    vstd::arithmetic::div_mod::lemma_small_mod(c as nat, n as nat);
    assert(sampler.channel_in(n) == c);
    assert(sampler.channel_in(0) == c);
    assert(round[0] == notes[0]);
    assert(lookup(sampler.library, notes[0]) is Some);
    assert(lookup(sampler.library, notes[n]) is Some);
    let before = sampler.after_triggers(round);
    assert(sampler.after_triggers(notes) == before.after_trigger(notes.last()));
    assert(before.pool.queues[sampler.channel_in(0)] == sampler.pool.queues[sampler.channel_in(0)]
        + lookup(sampler.library, round[0])->0.samples);
}

} // verus!
