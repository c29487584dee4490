//! The dispatcher on its own: from a note to a channel and a buffer.
//!
//! Where every render callback runs on a thread of its own, each channel's
//! queue is shared with its callback alone. The router then makes the
//! dispatcher's decision without a pool: it names the channel under the
//! cursor and the buffer of the note, and moves the cursor on. Streaming the
//! buffer into that channel's queue is left to the caller, who holds the
//! queue. The decision is the one that [`crate::sampler::Sampler`] makes.

use vstd::prelude::*;
use crate::event::{note_on_of, parse_note_on};
use crate::library::{EntryView, SampleLibrary, lookup};
use crate::pcm::PcmBuffer;
use crate::sampler::SamplerView;

verus! {

/// What a [`Router`] holds.
pub struct RouterView {
    pub library: Seq<EntryView>,
    pub channels: int,
    pub cursor: int,
}

impl RouterView {
    /// The cursor names one of the channels.
    pub open spec fn wf(self) -> bool {
        0 <= self.cursor < self.channels
    }

    /// The state after `note` was routed: the cursor has moved on, wrapping
    /// after the last channel, if the library holds the note.
    pub open spec fn routed(self, note: u8) -> RouterView {
        if lookup(self.library, note) is Some {
            RouterView { cursor: (self.cursor + 1) % self.channels, ..self }
        } else {
            self
        }
    }

    /// Whether the router stands where `sampler` stands: the same library,
    /// as many channels, the same cursor.
    pub open spec fn matches_sampler(self, sampler: SamplerView) -> bool {
        &&& self.library == sampler.library
        &&& self.channels == sampler.channels()
        &&& self.cursor == sampler.pool.cursor
    }
}

/// The sample library and the dispatch cursor.
pub struct Router {
    library: SampleLibrary,
    channels: usize,
    cursor: usize,
}

impl View for Router {
    type V = RouterView;

    closed spec fn view(&self) -> RouterView {
        RouterView {
            library: self.library@,
            channels: self.channels as int,
            cursor: self.cursor as int,
        }
    }
}

impl Router {
    #[verifier::type_invariant]
    spec fn inv(self) -> bool {
        self@.wf()
    }

    /// A router over `channels` channels with the cursor on the first; none
    /// for a count of zero.
    pub fn new(library: SampleLibrary, channels: usize) -> (router: Option<Router>)
        ensures
            match router {
                Some(r) => channels > 0 && r@ == (RouterView {
                    library: library@,
                    channels: channels as int,
                    cursor: 0,
                }),
                None => channels == 0,
            },
    {
        if channels == 0 {
            None
        } else {
            Some(Router { library, channels, cursor: 0 })
        }
    }

    /// The number of channels; never zero.
    pub fn channels(&self) -> (n: usize)
        ensures
            n == self@.channels,
            self@.wf(),
    {
        proof {
            use_type_invariant(self);
        }
        self.channels
    }

    /// The channel that the next buffer goes to.
    pub fn cursor(&self) -> (channel: usize)
        ensures
            channel == self@.cursor,
            self@.wf(),
    {
        proof {
            use_type_invariant(self);
        }
        self.cursor
    }

    /// Handles one trigger. For a note that the library holds, returns the
    /// channel under the cursor and the buffer to stream into its queue, and
    /// moves the cursor on. For any other note returns `None` and changes
    /// nothing.
    pub fn route(&mut self, note: u8) -> (r: Option<(usize, &PcmBuffer)>)
        ensures
            final(self)@ == old(self)@.routed(note),
            old(self)@.wf(),
            final(self)@.wf(),
            match r {
                Some(sent) => lookup(old(self)@.library, note) == Some(sent.1@) && sent.0
                    == old(self)@.cursor && sent.1@.wf(),
                None => lookup(old(self)@.library, note) is None,
            },
    {
        proof {
            use_type_invariant(&*self);
        }
        let channel: usize = self.cursor;
        let next: usize = if channel + 1 == self.channels {
            0
        } else {
            channel + 1
        };
        proof {
            if channel + 1 == self.channels {
                vstd::arithmetic::div_mod::lemma_mod_self_0(self.channels as int);
            } else {
                vstd::arithmetic::div_mod::lemma_small_mod(
                    (channel + 1) as nat,
                    self.channels as nat,
                );
            }
        }
        match self.library.find(note) {
            Some(buffer) => {
                self.cursor = next;
                Some((channel, buffer))
            },
            None => None,
        }
    }

    /// Handles one raw event: a sounding note message is a trigger, any other
    /// message is ignored.
    pub fn route_event(&mut self, message: &[u8]) -> (r: Option<(usize, &PcmBuffer)>)
        ensures
            final(self)@ == match note_on_of(message@) {
                Some(note) => old(self)@.routed(note),
                None => old(self)@,
            },
            old(self)@.wf(),
            final(self)@.wf(),
            match r {
                Some(sent) => note_on_of(message@) matches Some(note) && lookup(
                    old(self)@.library,
                    note,
                ) == Some(sent.1@) && sent.0 == old(self)@.cursor && sent.1@.wf(),
                None => note_on_of(message@) matches Some(note) ==> lookup(
                    old(self)@.library,
                    note,
                ) is None,
            },
    {
        proof {
            use_type_invariant(&*self);
        }
        match parse_note_on(message) {
            Some(note) => self.route(note),
            None => None,
        }
    }
}

/// The router decides as the sampler does: from the same library, channel
/// count and cursor, a note goes to the same channel with the same buffer,
/// and the cursors move alike.
pub proof fn law_router_decides_as_sampler(router: RouterView, sampler: SamplerView, note: u8)
    requires
        sampler.wf(),
        router.matches_sampler(sampler),
    ensures
        router.routed(note).matches_sampler(sampler.after_trigger(note)),
        sampler.target(note) == if lookup(router.library, note) is Some {
            Some(router.cursor)
        } else {
            None
        },
{
}

} // verus!
