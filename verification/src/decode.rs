//! Assembling one PCM buffer from what a demuxer and its decoder hand out,
//! unit by unit.
//!
//! Reading a stream yields a run of events: a unit of the selected track that
//! decoded, one that did not, a unit of another track, or a failure of the
//! reader. The rules here say which events are passed over and where the
//! stream ends. Every unit that decoded before the end is kept, and the
//! samples of the kept units, end to end, are the buffer. The first of them
//! fixes the layout of the buffer, which has to hold a positive number of
//! whole frames of that layout.

use vstd::prelude::*;
use crate::pcm::{Layout, PcmBuffer, PcmView, whole_frames};

verus! {

/// Why a demuxer or decoder refused.
#[derive(Clone, Copy, Debug, PartialEq, Eq, Structural)]
pub enum StreamFault {
    /// The source could not be read further; the end of the stream included.
    Io,
    /// The data is malformed.
    Malformed,
    /// A seek failed.
    Seek,
    /// A feature of the container or codec is not supported.
    Unsupported,
    /// A limit that guards against hostile streams was reached.
    Limit,
    /// The track list changed and the decoder would have to be made anew.
    ResetRequired,
}

/// Why a file yields no buffer.
#[derive(Clone, Copy, Debug, PartialEq, Eq, Structural)]
pub enum DecodeError {
    /// The file could not be opened or read.
    Unreadable,
    /// No container format was recognised, or its header is corrupt.
    Container(StreamFault),
    /// The container holds no track.
    NoTrack,
    /// No decoder could be made for the track.
    Codec(StreamFault),
    /// The stream ended without a single sample.
    Empty,
    /// The samples of the stream do not fill whole frames of its layout.
    Ragged,
}

/// What becomes of one event.
#[derive(Clone, Copy, Debug, PartialEq, Eq, Structural)]
pub enum Verdict {
    /// The unit's samples are appended.
    Keep,
    /// The unit is passed over and reading goes on.
    Skip,
    /// The stream ends here; what was kept so far stays.
    Stop,
}

/// One attempt to read and decode a unit.
#[derive(Debug)]
pub enum UnitEvent {
    /// The reader handed out no packet.
    ReadFailed(StreamFault),
    /// The packet belongs to a track other than the selected one.
    Foreign,
    /// The packet decoded to these interleaved samples.
    Decoded { layout: Layout, samples: Vec<u32> },
    /// The decoder refused the packet.
    DecodeFailed(StreamFault),
}

/// A [`UnitEvent`] with its samples as a sequence.
pub enum UnitEventView {
    ReadFailed(StreamFault),
    Foreign,
    Decoded { layout: Layout, samples: Seq<u32> },
    DecodeFailed(StreamFault),
}

impl View for UnitEvent {
    type V = UnitEventView;

    open spec fn view(&self) -> UnitEventView {
        match *self {
            UnitEvent::ReadFailed(fault) => UnitEventView::ReadFailed(fault),
            UnitEvent::Foreign => UnitEventView::Foreign,
            UnitEvent::Decoded { layout, samples } => UnitEventView::Decoded {
                layout,
                samples: samples@,
            },
            UnitEvent::DecodeFailed(fault) => UnitEventView::DecodeFailed(fault),
        }
    }
}

/// The state of an assembly: the layout of the first kept unit, the samples
/// kept so far, and whether the stream has ended.
pub struct Assembly {
    pub layout: Option<Layout>,
    pub samples: Seq<u32>,
    pub stopped: bool,
}

impl Assembly {
    pub open spec fn start() -> Assembly {
        Assembly { layout: None, samples: Seq::empty(), stopped: false }
    }

    /// There are no samples before a unit was kept.
    pub open spec fn wf(self) -> bool {
        self.layout is None ==> self.samples.len() == 0
    }

    /// The rule: a unit that decoded is kept. A reader failure ends the
    /// stream; so does a decoder failure, unless it only says that this unit
    /// is malformed, which is passed over like a unit of another track.
    pub open spec fn verdict(self, event: UnitEventView) -> Verdict {
        if self.stopped {
            Verdict::Stop
        } else {
            match event {
                UnitEventView::ReadFailed(_) => Verdict::Stop,
                UnitEventView::Foreign => Verdict::Skip,
                UnitEventView::Decoded { .. } => Verdict::Keep,
                UnitEventView::DecodeFailed(fault) => if fault == StreamFault::Malformed {
                    Verdict::Skip
                } else {
                    Verdict::Stop
                },
            }
        }
    }

    pub open spec fn step(self, event: UnitEventView) -> Assembly {
        match self.verdict(event) {
            Verdict::Keep => Assembly {
                layout: if self.layout is None {
                    Some(event->layout)
                } else {
                    self.layout
                },
                samples: self.samples + event->samples,
                stopped: false,
            },
            Verdict::Skip => self,
            Verdict::Stop => Assembly { stopped: true, ..self },
        }
    }

    /// The state after `events` have come in, in order, on top of `self`.
    pub open spec fn after(self, events: Seq<UnitEventView>) -> Assembly
        decreases events.len(),
    {
        if events.len() == 0 {
            self
        } else {
            self.after(events.drop_last()).step(events.last())
        }
    }

    /// The state after all of `events`, taken in order from the start.
    pub open spec fn run(events: Seq<UnitEventView>) -> Assembly {
        Assembly::start().after(events)
    }

    /// What the assembly amounts to: the buffer, where the kept samples are
    /// a positive number of whole frames of the layout; the error of an
    /// empty stream, where no sample was kept; and else the error of a ragged
    /// one.
    pub open spec fn outcome(self) -> Result<PcmView, DecodeError> {
        match self.layout {
            Some(layout) if self.samples.len() > 0 => if whole_frames(
                layout.channels,
                self.samples.len(),
            ) {
                Ok(PcmView { layout, samples: self.samples })
            } else {
                Err(DecodeError::Ragged)
            },
            _ => Err(DecodeError::Empty),
        }
    }
}

/// A result with its buffer as a view.
pub open spec fn outcome_view(r: Result<PcmBuffer, DecodeError>) -> Result<PcmView, DecodeError> {
    match r {
        Ok(buffer) => Ok(buffer@),
        Err(e) => Err(e),
    }
}

/// Collects the samples of a stream while its events come in.
pub struct PcmAssembler {
    layout: Option<Layout>,
    samples: Vec<u32>,
    stopped: bool,
}

impl View for PcmAssembler {
    type V = Assembly;

    closed spec fn view(&self) -> Assembly {
        Assembly { layout: self.layout, samples: self.samples@, stopped: self.stopped }
    }
}

impl PcmAssembler {
    #[verifier::type_invariant]
    spec fn inv(self) -> bool {
        self@.wf()
    }

    pub fn new() -> (assembler: PcmAssembler)
        ensures
            assembler@ == Assembly::start(),
    {
        PcmAssembler { layout: None, samples: Vec::new(), stopped: false }
    }

    /// Whether the stream has ended.
    pub fn is_stopped(&self) -> (stopped: bool)
        ensures
            stopped == self@.stopped,
    {
        self.stopped
    }

    /// Takes one event and says what became of it.
    pub fn absorb(&mut self, event: UnitEvent) -> (verdict: Verdict)
        ensures
            verdict == old(self)@.verdict(event@),
            final(self)@ == old(self)@.step(event@),
            final(self)@.wf(),
    {
        proof {
            use_type_invariant(&*self);
        }
        if self.stopped {
            return Verdict::Stop;
        }
        match event {
            UnitEvent::ReadFailed(_) => {
                self.stopped = true;
                Verdict::Stop
            },
            UnitEvent::Foreign => Verdict::Skip,
            UnitEvent::DecodeFailed(fault) => {
                if fault == StreamFault::Malformed {
                    Verdict::Skip
                } else {
                    self.stopped = true;
                    Verdict::Stop
                }
            },
            UnitEvent::Decoded { layout, samples } => {
                let mut unit = samples;
                let mut kept: Vec<u32> = Vec::new();
                core::mem::swap(&mut kept, &mut self.samples);
                kept.append(&mut unit);
                if self.layout.is_none() {
                    self.layout = Some(layout);
                }
                self.samples = kept;
                Verdict::Keep
            },
        }
    }

    /// Ends the assembly. The buffer holds every kept sample; a stream that
    /// gave none, or one whose samples do not fill whole frames, is an error.
    pub fn finish(self) -> (r: Result<PcmBuffer, DecodeError>)
        ensures
            outcome_view(r) == self@.outcome(),
            r matches Ok(buffer) ==> buffer@.wf(),
    {
        proof {
            use_type_invariant(&self);
        }
        match self.layout {
            Some(layout) => {
                if self.samples.len() == 0 {
                    Err(DecodeError::Empty)
                } else {
                    match PcmBuffer::new(layout, self.samples) {
                        Some(buffer) => Ok(buffer),
                        None => Err(DecodeError::Ragged),
                    }
                }
            },
            None => Err(DecodeError::Empty),
        }
    }
}

/// Assembles the buffer of a whole stream from its events in order.
pub fn assemble(events: Vec<UnitEvent>) -> (r: Result<PcmBuffer, DecodeError>)
    ensures
        outcome_view(r) == Assembly::run(events@.map_values(|e: UnitEvent| e@)).outcome(),
        r matches Ok(buffer) ==> buffer@.wf(),
{
    let mut assembler = PcmAssembler::new();
    let ghost all = events@.map_values(|e: UnitEvent| e@);
    for event in it: events
        invariant
            it.seq().map_values(|e: UnitEvent| e@) == all,
            assembler@ == Assembly::run(all.take(it.index())),
    {
        proof {
            let next = all.take(it.index() + 1);
            assert(next.drop_last() == all.take(it.index()));
            assert(next.last() == event@);
            assert(Assembly::run(next) == Assembly::run(next.drop_last()).step(next.last()));
        }
        let _ = assembler.absorb(event);
    }
    proof {
        assert(all.take(all.len() as int) == all);
    }
    assembler.finish()
}

/// The samples of the decoded units among `events`, end to end.
pub open spec fn decoded_samples(events: Seq<UnitEventView>) -> Seq<u32>
    decreases events.len(),
{
    if events.len() == 0 {
        Seq::empty()
    } else {
        match events.last() {
            UnitEventView::Decoded { samples, .. } => decoded_samples(events.drop_last()) + samples,
            _ => decoded_samples(events.drop_last()),
        }
    }
}

/// Whether `event` ends a stream: a failure of the reader, or one of the
/// decoder that says more than that the unit is malformed.
pub open spec fn ends_stream(event: UnitEventView) -> bool {
    match event {
        UnitEventView::ReadFailed(_) => true,
        UnitEventView::Foreign => false,
        UnitEventView::Decoded { .. } => false,
        UnitEventView::DecodeFailed(fault) => fault != StreamFault::Malformed,
    }
}

/// Whether no event of `events` ends the stream.
pub open spec fn goes_on(events: Seq<UnitEventView>) -> bool {
    forall|i: int| 0 <= i < events.len() ==> !ends_stream(#[trigger] events[i])
}

/// Events taken one run after another give the same state as taken at once.
pub proof fn lemma_after_concat(
    state: Assembly,
    first: Seq<UnitEventView>,
    second: Seq<UnitEventView>,
)
    ensures
        state.after(first + second) == state.after(first).after(second),
    decreases second.len(),
{
    if second.len() == 0 {
        assert(first + second == first);
    } else {
        lemma_after_concat(state, first, second.drop_last());
        assert((first + second).drop_last() == first + second.drop_last());
        assert((first + second).last() == second.last());
    }
}

/// Once the stream has ended, no event changes the state.
pub proof fn lemma_stopped_stays(state: Assembly, events: Seq<UnitEventView>)
    requires
        state.stopped,
    ensures
        state.after(events) == state,
    decreases events.len(),
{
    if events.len() > 0 {
        lemma_stopped_stays(state, events.drop_last());
    }
}

/// A stream yields a buffer of one or more whole frames, or an error: never
/// an empty or a ragged buffer.
pub proof fn law_buffer_is_whole_frames(events: Seq<UnitEventView>)
    ensures
        match Assembly::run(events).outcome() {
            Ok(buffer) => buffer.wf() && buffer.samples == Assembly::run(events).samples,
            Err(e) => e == DecodeError::Empty || e == DecodeError::Ragged,
        },
{
}

/// An event that is passed over leaves no trace: the stream gives the same
/// state with it as without it. A malformed unit in the middle of a stream
/// is such an event.
pub proof fn law_skipped_event_leaves_no_trace(
    before: Seq<UnitEventView>,
    event: UnitEventView,
    after: Seq<UnitEventView>,
)
    requires
        Assembly::run(before).verdict(event) == Verdict::Skip,
    ensures
        Assembly::run(before.push(event) + after) == Assembly::run(before + after),
{
    let start = Assembly::start();
    lemma_after_concat(start, before.push(event), after);
    lemma_after_concat(start, before, after);
    assert(before.push(event).drop_last() == before);
}

/// An event that ends the stream keeps what came before it and shuts out
/// what comes after it.
pub proof fn law_stop_keeps_what_came_before(
    before: Seq<UnitEventView>,
    event: UnitEventView,
    after: Seq<UnitEventView>,
)
    requires
        Assembly::run(before).verdict(event) == Verdict::Stop,
    ensures
        Assembly::run(before.push(event) + after).samples == Assembly::run(before).samples,
        Assembly::run(before.push(event) + after).layout == Assembly::run(before).layout,
        Assembly::run(before.push(event) + after).stopped,
{
    let start = Assembly::start();
    lemma_after_concat(start, before.push(event), after);
    assert(before.push(event).drop_last() == before);
    lemma_stopped_stays(start.after(before.push(event)), after);
}

/// While no event ends the stream, the kept samples are those of all the
/// units that decoded, end to end and in order: a unit that did not decode
/// adds nothing, and the units behind it are kept.
pub proof fn law_units_are_concatenated(events: Seq<UnitEventView>)
    requires
        goes_on(events),
    ensures
        Assembly::run(events).samples == decoded_samples(events),
        !Assembly::run(events).stopped,
        Assembly::run(events).wf(),
    decreases events.len(),
{
    if events.len() > 0 {
        let head = events.drop_last();
        assert forall|i: int| 0 <= i < head.len() implies !ends_stream(#[trigger] head[i]) by {
            assert(head[i] == events[i]);
        }
        law_units_are_concatenated(head);
        assert(!ends_stream(events[events.len() - 1]));
    }
}

/// The buffer of a stream is the units that decoded before the event that
/// ends it, end to end and in order; nothing at or behind that event is in
/// it.
pub proof fn law_buffer_is_units_before_the_end(
    before: Seq<UnitEventView>,
    end: UnitEventView,
    after: Seq<UnitEventView>,
)
    requires
        goes_on(before),
        ends_stream(end),
    ensures
        Assembly::run(before.push(end) + after).samples == decoded_samples(before),
        Assembly::run(before.push(end) + after).outcome() == Assembly::run(before).outcome(),
{
    law_units_are_concatenated(before);
    law_stop_keeps_what_came_before(before, end, after);
}

} // verus!
