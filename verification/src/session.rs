//! Reading an audio file with the `symphonia` demuxers and decoders.
//!
//! A session takes the bytes of a file, finds its container format and its
//! default track, and makes a decoder for that track. Each step then reads
//! one packet and, where it belongs to the track, decodes it. The first
//! failure of the reader is the end of the session, and it is not read
//! again. [`decode`] runs a session to its end and assembles the buffer.
//!
//! What the decoder hands out is still in its own sample format. Turning it
//! into interleaved single-precision samples is left to a function of the
//! caller, which returns their bit patterns: this library holds no
//! floating-point code.
//!
//! What `symphonia` makes of a file is not proved here. It is a function of
//! the bytes alone, so each of its results has a name, and the contracts say
//! over those names which calls are made and what becomes of each result.
//! The items marked as trusted make the calls. They are only reached with
//! bytes that passed the check of [`crate::screen`].

use vstd::prelude::*;
use crate::decode::{
    Assembly, DecodeError, PcmAssembler, StreamFault, UnitEvent, UnitEventView, Verdict,
    outcome_view,
};
use crate::pcm::{Layout, PcmBuffer, PcmView};
use crate::screen::{admissible, refusal, screen};

verus! {

/// Trusted: `symphonia::core::probe::ProbeResult`, the format reader that a
/// probe found, carried as an opaque value.
#[verifier::external_type_specification]
#[verifier::external_body]
pub struct ExProbeResult(symphonia::core::probe::ProbeResult);

/// Trusted: `symphonia::core::formats::Track`, carried as an opaque value.
#[verifier::external_type_specification]
#[verifier::external_body]
pub struct ExTrack(symphonia::core::formats::Track);

/// Trusted: `symphonia::core::formats::Packet`, carried as an opaque value.
#[verifier::external_type_specification]
#[verifier::external_body]
pub struct ExPacket(symphonia::core::formats::Packet);

/// Trusted: `symphonia::core::audio::AudioBufferRef`, the decoded audio of
/// one packet, borrowed from the decoder and carried as an opaque value.
#[verifier::external_type_specification]
#[verifier::external_body]
pub struct ExAudioBufferRef<'a>(symphonia::core::audio::AudioBufferRef<'a>);

/// The error type of `symphonia`, whose variants the trusted items tell
/// apart.
type Refusal = symphonia::core::errors::Error;

/// Trusted: a boxed `symphonia::core::codecs::Decoder`. The trait object has
/// no type of its own to declare, so it is held in this opaque struct.
#[verifier::external_body]
struct BoxedDecoder {
    inner: Box<dyn symphonia::core::codecs::Decoder>,
}

/// Trusted name: what `Probe::format` of the default probe makes of a file,
/// `None` where it found a format reader and else the fault.
pub uninterp spec fn probe_fault(bytes: Seq<u8>) -> Option<StreamFault>;

/// Trusted name: the id of the track that `FormatReader::default_track`
/// gives for the reader of a file before any packet was asked of it, if it
/// gives one.
pub uninterp spec fn default_track_of(bytes: Seq<u8>) -> Option<u32>;

/// Trusted name: what `CodecRegistry::make` of the default registry makes of
/// the default track of a file, `None` where it made a decoder and else the
/// fault.
pub uninterp spec fn decoder_fault(bytes: Seq<u8>) -> Option<StreamFault>;

/// Trusted name: what the call of `FormatReader::next_packet` after `step`
/// earlier calls gives on the reader of a file: the track id of the packet,
/// or the fault.
pub uninterp spec fn packet_at(bytes: Seq<u8>, step: nat) -> Result<u32, StreamFault>;

/// Trusted name: what `Decoder::decode` gives for the packet read at `step`,
/// after every earlier packet of the default track was decoded in order: the
/// layout of the decoded audio, or the fault.
pub uninterp spec fn audio_at(bytes: Seq<u8>, step: nat) -> Result<Layout, StreamFault>;

/// Trusted: `symphonia::core::io::MediaSourceStream`, carried as an opaque
/// value.
#[verifier::external_type_specification]
#[verifier::external_body]
pub struct ExMediaSourceStream(symphonia::core::io::MediaSourceStream);

/// The bytes of a file as a stream. The ghost field is set by the trusted
/// items alone.
struct Media {
    inner: symphonia::core::io::MediaSourceStream,
    bytes: Ghost<Seq<u8>>,
}

/// The reader of a file, with the bytes it was probed from and the number of
/// packets asked of it. The ghost fields are set by the trusted items alone.
struct Reader {
    inner: symphonia::core::probe::ProbeResult,
    source: Ghost<Seq<u8>>,
    step: Ghost<nat>,
}

/// The default track of a reader.
struct Selected<'a> {
    track: &'a symphonia::core::formats::Track,
    id: u32,
    source: Ghost<Seq<u8>>,
}

/// The decoder of a file's default track, with the step up to which it was
/// given every packet of that track. The ghost fields are set by the trusted
/// items alone.
struct Decoder {
    inner: BoxedDecoder,
    source: Ghost<Seq<u8>>,
    fed: Ghost<nat>,
}

/// One packet, with the step at which it was read.
struct Read {
    packet: symphonia::core::formats::Packet,
    track: u32,
    source: Ghost<Seq<u8>>,
    step: Ghost<nat>,
}

/// Whether the reader handed out no packet of `track` from step `from` up to
/// step `to`.
pub open spec fn none_of_track(bytes: Seq<u8>, track: u32, from: nat, to: nat) -> bool {
    forall|j: nat| from <= j < to ==> #[trigger] packet_at(bytes, j) != Ok::<u32, StreamFault>(track)
}

/// Trusted: `MediaSourceStream::new` with default options, over the bytes
/// in memory. The stream holds the bytes.
#[verifier::external_body]
fn media_source(bytes: Vec<u8>) -> (media: Media)
    ensures
        media.bytes@ == bytes@,
{
    let ghost held = bytes@;
    let source = Box::new(std::io::Cursor::new(bytes));
    Media {
        inner: symphonia::core::io::MediaSourceStream::new(source, Default::default()),
        bytes: Ghost(held),
    }
}

/// Trusted: `Probe::format` on the default probe, with an empty hint and
/// default options. The result is `probe_fault` of the bytes, and the reader
/// is at its first packet. Bytes that did not pass the check are left out.
#[verifier::external_body]
fn probe(media: Media) -> (r: Result<Reader, StreamFault>)
    requires
        admissible(media.bytes@),
    ensures
        match r {
            Ok(reader) => probe_fault(media.bytes@) is None && reader.source@ == media.bytes@
                && reader.step@ == 0,
            Err(fault) => probe_fault(media.bytes@) == Some(fault),
        },
{
    let hint = symphonia::core::probe::Hint::new();
    let options = (Default::default(), Default::default());
    match symphonia::default::get_probe().format(&hint, media.inner, &options.0, &options.1) {
        Ok(inner) => Ok(Reader { inner, source: Ghost(media.bytes@), step: Ghost(0) }),
        Err(Refusal::IoError(_)) => Err(StreamFault::Io),
        Err(Refusal::DecodeError(_)) => Err(StreamFault::Malformed),
        Err(Refusal::SeekError(_)) => Err(StreamFault::Seek),
        Err(Refusal::Unsupported(_)) => Err(StreamFault::Unsupported),
        Err(Refusal::LimitError(_)) => Err(StreamFault::Limit),
        Err(Refusal::ResetRequired) => Err(StreamFault::ResetRequired),
    }
}

/// Trusted: `FormatReader::default_track`, with the field `id` of the track,
/// on a reader that was asked for no packet yet. The id is
/// `default_track_of` of the reader's bytes.
#[verifier::external_body]
fn default_track(reader: &Reader) -> (r: Option<Selected<'_>>)
    requires
        reader.step@ == 0,
    ensures
        match r {
            Some(selected) => default_track_of(reader.source@) == Some(selected.id)
                && selected.source@ == reader.source@,
            None => default_track_of(reader.source@) is None,
        },
{
    reader.inner.format.default_track().map(
        |track| Selected { track, id: track.id, source: Ghost(reader.source@) },
    )
}

/// Trusted: `CodecRegistry::make` on the default registry, with the track's
/// codec parameters and default options. The result is `decoder_fault` of
/// the bytes, and the decoder has been given no packet. Bytes that did not
/// pass the check are left out.
#[verifier::external_body]
fn make_decoder(selected: &Selected<'_>) -> (r: Result<Decoder, StreamFault>)
    requires
        admissible(selected.source@),
    ensures
        match r {
            Ok(decoder) => decoder_fault(selected.source@) is None && decoder.source@
                == selected.source@ && decoder.fed@ == 0,
            Err(fault) => decoder_fault(selected.source@) == Some(fault),
        },
{
    match symphonia::default::get_codecs().make(&selected.track.codec_params, &Default::default()) {
        Ok(inner) => Ok(Decoder { inner: BoxedDecoder { inner }, source: Ghost(selected.source@), fed: Ghost(0) }),
        Err(Refusal::IoError(_)) => Err(StreamFault::Io),
        Err(Refusal::DecodeError(_)) => Err(StreamFault::Malformed),
        Err(Refusal::SeekError(_)) => Err(StreamFault::Seek),
        Err(Refusal::Unsupported(_)) => Err(StreamFault::Unsupported),
        Err(Refusal::LimitError(_)) => Err(StreamFault::Limit),
        Err(Refusal::ResetRequired) => Err(StreamFault::ResetRequired),
    }
}

/// Trusted: `FormatReader::next_packet`, with `Packet::track_id` of the
/// packet. The result is `packet_at` of the reader's bytes and step, and the
/// reader is one step on. Bytes that did not pass the check are left out.
#[verifier::external_body]
fn next_packet(reader: &mut Reader) -> (r: Result<Read, StreamFault>)
    requires
        admissible(old(reader).source@),
    ensures
        final(reader).source@ == old(reader).source@,
        final(reader).step@ == old(reader).step@ + 1,
        match r {
            Ok(read) => packet_at(old(reader).source@, old(reader).step@) == Ok::<u32, StreamFault>(
                read.track,
            ) && read.source@ == old(reader).source@ && read.step@ == old(reader).step@,
            Err(fault) => packet_at(old(reader).source@, old(reader).step@) == Err::<
                u32,
                StreamFault,
            >(fault),
        },
{
    match reader.inner.format.next_packet() {
        Ok(packet) => Ok(Read { track: packet.track_id(), packet, source: Ghost(reader.source@), step: Ghost(reader.step@) }),
        Err(Refusal::IoError(_)) => Err(StreamFault::Io),
        Err(Refusal::DecodeError(_)) => Err(StreamFault::Malformed),
        Err(Refusal::SeekError(_)) => Err(StreamFault::Seek),
        Err(Refusal::Unsupported(_)) => Err(StreamFault::Unsupported),
        Err(Refusal::LimitError(_)) => Err(StreamFault::Limit),
        Err(Refusal::ResetRequired) => Err(StreamFault::ResetRequired),
    }
}

/// Trusted: `Decoder::decode`, with the rate and the channel count of
/// `AudioBufferRef::spec`. It is called for a packet of the default track,
/// when the decoder was given every earlier packet of that track; the result
/// is then `audio_at` of the bytes and the packet's step. Bytes that did not
/// pass the check are left out.
#[verifier::external_body]
fn decode_packet<'a>(decoder: &'a mut Decoder, read: &Read) -> (r: Result<
    (Layout, symphonia::core::audio::AudioBufferRef<'a>),
    StreamFault,
>)
    requires
        admissible(old(decoder).source@),
        read.source@ == old(decoder).source@,
        default_track_of(read.source@) == Some(read.track),
        old(decoder).fed@ <= read.step@,
        none_of_track(read.source@, read.track, old(decoder).fed@, read.step@),
    ensures
        final(decoder).source@ == old(decoder).source@,
        final(decoder).fed@ == read.step@ + 1,
        match r {
            Ok(heard) => audio_at(read.source@, read.step@) == Ok::<Layout, StreamFault>(heard.0),
            Err(fault) => audio_at(read.source@, read.step@) == Err::<Layout, StreamFault>(fault),
        },
{
    match decoder.inner.inner.decode(&read.packet) {
        Ok(audio) => Ok((Layout { rate: audio.spec().rate, channels: audio.spec().channels.count() }, audio)),
        Err(Refusal::IoError(_)) => Err(StreamFault::Io),
        Err(Refusal::DecodeError(_)) => Err(StreamFault::Malformed),
        Err(Refusal::SeekError(_)) => Err(StreamFault::Seek),
        Err(Refusal::Unsupported(_)) => Err(StreamFault::Unsupported),
        Err(Refusal::LimitError(_)) => Err(StreamFault::Limit),
        Err(Refusal::ResetRequired) => Err(StreamFault::ResetRequired),
    }
}

/// What opening a file comes to: the selected track, or the error. A file
/// that does not pass the check is refused as a container, for the reason
/// that the check gives. The other errors come in this order: no container
/// format found, no track in it, no decoder for the track.
pub open spec fn opening(bytes: Seq<u8>) -> Result<u32, DecodeError> {
    match refusal(bytes) {
        Some(fault) => Err(DecodeError::Container(fault)),
        None => match (probe_fault(bytes), default_track_of(bytes), decoder_fault(bytes)) {
            (Some(fault), _, _) => Err(DecodeError::Container(fault)),
            (None, None, _) => Err(DecodeError::NoTrack),
            (None, Some(_), Some(fault)) => Err(DecodeError::Codec(fault)),
            (None, Some(track), None) => Ok(track),
        },
    }
}

/// What a step can find, without the audio.
pub enum UnitKind {
    ReadFailed(StreamFault),
    Foreign,
    Decoded(Layout),
    DecodeFailed(StreamFault),
}

/// What the step after `step` earlier ones finds in a file: the reader's
/// failure; a packet of another track than the default one, which is not
/// decoded; or what the decoder makes of a packet of the default track.
pub open spec fn unit_kind(bytes: Seq<u8>, step: nat) -> UnitKind {
    match packet_at(bytes, step) {
        Err(fault) => UnitKind::ReadFailed(fault),
        Ok(track) => if default_track_of(bytes) != Some(track) {
            UnitKind::Foreign
        } else {
            match audio_at(bytes, step) {
                Ok(layout) => UnitKind::Decoded(layout),
                Err(fault) => UnitKind::DecodeFailed(fault),
            }
        },
    }
}

/// What one step of a session found.
pub enum Step<'a> {
    /// The reader handed out no packet: the stream is at its end or broken.
    ReadFailed(StreamFault),
    /// A packet of this other track was read and left alone.
    Foreign(u32),
    /// A packet of the selected track was decoded.
    Decoded { layout: Layout, audio: symphonia::core::audio::AudioBufferRef<'a> },
    /// A packet of the selected track was refused by the decoder.
    DecodeFailed(StreamFault),
}

impl Step<'_> {
    /// The step without its audio.
    pub open spec fn kind(self) -> UnitKind {
        match self {
            Step::ReadFailed(fault) => UnitKind::ReadFailed(fault),
            Step::Foreign(_) => UnitKind::Foreign,
            Step::Decoded { layout, .. } => UnitKind::Decoded(layout),
            Step::DecodeFailed(fault) => UnitKind::DecodeFailed(fault),
        }
    }
}

/// The event without its samples.
pub open spec fn kind_of(event: UnitEventView) -> UnitKind {
    match event {
        UnitEventView::ReadFailed(fault) => UnitKind::ReadFailed(fault),
        UnitEventView::Foreign => UnitKind::Foreign,
        UnitEventView::Decoded { layout, .. } => UnitKind::Decoded(layout),
        UnitEventView::DecodeFailed(fault) => UnitKind::DecodeFailed(fault),
    }
}

/// An open file: its reader, the track that was selected, the decoder made
/// for that track, and the failure with which the reader came to its end,
/// once it has.
pub struct DecodeSession {
    reader: Reader,
    decoder: Decoder,
    track: u32,
    ended: Option<StreamFault>,
}

impl DecodeSession {
    /// The bytes of the file.
    pub closed spec fn source(&self) -> Seq<u8> {
        self.reader.source@
    }

    /// The number of steps that asked the reader for a packet.
    pub closed spec fn steps(&self) -> nat {
        self.reader.step@
    }

    /// The track whose packets are decoded.
    pub closed spec fn selected(&self) -> u32 {
        self.track
    }

    /// The failure with which the reader came to its end, if it has. A
    /// reader that has failed is not read again.
    pub closed spec fn ended(&self) -> Option<StreamFault> {
        self.ended
    }

    /// A session is of a file that opens, and its decoder was given every
    /// packet of the selected track that was read.
    pub closed spec fn wf(&self) -> bool {
        &&& opening(self.reader.source@) == Ok::<u32, DecodeError>(self.track)
        &&& self.decoder.source@ == self.reader.source@
        &&& self.decoder.fed@ <= self.reader.step@
        &&& none_of_track(self.reader.source@, self.track, self.decoder.fed@, self.reader.step@)
    }

    /// Opens the file that `bytes` holds.
    pub fn open(bytes: Vec<u8>) -> (r: Result<DecodeSession, DecodeError>)
        ensures
            match r {
                Ok(session) => opening(bytes@) == Ok::<u32, DecodeError>(session.selected())
                    && session.source() == bytes@ && session.steps() == 0 && session.ended() is None
                    && session.wf(),
                Err(e) => opening(bytes@) == Err::<u32, DecodeError>(e),
            },
    {
        if let Some(fault) = screen(bytes.as_slice()) {
            return Err(DecodeError::Container(fault));
        }
        let reader = match probe(media_source(bytes)) {
            Ok(reader) => reader,
            Err(fault) => {
                return Err(DecodeError::Container(fault));
            },
        };
        let made = match default_track(&reader) {
            Some(selected) => (selected.id, make_decoder(&selected)),
            None => {
                return Err(DecodeError::NoTrack);
            },
        };
        match made.1 {
            Ok(decoder) => Ok(DecodeSession { reader, decoder, track: made.0, ended: None }),
            Err(fault) => Err(DecodeError::Codec(fault)),
        }
    }

    pub fn track(&self) -> (id: u32)
        ensures
            id == self.selected(),
    {
        self.track
    }

    /// The failure with which the reader came to its end, if it has.
    pub fn ended_with(&self) -> (fault: Option<StreamFault>)
        ensures
            fault == self.ended(),
    {
        self.ended
    }

    /// Reads the next packet and decodes it if it belongs to the selected
    /// track. A packet of another track is never handed to the decoder.
    ///
    /// The first failure of the reader is the end of the session: this step
    /// reports it, and so does every later step, without reading again. Any
    /// other step leaves the session open.
    pub fn next_unit(&mut self) -> (step: Step<'_>)
        requires
            old(self).wf(),
        ensures
            final(self).wf(),
            final(self).source() == old(self).source(),
            final(self).selected() == old(self).selected(),
            match old(self).ended() {
                Some(fault) => {
                    &&& final(self).ended() == old(self).ended()
                    &&& final(self).steps() == old(self).steps()
                    &&& step matches Step::ReadFailed(again) && again == fault
                },
                None => {
                    &&& step.kind() == unit_kind(old(self).source(), old(self).steps())
                    &&& final(self).steps() == old(self).steps() + 1
                    &&& final(self).ended() == match step {
                        Step::ReadFailed(fault) => Some(fault),
                        _ => None,
                    }
                    &&& step matches Step::Foreign(track) ==> track != old(self).selected()
                },
            },
    {
        if let Some(fault) = self.ended {
            return Step::ReadFailed(fault);
        }
        let read = match next_packet(&mut self.reader) {
            Ok(read) => read,
            Err(fault) => {
                self.ended = Some(fault);
                return Step::ReadFailed(fault);
            },
        };
        if read.track != self.track {
            return Step::Foreign(read.track);
        }
        match decode_packet(&mut self.decoder, &read) {
            Ok(heard) => Step::Decoded { layout: heard.0, audio: heard.1 },
            Err(fault) => Step::DecodeFailed(fault),
        }
    }
}

/// Whether `samples` are what `convert` returned for some decoded audio.
pub open spec fn is_output_of<F>(convert: &F, samples: Seq<u32>) -> bool
    where
        F: Fn(symphonia::core::audio::AudioBufferRef<'_>) -> Vec<u32>,
{
    exists|audio: symphonia::core::audio::AudioBufferRef<'_>, out: Vec<u32>|
        call_ensures(*convert, (audio,), out) && out@ == samples
}

/// Whether the samples of every decoded unit among `events` are what
/// `convert` returned for some decoded audio.
pub open spec fn converted_by<F>(convert: &F, events: Seq<UnitEventView>) -> bool
    where
        F: Fn(symphonia::core::audio::AudioBufferRef<'_>) -> Vec<u32>,
{
    forall|i: int|
        0 <= i < events.len() ==> (#[trigger] events[i] matches UnitEventView::Decoded {
            samples,
            ..
        } ==> is_output_of(convert, samples))
}

/// Whether `events` are what the steps of a session on `bytes` find, from
/// the first step on and in order.
pub open spec fn read_from(bytes: Seq<u8>, events: Seq<UnitEventView>) -> bool {
    forall|i: int|
        0 <= i < events.len() ==> kind_of(#[trigger] events[i]) == unit_kind(bytes, i as nat)
}

/// Whether `events` are a whole reading: they go up to the first event that
/// ends the stream and no further, or there are as many as a `usize` counts.
pub open spec fn read_to_the_end(events: Seq<UnitEventView>) -> bool {
    &&& Assembly::run(events).stopped || events.len() == usize::MAX
    &&& events.len() > 0 ==> !Assembly::run(events.drop_last()).stopped
}

/// What decoding a file comes to. A file that does not open gives the error
/// of the opening. One that opens is read step by step up to the event that
/// ends the stream, or until as many steps were made as a `usize` counts;
/// the samples of each decoded unit are what `convert` returned for it; and
/// the outcome is what the rules of assembly make of those events.
pub open spec fn decodes_to<F>(
    bytes: Seq<u8>,
    convert: &F,
    outcome: Result<PcmView, DecodeError>,
) -> bool
    where
        F: Fn(symphonia::core::audio::AudioBufferRef<'_>) -> Vec<u32>,
{
    match opening(bytes) {
        Err(e) => outcome == Err::<PcmView, DecodeError>(e),
        Ok(_) => exists|events: Seq<UnitEventView>|
            #[trigger] read_from(bytes, events) && converted_by(convert, events)
                && read_to_the_end(events) && outcome == Assembly::run(events).outcome(),
    }
}

/// Decodes the file that `bytes` holds into one buffer, at the file's own
/// rate and channel layout.
///
/// `convert` is called once for each packet of the selected track that
/// decoded, in stream order, and returns its samples interleaved. A packet
/// that is malformed is passed over and reading goes on; the first failure
/// of the reader, or any other failure of the decoder, ends the stream, and
/// what was decoded until then is the buffer. The packets are counted in a
/// `usize`, and reading also ends when that count is used up.
///
/// A buffer that comes back is a positive number of whole frames. A stream
/// that gave no sample, or whose samples do not fill whole frames, is an
/// error.
pub fn decode<F>(bytes: Vec<u8>, convert: &F) -> (r: Result<PcmBuffer, DecodeError>)
    where
        F: Fn(symphonia::core::audio::AudioBufferRef<'_>) -> Vec<u32>,
    requires
        forall|audio: symphonia::core::audio::AudioBufferRef<'_>| call_requires(*convert, (audio,)),
    ensures
        decodes_to(bytes@, convert, outcome_view(r)),
        r matches Ok(buffer) ==> buffer@.wf(),
        r matches Err(e) ==> e != DecodeError::Unreadable,
{
    let ghost source = bytes@;
    let mut session = match DecodeSession::open(bytes) {
        Ok(session) => session,
        Err(e) => {
            return Err(e);
        },
    };
    let mut assembler = PcmAssembler::new();
    let ghost mut events: Seq<UnitEventView> = Seq::empty();
    let mut packets: usize = 0;
    while packets < usize::MAX
        invariant_except_break
            session.ended() is None,
            !assembler@.stopped,
        invariant
            forall|audio: symphonia::core::audio::AudioBufferRef<'_>|
                call_requires(*convert, (audio,)),
            opening(source) is Ok,
            session.wf(),
            session.source() == source,
            session.steps() == events.len(),
            packets == events.len(),
            events.len() > 0 ==> !Assembly::run(events.drop_last()).stopped,
            read_from(source, events),
            converted_by(convert, events),
            assembler@ == Assembly::run(events),
        ensures
            read_from(source, events),
            converted_by(convert, events),
            assembler@ == Assembly::run(events),
            read_to_the_end(events),
        decreases usize::MAX - packets,
    {
        let event = match session.next_unit() {
            Step::ReadFailed(fault) => UnitEvent::ReadFailed(fault),
            Step::Foreign(_) => UnitEvent::Foreign,
            Step::DecodeFailed(fault) => UnitEvent::DecodeFailed(fault),
            Step::Decoded { layout, audio } => {
                let ghost heard = audio;
                let samples = convert(audio);
                assert(is_output_of(convert, samples@)) by {
                    assert(call_ensures(*convert, (heard,), samples));
                }
                UnitEvent::Decoded { layout, samples }
            },
        };
        proof {
            let next = events.push(event@);
            assert(next.drop_last() == events);
            assert(!Assembly::run(next.drop_last()).stopped);
            assert(kind_of(event@) == unit_kind(source, events.len()));
            assert(read_from(source, next)) by {
                assert forall|i: int| 0 <= i < next.len() implies kind_of(#[trigger] next[i])
                    == unit_kind(source, i as nat) by {
                    if i < events.len() {
                        assert(next[i] == events[i]);
                    }
                }
            }
            assert(converted_by(convert, next)) by {
                assert forall|i: int| 0 <= i < next.len() implies (#[trigger] next[i] matches
                UnitEventView::Decoded { samples, .. } ==> is_output_of(convert, samples)) by {
                    if i < events.len() {
                        assert(next[i] == events[i]);
                    }
                }
            }
            events = next;
        }
        packets = packets + 1;
        match assembler.absorb(event) {
            Verdict::Stop => {
                break;
            },
            _ => {},
        }
    }
    let r = assembler.finish();
    assert(read_from(source, events) && converted_by(convert, events) && read_to_the_end(events)
        && outcome_view(r) == Assembly::run(events).outcome());
    r
}

} // verus!
