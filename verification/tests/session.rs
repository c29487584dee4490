use midi_sampler::decode::{DecodeError, PcmAssembler, StreamFault, UnitEvent, Verdict};
use midi_sampler::library::{Loaded, SampleLibrary};
use midi_sampler::loader::{load_library, SampleFile};
use midi_sampler::pcm::{Layout, PcmBuffer};
use midi_sampler::pool::ChannelPool;
use midi_sampler::sampler::Sampler;
use midi_sampler::session::{DecodeSession, Step};

/// Interleaves one decoded unit as single-precision samples.
fn to_bits(audio: symphonia::core::audio::AudioBufferRef<'_>) -> Vec<u32> {
    if audio.spec().channels.count() == 0 {
        return Vec::new();
    }
    let mut buffer =
        symphonia::core::audio::SampleBuffer::<f32>::new(audio.capacity() as u64, *audio.spec());
    buffer.copy_interleaved_ref(audio);
    buffer.samples().iter().map(|sample| sample.to_bits()).collect()
}

fn next_event(session: &mut DecodeSession) -> UnitEvent {
    match session.next_unit() {
        Step::ReadFailed(fault) => UnitEvent::ReadFailed(fault),
        Step::Foreign(_) => UnitEvent::Foreign,
        Step::DecodeFailed(fault) => UnitEvent::DecodeFailed(fault),
        Step::Decoded { layout, audio } => UnitEvent::Decoded { layout, samples: to_bits(audio) },
    }
}

fn decode(bytes: Vec<u8>) -> Result<PcmBuffer, DecodeError> {
    midi_sampler::session::decode(bytes, &to_bits)
}

fn bits_of(values: &[i16]) -> Vec<u32> {
    values.iter().map(|v| (f32::from(*v) / 32768.0).to_bits()).collect()
}

/// A WAVE file of 16-bit PCM.
fn wav(rate: u32, channels: u16, samples: &[i16]) -> Vec<u8> {
    let data_len = (samples.len() * 2) as u32;
    let mut bytes = Vec::new();
    bytes.extend_from_slice(b"RIFF");
    bytes.extend_from_slice(&(36 + data_len).to_le_bytes());
    bytes.extend_from_slice(b"WAVE");
    bytes.extend_from_slice(b"fmt ");
    bytes.extend_from_slice(&16u32.to_le_bytes());
    bytes.extend_from_slice(&1u16.to_le_bytes());
    bytes.extend_from_slice(&channels.to_le_bytes());
    bytes.extend_from_slice(&rate.to_le_bytes());
    bytes.extend_from_slice(&(rate * u32::from(channels) * 2).to_le_bytes());
    bytes.extend_from_slice(&(channels * 2).to_le_bytes());
    bytes.extend_from_slice(&16u16.to_le_bytes());
    bytes.extend_from_slice(b"data");
    bytes.extend_from_slice(&data_len.to_le_bytes());
    for sample in samples {
        bytes.extend_from_slice(&sample.to_le_bytes());
    }
    bytes
}

fn crc8(bytes: &[u8]) -> u8 {
    let mut crc = 0u8;
    for byte in bytes {
        crc ^= *byte;
        for _ in 0..8 {
            crc = if crc & 0x80 != 0 { (crc << 1) ^ 0x07 } else { crc << 1 };
        }
    }
    crc
}

fn crc16(bytes: &[u8]) -> u16 {
    let mut crc = 0u16;
    for byte in bytes {
        crc ^= u16::from(*byte) << 8;
        for _ in 0..8 {
            crc = if crc & 0x8000 != 0 { (crc << 1) ^ 0x8005 } else { crc << 1 };
        }
    }
    crc
}

/// One FLAC frame of sixteen stereo frames, stored verbatim. With `broken`
/// the first subframe announces a reserved type; the checksums still hold.
fn flac_frame(number: u8, left: &[i16; 16], right: &[i16; 16], broken: bool) -> Vec<u8> {
    let mut frame = vec![0xff, 0xf8, 0x69, 0x18, number, 15];
    frame.push(crc8(&frame));
    for (index, channel) in [left, right].into_iter().enumerate() {
        frame.push(if broken && index == 0 { 0x04 } else { 0x02 });
        for sample in channel {
            frame.extend_from_slice(&sample.to_be_bytes());
        }
    }
    let footer = crc16(&frame);
    frame.extend_from_slice(&footer.to_be_bytes());
    frame
}

/// A FLAC stream of 44.1 kHz, 16-bit stereo in blocks of sixteen frames.
fn flac(frames: &[Vec<u8>]) -> Vec<u8> {
    let mut bytes = Vec::new();
    bytes.extend_from_slice(b"fLaC");
    bytes.extend_from_slice(&[0x80, 0, 0, 34]);
    bytes.extend_from_slice(&16u16.to_be_bytes());
    bytes.extend_from_slice(&16u16.to_be_bytes());
    bytes.extend_from_slice(&[0, 0, 0, 0, 0, 0]);
    let total = (frames.len() * 16) as u64;
    let packed: u64 = (44100u64 << 44) | (1u64 << 41) | (15u64 << 36) | total;
    bytes.extend_from_slice(&packed.to_be_bytes());
    bytes.extend_from_slice(&[0u8; 16]);
    for frame in frames {
        bytes.extend_from_slice(frame);
    }
    bytes
}

fn ramp(start: i16) -> [i16; 16] {
    let mut values = [0i16; 16];
    for (i, value) in values.iter_mut().enumerate() {
        *value = start + 3 * i as i16;
    }
    values
}

#[test]
fn wav_decodes_to_its_samples() {
    let samples = [0i16, 16384, -16384, 32767, -32768, 1];
    let buffer = decode(wav(8000, 1, &samples)).unwrap();
    assert_eq!(buffer.layout(), Layout { rate: 8000, channels: 1 });
    assert_eq!(buffer.samples(), &bits_of(&samples)[..]);
    assert_eq!(buffer.samples()[1], 0.5f32.to_bits());
    assert_eq!(buffer.samples()[2], (-0.5f32).to_bits());
}

#[test]
fn stereo_wav_keeps_whole_frames() {
    let samples = [100i16, -100, 200, -200, 300, -300];
    let buffer = decode(wav(44100, 2, &samples)).unwrap();
    assert_eq!(buffer.layout(), Layout { rate: 44100, channels: 2 });
    assert_eq!(buffer.frames(), 3);
    assert_eq!(buffer.len() % 2, 0);
    assert_eq!(buffer.samples(), &bits_of(&samples)[..]);
}

#[test]
fn long_wav_is_joined_from_several_units() {
    let samples: Vec<i16> = (0..3000).map(|i| (i % 2000) as i16 - 1000).collect();
    let mut session = DecodeSession::open(wav(22050, 1, &samples)).unwrap();
    let mut assembler = PcmAssembler::new();
    let mut kept = 0;
    loop {
        match assembler.absorb(next_event(&mut session)) {
            Verdict::Keep => kept += 1,
            Verdict::Skip => {}
            Verdict::Stop => break,
        }
    }
    assert!(kept > 1);
    let buffer = assembler.finish().unwrap();
    assert_eq!(buffer.len(), 3000);
    assert_eq!(buffer.samples(), &bits_of(&samples)[..]);
}

#[test]
fn wav_has_one_track() {
    let session = DecodeSession::open(wav(8000, 1, &[1, 2, 3])).unwrap();
    assert_eq!(session.track(), 0);
}

#[test]
fn end_of_stream_is_a_reader_failure() {
    let mut session = DecodeSession::open(wav(8000, 1, &[1, 2, 3])).unwrap();
    assert!(matches!(session.next_unit(), Step::Decoded { .. }));
    assert!(matches!(session.next_unit(), Step::ReadFailed(StreamFault::Io)));
}

#[test]
fn open_session_is_not_at_its_end() {
    let mut session = DecodeSession::open(wav(8000, 1, &[1, 2, 3])).unwrap();
    assert_eq!(session.ended_with(), None);
    assert!(matches!(session.next_unit(), Step::Decoded { .. }));
    assert_eq!(session.ended_with(), None);
}

#[test]
fn ended_session_repeats_its_failure() {
    let mut session = DecodeSession::open(wav(8000, 1, &[1, 2, 3])).unwrap();
    assert!(matches!(session.next_unit(), Step::Decoded { .. }));
    assert!(matches!(session.next_unit(), Step::ReadFailed(StreamFault::Io)));
    assert_eq!(session.ended_with(), Some(StreamFault::Io));
    for _ in 0..3 {
        assert!(matches!(session.next_unit(), Step::ReadFailed(StreamFault::Io)));
        assert_eq!(session.ended_with(), Some(StreamFault::Io));
    }
    assert_eq!(session.track(), 0);
}

#[test]
fn wav_without_samples_is_empty() {
    assert_eq!(decode(wav(8000, 1, &[])).err(), Some(DecodeError::Empty));
}

#[test]
fn text_is_no_container() {
    let result = DecodeSession::open(b"this is a text file, not audio".to_vec());
    assert_eq!(result.err(), Some(DecodeError::Container(StreamFault::Unsupported)));
}

#[test]
fn no_bytes_are_no_container() {
    let result = DecodeSession::open(Vec::new());
    assert!(matches!(result.err(), Some(DecodeError::Container(_))));
}

#[test]
fn wav_without_a_format_has_no_decoder() {
    let mut bytes = Vec::new();
    bytes.extend_from_slice(b"RIFF");
    bytes.extend_from_slice(&16u32.to_le_bytes());
    bytes.extend_from_slice(b"WAVE");
    bytes.extend_from_slice(b"data");
    bytes.extend_from_slice(&4u32.to_le_bytes());
    bytes.extend_from_slice(&[1, 0, 2, 0]);
    let result = DecodeSession::open(bytes);
    assert_eq!(result.err(), Some(DecodeError::Codec(StreamFault::Unsupported)));
}

#[test]
fn kick_plays_on_channels_zero_one_two() {
    let kick = [0i16, 12000, 24000, 12000, 0, -12000, -24000, -12000];
    let decoded = decode(wav(44100, 1, &kick));
    let library = SampleLibrary::build(vec![Loaded { note: 36, decoded }]).unwrap();
    let mut sampler = Sampler::new(library, ChannelPool::new(3).unwrap());
    assert_eq!(sampler.on_trigger(36), Some(0));
    assert_eq!(sampler.on_trigger(36), Some(1));
    assert_eq!(sampler.on_trigger(36), Some(2));
    for channel in 0..3 {
        assert_eq!(sampler.pool().snapshot(channel), bits_of(&kick));
    }
}

#[test]
fn absent_note_writes_to_no_queue() {
    let kick = [0i16, 12000, 24000, 12000];
    let decoded = decode(wav(44100, 1, &kick));
    let library = SampleLibrary::build(vec![Loaded { note: 36, decoded }]).unwrap();
    let mut sampler = Sampler::new(library, ChannelPool::new(3).unwrap());
    assert_eq!(sampler.on_trigger(99), None);
    for channel in 0..3 {
        assert_eq!(sampler.pool().queued(channel), 0);
    }
    assert_eq!(sampler.pool().cursor(), 0);
}

#[test]
fn undecodable_file_stops_the_build() {
    let lines = vec![
        Loaded { note: 36, decoded: decode(wav(44100, 1, &[1, 2, 3])) },
        Loaded { note: 38, decoded: decode(b"not a sample".to_vec()) },
    ];
    let error = SampleLibrary::build(lines).err().unwrap();
    assert_eq!(error.index, 1);
    assert_eq!(error.note, 38);
    assert!(matches!(error.cause, DecodeError::Container(_)));
}

#[test]
fn library_loads_from_files_in_list_order() {
    let files = vec![
        SampleFile { note: 36, bytes: Some(wav(44100, 1, &[100, 200])) },
        SampleFile { note: 38, bytes: Some(wav(44100, 2, &[300, 400, 500, 600])) },
        SampleFile { note: 36, bytes: Some(wav(44100, 1, &[700])) },
    ];
    let library = load_library(files, &to_bits).unwrap();
    assert_eq!(library.len(), 3);
    assert_eq!(library.find(36).unwrap().samples(), &bits_of(&[100, 200])[..]);
    assert_eq!(library.find(38).unwrap().samples(), &bits_of(&[300, 400, 500, 600])[..]);
    assert_eq!(library.find(38).unwrap().layout(), Layout { rate: 44100, channels: 2 });
    assert!(library.find(40).is_none());
}

#[test]
fn empty_list_loads_an_empty_library() {
    let library = load_library(Vec::new(), &to_bits).unwrap();
    assert!(library.is_empty());
}

#[test]
fn unreadable_file_stops_the_load() {
    let files = vec![
        SampleFile { note: 36, bytes: Some(wav(44100, 1, &[100, 200])) },
        SampleFile { note: 38, bytes: None },
        SampleFile { note: 40, bytes: Some(wav(44100, 1, &[300])) },
    ];
    let error = load_library(files, &to_bits).err().unwrap();
    assert_eq!(error.index, 1);
    assert_eq!(error.note, 38);
    assert_eq!(error.cause, DecodeError::Unreadable);
}

#[test]
fn first_bad_file_stops_the_load() {
    let files = vec![
        SampleFile { note: 36, bytes: Some(wav(44100, 1, &[100, 200])) },
        SampleFile { note: 38, bytes: Some(wav(44100, 1, &[])) },
        SampleFile { note: 40, bytes: None },
        SampleFile { note: 41, bytes: Some(b"not a sample".to_vec()) },
    ];
    let error = load_library(files, &to_bits).err().unwrap();
    assert_eq!(error.index, 1);
    assert_eq!(error.note, 38);
    assert_eq!(error.cause, DecodeError::Empty);
}

#[test]
fn files_behind_a_bad_one_are_not_decoded() {
    let files = vec![
        SampleFile { note: 36, bytes: Some(b"not a sample".to_vec()) },
        SampleFile { note: 38, bytes: Some(wav(44100, 1, &[1, 2, 3])) },
    ];
    let calls = std::cell::Cell::new(0);
    let counting = |audio: symphonia::core::audio::AudioBufferRef<'_>| {
        calls.set(calls.get() + 1);
        to_bits(audio)
    };
    let error = load_library(files, &counting).err().unwrap();
    assert_eq!(error.index, 0);
    assert_eq!(calls.get(), 0);
}

#[test]
fn loading_twice_answers_every_lookup_alike() {
    let files = || {
        vec![
            SampleFile { note: 36, bytes: Some(wav(44100, 1, &[100, 200])) },
            SampleFile { note: 38, bytes: Some(wav(22050, 2, &[300, 400])) },
        ]
    };
    let first = load_library(files(), &to_bits).unwrap();
    let second = load_library(files(), &to_bits).unwrap();
    for note in 0..=255u8 {
        let a = first.find(note).map(|b| (b.layout(), b.samples().to_vec()));
        let b = second.find(note).map(|b| (b.layout(), b.samples().to_vec()));
        assert_eq!(a, b);
    }
}

/// A WAVE file with the given format fields and data.
fn wav_with(tag: u16, channels: u16, rate: u32, block: u16, bits: u16, extra: &[u8], data: &[u8]) -> Vec<u8> {
    let format_len = 16 + extra.len() as u32;
    let mut bytes = Vec::new();
    bytes.extend_from_slice(b"RIFF");
    bytes.extend_from_slice(&(4 + 8 + format_len + 8 + data.len() as u32).to_le_bytes());
    bytes.extend_from_slice(b"WAVE");
    bytes.extend_from_slice(b"fmt ");
    bytes.extend_from_slice(&format_len.to_le_bytes());
    bytes.extend_from_slice(&tag.to_le_bytes());
    bytes.extend_from_slice(&channels.to_le_bytes());
    bytes.extend_from_slice(&rate.to_le_bytes());
    bytes.extend_from_slice(&0u32.to_le_bytes());
    bytes.extend_from_slice(&block.to_le_bytes());
    bytes.extend_from_slice(&bits.to_le_bytes());
    bytes.extend_from_slice(extra);
    bytes.extend_from_slice(b"data");
    bytes.extend_from_slice(&(data.len() as u32).to_le_bytes());
    bytes.extend_from_slice(data);
    bytes
}

fn adpcm_extra() -> Vec<u8> {
    let mut extra = 32u16.to_le_bytes().to_vec();
    extra.extend_from_slice(&[0u8; 32]);
    extra
}

#[test]
fn wav_with_a_rate_of_zero_is_not_opened() {
    let bytes = wav_with(1, 1, 0, 2, 16, &[], &[1, 0, 2, 0]);
    let result = DecodeSession::open(bytes.clone());
    assert_eq!(result.err(), Some(DecodeError::Container(StreamFault::Malformed)));
    assert_eq!(decode(bytes).err(), Some(DecodeError::Container(StreamFault::Malformed)));
}

#[test]
fn refused_file_stops_the_load() {
    let files = vec![
        SampleFile { note: 36, bytes: Some(wav(44100, 1, &[100, 200])) },
        SampleFile { note: 38, bytes: Some(wav_with(1, 1, 0, 2, 16, &[], &[1, 0])) },
    ];
    let error = load_library(files, &to_bits).err().unwrap();
    assert_eq!(error.index, 1);
    assert_eq!(error.note, 38);
    assert_eq!(error.cause, DecodeError::Container(StreamFault::Malformed));
}

#[test]
fn matroska_is_no_container_here() {
    let mut bytes = vec![0x1a, 0x45, 0xdf, 0xa3, 0x84, 0x42, 0x82, 0x81, 0x00];
    bytes.extend_from_slice(&[0u8; 64]);
    let result = DecodeSession::open(bytes);
    assert_eq!(result.err(), Some(DecodeError::Container(StreamFault::Unsupported)));
}

#[test]
fn stepping_agrees_with_decode() {
    let samples: Vec<i16> = (0..2500).map(|i| (i % 700) as i16 - 350).collect();
    let bytes = wav(22050, 2, &samples);
    let mut session = DecodeSession::open(bytes.clone()).unwrap();
    let mut assembler = PcmAssembler::new();
    while assembler.absorb(next_event(&mut session)) != Verdict::Stop {}
    let stepwise = assembler.finish().unwrap();
    let at_once = decode(bytes).unwrap();
    assert_eq!(stepwise.samples(), at_once.samples());
    assert_eq!(stepwise.layout(), at_once.layout());
    assert_eq!(at_once.samples(), &bits_of(&samples)[..]);
}

#[test]
fn converter_is_called_once_for_each_packet() {
    let samples: Vec<i16> = (0..3000).map(|i| i as i16).collect();
    let calls = std::cell::Cell::new(0);
    let counting = |audio: symphonia::core::audio::AudioBufferRef<'_>| {
        calls.set(calls.get() + 1);
        to_bits(audio)
    };
    let buffer = midi_sampler::session::decode(wav(8000, 1, &samples), &counting).unwrap();
    assert_eq!(calls.get(), 3);
    assert_eq!(buffer.len(), 3000);
}

#[test]
fn adpcm_is_not_opened() {
    let mono = wav_with(2, 1, 8000, 32, 4, &adpcm_extra(), &[0u8; 32]);
    assert_eq!(decode(mono).err(), Some(DecodeError::Container(StreamFault::Unsupported)));
    let three = wav_with(2, 3, 8000, 96, 4, &adpcm_extra(), &[0u8; 96]);
    assert_eq!(decode(three).err(), Some(DecodeError::Container(StreamFault::Unsupported)));
    let ima = wav_with(17, 1, 8000, 36, 4, &[2, 0, 65, 0], &[0u8; 36]);
    assert_eq!(decode(ima).err(), Some(DecodeError::Container(StreamFault::Unsupported)));
}

#[test]
fn extensible_format_without_a_width_is_not_opened() {
    let mut extra = 22u16.to_le_bytes().to_vec();
    extra.extend_from_slice(&0u16.to_le_bytes());
    extra.extend_from_slice(&1u32.to_le_bytes());
    extra.extend_from_slice(&[1, 0, 0, 0, 0, 0, 0x10, 0, 0x80, 0, 0, 0xaa, 0, 0x38, 0x9b, 0x71]);
    let bytes = wav_with(0xfffe, 1, 8000, 2, 0, &extra, &[]);
    assert_eq!(decode(bytes).err(), Some(DecodeError::Container(StreamFault::Unsupported)));
}

#[test]
fn flac_and_ogg_are_not_opened() {
    let (l, r) = (ramp(256), ramp(1024));
    let bytes = flac(&[flac_frame(0, &l, &r, false)]);
    assert_eq!(decode(bytes).err(), Some(DecodeError::Container(StreamFault::Unsupported)));
    let mut ogg = b"OggS\x00\x02".to_vec();
    ogg.extend_from_slice(&[0u8; 64]);
    assert_eq!(decode(ogg).err(), Some(DecodeError::Container(StreamFault::Unsupported)));
}

#[test]
fn float_wav_keeps_its_samples() {
    let values = [0.5f32, -0.25, 1.0, 0.0];
    let mut data = Vec::new();
    for v in values {
        data.extend_from_slice(&v.to_le_bytes());
    }
    let buffer = decode(wav_with(3, 2, 48000, 8, 32, &[], &data)).unwrap();
    assert_eq!(buffer.layout(), Layout { rate: 48000, channels: 2 });
    let expected: Vec<u32> = values.iter().map(|v| v.to_bits()).collect();
    assert_eq!(buffer.samples(), &expected[..]);
}

#[test]
fn wav_of_24_bits_decodes() {
    let data = [0x00, 0x00, 0x40, 0x00, 0x00, 0xc0, 0x00, 0x00, 0x00];
    let buffer = decode(wav_with(1, 1, 44100, 3, 24, &[], &data)).unwrap();
    assert_eq!(
        buffer.samples(),
        &[0.5f32.to_bits(), (-0.5f32).to_bits(), 0.0f32.to_bits()]
    );
}

#[test]
fn wav_of_8_bits_decodes() {
    let buffer = decode(wav_with(1, 1, 8000, 1, 8, &[], &[128, 192, 64, 0])).unwrap();
    assert_eq!(
        buffer.samples(),
        &[0.0f32.to_bits(), 0.5f32.to_bits(), (-0.5f32).to_bits(), (-1.0f32).to_bits()]
    );
}

#[test]
fn chunks_before_the_data_are_stepped_over() {
    let plain = wav(44100, 1, &[100, -100, 200]);
    let mut bytes = plain[..36].to_vec();
    bytes.extend_from_slice(b"JUNK\x03\x00\x00\x00abc\x00");
    bytes.extend_from_slice(b"LIST\x12\x00\x00\x00INFOISFT\x05\x00\x00\x00Lavf\x00\x00");
    bytes.extend_from_slice(b"fact\x04\x00\x00\x00\x03\x00\x00\x00");
    bytes.extend_from_slice(&plain[36..]);
    let len = (bytes.len() - 8) as u32;
    bytes[4..8].copy_from_slice(&len.to_le_bytes());
    let buffer = decode(bytes).unwrap();
    assert_eq!(buffer.samples(), &bits_of(&[100, -100, 200])[..]);
}

#[test]
fn cut_off_wav_keeps_what_is_there() {
    let mut bytes = wav(8000, 1, &[1, 2, 3, 4, 5, 6]);
    bytes.truncate(bytes.len() - 5);
    let buffer = decode(bytes).unwrap();
    assert_eq!(buffer.samples(), &bits_of(&[1, 2, 3])[..]);
}

fn extension(valid: u16, mask: u32, kind: u8) -> Vec<u8> {
    let mut extra = 22u16.to_le_bytes().to_vec();
    extra.extend_from_slice(&valid.to_le_bytes());
    extra.extend_from_slice(&mask.to_le_bytes());
    extra.extend_from_slice(&[kind, 0, 0, 0, 0, 0, 0x10, 0, 0x80, 0, 0, 0xaa, 0, 0x38, 0x9b, 0x71]);
    extra
}

#[test]
fn extensible_wav_of_24_bits_decodes() {
    let data = [0x00, 0x00, 0x40, 0x00, 0x00, 0xc0, 0x00, 0x00, 0x20, 0x00, 0x00, 0xe0];
    let bytes = wav_with(0xfffe, 2, 44100, 6, 24, &extension(24, 3, 1), &data);
    let buffer = decode(bytes).unwrap();
    assert_eq!(buffer.layout(), Layout { rate: 44100, channels: 2 });
    assert_eq!(
        buffer.samples(),
        &[0.5f32.to_bits(), (-0.5f32).to_bits(), 0.25f32.to_bits(), (-0.25f32).to_bits()]
    );
}

#[test]
fn extensible_float_wav_decodes() {
    let values = [0.75f32, -0.125];
    let mut data = Vec::new();
    for v in values {
        data.extend_from_slice(&v.to_le_bytes());
    }
    let buffer = decode(wav_with(0xfffe, 1, 48000, 4, 32, &extension(32, 4, 3), &data)).unwrap();
    assert_eq!(buffer.samples(), &[0.75f32.to_bits(), (-0.125f32).to_bits()]);
}

#[test]
fn extensible_wav_with_an_unknown_mask_bit_is_an_error() {
    let bytes = wav_with(0xfffe, 1, 44100, 2, 16, &extension(16, 0x8000_0000, 1), &[1, 0]);
    assert!(matches!(decode(bytes).err(), Some(DecodeError::Container(_))));
}
