use midi_sampler::decode::{
    assemble, DecodeError, PcmAssembler, StreamFault, UnitEvent, Verdict,
};
use midi_sampler::pcm::Layout;

fn stereo() -> Layout {
    Layout { rate: 44100, channels: 2 }
}

fn unit(samples: Vec<u32>) -> UnitEvent {
    UnitEvent::Decoded { layout: stereo(), samples }
}

#[test]
fn units_are_concatenated_in_order() {
    let buffer = assemble(vec![unit(vec![1, 2]), unit(vec![3, 4, 5, 6]), unit(vec![7, 8])]).unwrap();
    assert_eq!(buffer.samples(), &[1, 2, 3, 4, 5, 6, 7, 8]);
    assert_eq!(buffer.layout(), stereo());
    assert_eq!(buffer.frames(), 4);
}

#[test]
fn corrupt_middle_unit_is_skipped() {
    let buffer = assemble(vec![
        unit(vec![1, 2, 3, 4]),
        UnitEvent::DecodeFailed(StreamFault::Malformed),
        unit(vec![5, 6]),
        UnitEvent::ReadFailed(StreamFault::Io),
    ])
    .unwrap();
    assert_eq!(buffer.samples(), &[1, 2, 3, 4, 5, 6]);
    assert_eq!(buffer.len() % buffer.layout().channels, 0);
}

#[test]
fn unit_of_another_track_is_skipped() {
    let buffer =
        assemble(vec![UnitEvent::Foreign, unit(vec![1, 2]), UnitEvent::Foreign, unit(vec![3, 4])])
            .unwrap();
    assert_eq!(buffer.samples(), &[1, 2, 3, 4]);
}

#[test]
fn end_of_stream_keeps_what_was_decoded() {
    let buffer = assemble(vec![
        unit(vec![1, 2]),
        UnitEvent::ReadFailed(StreamFault::Io),
        unit(vec![3, 4]),
    ])
    .unwrap();
    assert_eq!(buffer.samples(), &[1, 2]);
}

#[test]
fn unrecoverable_decoder_failure_ends_the_stream() {
    for fault in [
        StreamFault::Io,
        StreamFault::Seek,
        StreamFault::Unsupported,
        StreamFault::Limit,
        StreamFault::ResetRequired,
    ] {
        let buffer =
            assemble(vec![unit(vec![1, 2]), UnitEvent::DecodeFailed(fault), unit(vec![3, 4])])
                .unwrap();
        assert_eq!(buffer.samples(), &[1, 2]);
    }
}

#[test]
fn every_reader_failure_ends_the_stream() {
    for fault in [
        StreamFault::Io,
        StreamFault::Malformed,
        StreamFault::Seek,
        StreamFault::Unsupported,
        StreamFault::Limit,
        StreamFault::ResetRequired,
    ] {
        let mut assembler = PcmAssembler::new();
        assert_eq!(assembler.absorb(UnitEvent::ReadFailed(fault)), Verdict::Stop);
        assert!(assembler.is_stopped());
    }
}

#[test]
fn stream_without_samples_is_an_error() {
    assert_eq!(assemble(vec![]).err(), Some(DecodeError::Empty));
    assert_eq!(assemble(vec![UnitEvent::ReadFailed(StreamFault::Io)]).err(), Some(DecodeError::Empty));
    assert_eq!(
        assemble(vec![UnitEvent::DecodeFailed(StreamFault::Malformed), UnitEvent::Foreign]).err(),
        Some(DecodeError::Empty)
    );
    assert_eq!(assemble(vec![unit(vec![])]).err(), Some(DecodeError::Empty));
}

#[test]
fn ragged_stream_is_an_error() {
    let result = assemble(vec![unit(vec![1, 2]), unit(vec![3, 4, 5]), unit(vec![6, 7])]);
    assert_eq!(result.err(), Some(DecodeError::Ragged));
    assert_eq!(assemble(vec![unit(vec![1])]).err(), Some(DecodeError::Ragged));
}

#[test]
fn frame_split_over_two_units_is_kept() {
    let buffer = assemble(vec![unit(vec![1, 2, 3]), unit(vec![4])]).unwrap();
    assert_eq!(buffer.samples(), &[1, 2, 3, 4]);
    assert_eq!(buffer.frames(), 2);
}

#[test]
fn stream_without_channels_is_an_error() {
    let none = Layout { rate: 44100, channels: 0 };
    let result =
        assemble(vec![UnitEvent::Decoded { layout: none, samples: vec![9] }, unit(vec![1, 2])]);
    assert_eq!(result.err(), Some(DecodeError::Ragged));
}

#[test]
fn unit_of_another_layout_is_kept() {
    let mono = Layout { rate: 44100, channels: 1 };
    let slow = Layout { rate: 22050, channels: 2 };
    let buffer = assemble(vec![
        unit(vec![1, 2]),
        UnitEvent::Decoded { layout: mono, samples: vec![3, 8] },
        UnitEvent::Decoded { layout: slow, samples: vec![4, 5] },
        unit(vec![6, 7]),
    ])
    .unwrap();
    assert_eq!(buffer.samples(), &[1, 2, 3, 8, 4, 5, 6, 7]);
    assert_eq!(buffer.layout(), stereo());
}

#[test]
fn first_kept_unit_fixes_the_layout() {
    let mono = Layout { rate: 8000, channels: 1 };
    let buffer =
        assemble(vec![UnitEvent::Decoded { layout: mono, samples: vec![3] }, unit(vec![1, 2])])
            .unwrap();
    assert_eq!(buffer.samples(), &[3, 1, 2]);
    assert_eq!(buffer.layout(), mono);
    assert_eq!(buffer.frames(), 3);
}

#[test]
fn absorb_reports_each_verdict() {
    let mut assembler = PcmAssembler::new();
    assert!(!assembler.is_stopped());
    assert_eq!(assembler.absorb(UnitEvent::Foreign), Verdict::Skip);
    assert_eq!(assembler.absorb(unit(vec![1, 2])), Verdict::Keep);
    assert_eq!(assembler.absorb(UnitEvent::DecodeFailed(StreamFault::Malformed)), Verdict::Skip);
    assert_eq!(assembler.absorb(unit(vec![5, 6])), Verdict::Keep);
    assert_eq!(assembler.absorb(UnitEvent::DecodeFailed(StreamFault::Unsupported)), Verdict::Stop);
    assert!(assembler.is_stopped());
    assert_eq!(assembler.absorb(unit(vec![3, 4])), Verdict::Stop);
    assert_eq!(assembler.absorb(UnitEvent::Foreign), Verdict::Stop);
    assert_eq!(assembler.finish().unwrap().samples(), &[1, 2, 5, 6]);
}

#[test]
fn assembler_agrees_with_assemble() {
    let mut assembler = PcmAssembler::new();
    let _ = assembler.absorb(unit(vec![1, 2]));
    let _ = assembler.absorb(UnitEvent::DecodeFailed(StreamFault::Malformed));
    let _ = assembler.absorb(unit(vec![3, 4]));
    let stepwise = assembler.finish().unwrap();
    let at_once = assemble(vec![
        unit(vec![1, 2]),
        UnitEvent::DecodeFailed(StreamFault::Malformed),
        unit(vec![3, 4]),
    ])
    .unwrap();
    assert_eq!(stepwise.samples(), at_once.samples());
}

#[test]
fn skipped_event_leaves_no_trace() {
    let with = assemble(vec![unit(vec![1, 2]), UnitEvent::Foreign, unit(vec![3, 4])]).unwrap();
    let without = assemble(vec![unit(vec![1, 2]), unit(vec![3, 4])]).unwrap();
    assert_eq!(with.samples(), without.samples());
    assert_eq!(with.layout(), without.layout());
}

#[test]
fn buffer_is_a_positive_number_of_whole_frames() {
    let buffer = assemble(vec![unit(vec![1, 2, 3, 4]), unit(vec![5, 6])]).unwrap();
    assert!(buffer.len() > 0);
    assert_eq!(buffer.len(), buffer.frames() * buffer.layout().channels);
    assert_eq!(buffer.frames(), 3);
}

#[test]
fn buffer_is_the_units_before_the_end() {
    let buffer = assemble(vec![
        unit(vec![0.5f32.to_bits(), 0]),
        UnitEvent::DecodeFailed(StreamFault::Malformed),
        unit(vec![0.25f32.to_bits(), 0]),
        UnitEvent::DecodeFailed(StreamFault::ResetRequired),
        unit(vec![7, 7]),
        UnitEvent::Foreign,
    ])
    .unwrap();
    assert_eq!(buffer.samples(), &[0.5f32.to_bits(), 0, 0.25f32.to_bits(), 0]);
}
