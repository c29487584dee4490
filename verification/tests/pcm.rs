use midi_sampler::pcm::{Layout, PcmBuffer, SILENCE};

fn stereo() -> Layout {
    Layout { rate: 44100, channels: 2 }
}

#[test]
fn silence_is_the_pattern_of_zero() {
    assert_eq!(SILENCE, 0.0f32.to_bits());
}

#[test]
fn buffer_keeps_layout_and_samples() {
    let bits: Vec<u32> = vec![0.5f32.to_bits(), (-0.5f32).to_bits(), 0.25f32.to_bits(), 0];
    let buffer = PcmBuffer::new(stereo(), bits.clone()).unwrap();
    assert_eq!(buffer.layout(), stereo());
    assert_eq!(buffer.samples(), &bits[..]);
    assert_eq!(buffer.len(), 4);
    assert_eq!(buffer.frames(), 2);
}

#[test]
fn mono_buffer_has_one_frame_per_sample() {
    let buffer = PcmBuffer::new(Layout { rate: 8000, channels: 1 }, vec![1, 2, 3]).unwrap();
    assert_eq!(buffer.len(), 3);
    assert_eq!(buffer.frames(), 3);
}

#[test]
fn empty_buffer_is_refused() {
    assert!(PcmBuffer::new(stereo(), vec![]).is_none());
}

#[test]
fn ragged_buffer_is_refused() {
    assert!(PcmBuffer::new(stereo(), vec![1, 2, 3]).is_none());
    assert!(PcmBuffer::new(Layout { rate: 48000, channels: 3 }, vec![1, 2, 3, 4]).is_none());
}

#[test]
fn buffer_without_channels_is_refused() {
    assert!(PcmBuffer::new(Layout { rate: 44100, channels: 0 }, vec![1, 2]).is_none());
}

#[test]
fn clone_holds_the_same_samples() {
    let buffer = PcmBuffer::new(stereo(), vec![7, 8, 9, 10]).unwrap();
    let copy = buffer.clone();
    assert_eq!(copy.samples(), buffer.samples());
    assert_eq!(copy.layout(), buffer.layout());
}
