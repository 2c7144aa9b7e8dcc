use neuro_note::writer::{
    encode_buffer_size, quality_settings, split_channels, Mp3FrameBuffer, FRAME_SAMPLES_PER_CHANNEL,
};

#[test]
fn test_exact_frame_produces_one_encode() {
    let mut w = Mp3FrameBuffer::new(1);
    let mut frames = 0;
    for i in 0..FRAME_SAMPLES_PER_CHANNEL {
        match w.push_sample(i as i16) {
            Some(frame) => {
                frames += 1;
                // Mono duplicates the buffer into both channels.
                assert_eq!(frame.left.len(), FRAME_SAMPLES_PER_CHANNEL);
                assert_eq!(frame.left, frame.right);
                assert_eq!(frame.left[3], 3);
                // The frame came exactly at the boundary.
                assert_eq!(i + 1, FRAME_SAMPLES_PER_CHANNEL);
            }
            None => assert!(i + 1 < FRAME_SAMPLES_PER_CHANNEL),
        }
    }
    assert_eq!(frames, 1);
    // The buffer was cleared: finalizing right after yields nothing.
    assert!(w.finalize().is_none());
}

#[test]
fn test_stereo_frame_boundary() {
    let mut w = Mp3FrameBuffer::new(2);
    let total = 2 * FRAME_SAMPLES_PER_CHANNEL;
    let mut frames = 0;
    for i in 0..total {
        if let Some(frame) = w.push_sample(i as i16) {
            frames += 1;
            assert_eq!(frame.left.len(), FRAME_SAMPLES_PER_CHANNEL);
            assert_eq!(frame.right.len(), FRAME_SAMPLES_PER_CHANNEL);
            assert_eq!(frame.left[0], 0);
            assert_eq!(frame.right[0], 1);
            assert_eq!(frame.left[1], 2);
        }
    }
    assert_eq!(frames, 1);
}

#[test]
fn test_finalize_flushes_partial_frame() {
    let mut w = Mp3FrameBuffer::new(2);
    assert!(w.push_sample(10).is_none());
    assert!(w.push_sample(20).is_none());
    assert!(w.push_sample(30).is_none());
    let frame = w.finalize().expect("partial frame on finalize");
    // The lone trailing sample is zero-padded on the right channel.
    assert_eq!(frame.left, vec![10, 30]);
    assert_eq!(frame.right, vec![20, 0]);
}

#[test]
fn test_finalize_empty_yields_nothing() {
    let w = Mp3FrameBuffer::new(1);
    assert!(w.finalize().is_none());
}

#[test]
fn test_split_channels_mono_duplicates() {
    let frame = split_channels(&vec![1, 2, 3], 1);
    assert_eq!(frame.left, vec![1, 2, 3]);
    assert_eq!(frame.right, vec![1, 2, 3]);
}

#[test]
fn test_quality_settings_mapping() {
    assert_eq!(quality_settings("verylow"), (64, 9));
    assert_eq!(quality_settings("low"), (128, 7));
    assert_eq!(quality_settings("medium"), (192, 5));
    assert_eq!(quality_settings("high"), (320, 2));
    assert_eq!(quality_settings("anything"), (192, 5));
}

#[test]
fn test_encode_buffer_size_formula() {
    // Small frames stay at the fixed floor.
    assert_eq!(encode_buffer_size(1152), 16384);
    // Large frames outgrow it: a quarter again plus the codec headroom.
    assert_eq!(encode_buffer_size(100000), 100000 * 5 / 4 + 7200);
}
