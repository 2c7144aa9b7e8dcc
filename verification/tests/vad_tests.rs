use neuro_note::levels::{chunk_peak, chunk_rms, isqrt_u64, zero_crossings};
use neuro_note::vad::{pre_roll_capacity, Vad, VadConfig};

fn config() -> VadConfig {
    VadConfig {
        threshold: 1000,
        min_speech_ms: 300,
        silence_ms: 800,
        cooldown_ms: 500,
        pre_roll_capacity: 250,
    }
}

// 100 samples at 1000 Hz mono: one chunk is 100 ms of audio.
fn chunk(value: i16) -> Vec<i16> {
    vec![value; 100]
}

#[test]
fn test_short_activity_never_starts_segment() {
    let mut vad = Vad::new(config());
    // 200 ms of loud audio: below the 300 ms speech threshold.
    for _ in 0..2 {
        let out = vad.process_chunk(&chunk(20000), 1, 1000);
        assert!(!out.segment_started);
        assert!(out.preroll.is_none());
        assert!(!out.write_chunk);
    }
    assert!(!vad.is_recording_voice());
}

#[test]
fn test_sustained_activity_starts_exactly_once() {
    let mut vad = Vad::new(config());
    let mut starts = 0;
    for _ in 0..6 {
        let out = vad.process_chunk(&chunk(20000), 1, 1000);
        assert_eq!(out.chunk_ms, 100);
        if out.segment_started {
            starts += 1;
            assert!(out.write_chunk);
        }
    }
    // Detection persisted 600 ms: the segment started exactly once, at the
    // chunk that reached 300 ms.
    assert_eq!(starts, 1);
    assert!(vad.is_recording_voice());
}

#[test]
fn test_preroll_is_handed_over_on_start() {
    let mut vad = Vad::new(VadConfig { pre_roll_capacity: 250, ..config() });
    assert!(vad.process_chunk(&chunk(20001), 1, 1000).preroll.is_none());
    assert!(vad.process_chunk(&chunk(20002), 1, 1000).preroll.is_none());
    let out = vad.process_chunk(&chunk(20003), 1, 1000);
    assert!(out.segment_started);
    // The pre-roll to persist before the chunk: the last 250 samples seen,
    // oldest first.
    let mut expected = vec![20001i16; 50];
    expected.extend(vec![20002i16; 100]);
    expected.extend(vec![20003i16; 100]);
    assert_eq!(out.preroll.expect("preroll on start"), expected);
    assert!(out.write_chunk);
}

#[test]
fn test_silence_ends_segment_and_cooldown_holds() {
    let mut vad = Vad::new(config());
    for _ in 0..3 {
        vad.process_chunk(&chunk(20000), 1, 1000);
    }
    assert!(vad.is_recording_voice());
    // Quiet until the smoothed level decays below the threshold, then the
    // silence countdown runs; through all of it the chunk is still written.
    let mut ended = 0;
    for _ in 0..40 {
        let out = vad.process_chunk(&chunk(0), 1, 1000);
        if vad.is_recording_voice() || out.segment_ended {
            assert!(out.write_chunk);
        }
        if out.segment_ended {
            ended += 1;
        }
    }
    assert_eq!(ended, 1);
    assert!(!vad.is_recording_voice());
}

#[test]
fn test_calibration_freezes_threshold() {
    let mut vad = Vad::new(VadConfig { threshold: 50, ..config() });
    assert_eq!(vad.effective_threshold(), 50);
    let mut calibrated = None;
    for _ in 0..10 {
        let out = vad.process_chunk(&chunk(100), 1, 1000);
        if let Some(t) = out.calibrated_threshold {
            calibrated = Some(t);
        }
    }
    // Constant level 100 for the whole window: six times the average noise
    // energy wins over the peak term and the floor.
    assert_eq!(calibrated, Some(600));
    assert_eq!(vad.effective_threshold(), 600);
}

#[test]
fn test_levels_exact_values() {
    assert_eq!(chunk_rms(&[3000, 3000, 3000, 3000]), 3000);
    assert_eq!(chunk_rms(&[]), 0);
    assert_eq!(chunk_peak(&[-5, 3]), 5);
    assert_eq!(chunk_peak(&[i16::MIN]), 32768);
    assert_eq!(chunk_peak(&[]), 0);
}

#[test]
fn test_isqrt_rounds_down() {
    assert_eq!(isqrt_u64(0), 0);
    assert_eq!(isqrt_u64(24), 4);
    assert_eq!(isqrt_u64(25), 5);
    assert_eq!(isqrt_u64(9_000_000), 3000);
}

#[test]
fn test_zero_crossings_steps_by_channel() {
    assert_eq!(zero_crossings(&[1, -1, 1, -1], 1), 3);
    assert_eq!(zero_crossings(&[1, -1, 1, -1], 2), 0);
    assert_eq!(zero_crossings(&[], 1), 0);
}

#[test]
fn test_pre_roll_capacity_formula() {
    assert_eq!(pre_roll_capacity(250, 16000, 2), 8000);
    assert_eq!(pre_roll_capacity(0, 48000, 1), 0);
}
