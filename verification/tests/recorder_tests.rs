use neuro_note::recorder::{
    default_file_name, extension_for_format, state_name, Recorder, RecordingState,
};

#[test]
fn test_start_from_idle_yields_recording() {
    let mut rec = Recorder::new();
    assert_eq!(rec.get_current_state(), RecordingState::Idle);
    let out = rec
        .handle_start_command("a.wav".to_string(), "wav".to_string(), "high".to_string(), 10)
        .expect("start from idle");
    assert_eq!(out.0, "Started recording to: a.wav");
    assert_eq!(
        out.1,
        vec![
            RecordingState::Starting,
            RecordingState::Recording { start_time_ms: 10, elapsed_ms: 0 },
        ]
    );
    assert_eq!(
        rec.get_current_state(),
        RecordingState::Recording { start_time_ms: 10, elapsed_ms: 0 }
    );
    assert!(rec.is_writing_enabled());
}

#[test]
fn test_second_start_fails_and_leaves_state() {
    let mut rec = Recorder::new();
    rec.handle_start_command("a.wav".to_string(), "wav".to_string(), "high".to_string(), 10)
        .expect("start");
    let before = rec.get_current_state();
    let err = rec
        .handle_start_command("b.wav".to_string(), "wav".to_string(), "high".to_string(), 20)
        .expect_err("second start must fail");
    assert_eq!(err, "Cannot start recording in state: Recording");
    assert_eq!(rec.get_current_state(), before);
}

#[test]
fn test_pause_resume_accumulates_elapsed() {
    let mut rec = Recorder::new();
    rec.handle_start_command("a.wav".to_string(), "wav".to_string(), "high".to_string(), 0)
        .expect("start");
    let (msg, events) = rec.handle_pause_command(1000).expect("pause");
    assert_eq!(msg, "Recording paused");
    assert_eq!(events, vec![RecordingState::Paused { pause_time_ms: 1000, elapsed_ms: 1000 }]);
    assert!(!rec.is_writing_enabled());

    let (msg, events) = rec.handle_resume_command(3000).expect("resume");
    assert_eq!(msg, "Recording resumed");
    assert_eq!(
        events,
        vec![
            RecordingState::Resuming,
            RecordingState::Recording { start_time_ms: 3000, elapsed_ms: 0 },
        ]
    );
    assert!(rec.is_writing_enabled());

    // The second pause shows the accumulated active time: 1000 ms from the
    // first interval plus 500 ms from the second.
    let (_, events) = rec.handle_pause_command(3500).expect("second pause");
    assert_eq!(events, vec![RecordingState::Paused { pause_time_ms: 3500, elapsed_ms: 1500 }]);
}

#[test]
fn test_pause_outside_recording_fails() {
    let mut rec = Recorder::new();
    let err = rec.handle_pause_command(5).expect_err("pause from idle");
    assert_eq!(err, "Cannot pause in state: Idle");
    let err = rec.handle_resume_command(5).expect_err("resume from idle");
    assert_eq!(err, "Cannot resume in state: Idle");
    let err = rec.handle_stop_command().expect_err("stop from idle");
    assert_eq!(err, "Cannot stop in state: Idle");
}

#[test]
fn test_stop_returns_path_and_goes_idle() {
    let mut rec = Recorder::new();
    rec.handle_start_command("take.mp3".to_string(), "mp3".to_string(), "low".to_string(), 7)
        .expect("start");
    let (path, events) = rec.handle_stop_command().expect("stop");
    assert_eq!(path, "take.mp3");
    assert_eq!(events, vec![RecordingState::Stopping, RecordingState::Idle]);
    assert_eq!(rec.get_current_state(), RecordingState::Idle);
    assert!(!rec.is_writing_enabled());
}

#[test]
fn test_state_name_labels() {
    assert_eq!(state_name(&RecordingState::Idle), "Idle");
    assert_eq!(
        state_name(&RecordingState::Recording { start_time_ms: 1, elapsed_ms: 2 }),
        "Recording"
    );
    assert_eq!(state_name(&RecordingState::Stopping), "Stopping");
}

#[test]
fn test_default_file_name_is_zero_padded() {
    let name = default_file_name(2024, 3, 7, 9, 5, 30, "mp3");
    assert_eq!(name, "recording-20240307-090530.mp3");
}

#[test]
fn test_extension_for_format() {
    assert_eq!(extension_for_format("mp3"), "mp3");
    assert_eq!(extension_for_format("wav"), "wav");
    assert_eq!(extension_for_format("anything"), "wav");
}
