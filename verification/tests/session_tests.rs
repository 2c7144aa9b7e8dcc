use neuro_note::session::{
    wire_config, AudioChunk, InboundMessage, MessageOutcome, ProviderKind, SessionState,
    SonioxControl, SonioxOptions, Translation, TranscriptEvent,
};
use neuro_note::transcript::Token;

fn opts(audio_format: &str, translation: &str) -> SonioxOptions {
    SonioxOptions {
        api_key: "k".to_string(),
        audio_format: audio_format.to_string(),
        translation: translation.to_string(),
    }
}

fn final_token(text: &str, speaker: i64) -> Token {
    Token {
        text: text.to_string(),
        is_final: true,
        speaker: Some(speaker),
        language: Some("en".to_string()),
    }
}

fn message(tokens: Vec<Token>, finished: bool) -> InboundMessage {
    InboundMessage { error_code: None, error_message: String::new(), tokens, finished }
}

#[test]
fn test_wire_config_pcm_defaults() {
    let c = wire_config(&opts("pcm_s16le", "none"));
    assert_eq!(c.api_key, "k");
    assert_eq!(c.model, "stt-rt-preview-v2");
    assert_eq!(c.language_hints, vec!["en".to_string(), "pl".to_string()]);
    assert!(c.enable_language_identification);
    assert!(c.enable_speaker_diarization);
    assert!(c.enable_endpoint_detection);
    assert_eq!(c.audio_format, "pcm_s16le");
    assert_eq!(c.sample_rate, Some(16000));
    assert_eq!(c.num_channels, Some(1));
    assert!(matches!(c.translation, Translation::NoTranslation));
}

#[test]
fn test_wire_config_auto_and_translations() {
    let c = wire_config(&opts("auto", "one_way"));
    assert_eq!(c.audio_format, "auto");
    assert_eq!(c.sample_rate, None);
    assert_eq!(c.num_channels, None);
    match c.translation {
        Translation::OneWay { target_language } => assert_eq!(target_language, "es"),
        _ => panic!("expected one-way translation"),
    }
    let c = wire_config(&opts("pcm_s16le", "two_way"));
    match c.translation {
        Translation::TwoWay { language_a, language_b } => {
            assert_eq!(language_a, "en");
            assert_eq!(language_b, "es");
        }
        _ => panic!("expected two-way translation"),
    }
}

#[test]
fn test_handle_audio_reports_sent_bytes() {
    let mut s = SessionState::new();
    // 24000 mono samples at the wire rate: 48000 bytes, the report boundary.
    let chunk = AudioChunk { samples: vec![7; 24000], channels: 1, sample_rate: 16000 };
    let (frame, report) = s.handle_audio(&chunk);
    assert_eq!(frame.len(), 48000);
    assert_eq!(report, Some(48000));
    // The counter reset: a small chunk reports nothing.
    let small = AudioChunk { samples: vec![7; 10], channels: 1, sample_rate: 16000 };
    let (frame, report) = s.handle_audio(&small);
    assert_eq!(frame.len(), 20);
    assert_eq!(report, None);
}

#[test]
fn test_handle_message_error_ends_session() {
    let mut s = SessionState::new();
    let msg = InboundMessage {
        error_code: Some("401".to_string()),
        error_message: "bad key".to_string(),
        tokens: vec![],
        finished: false,
    };
    let out = s.handle_message(&msg);
    match out.event {
        TranscriptEvent::Failed(text) => assert_eq!(text, "401 - bad key"),
        _ => panic!("expected a failure event"),
    }
    assert!(out.ends_session);
    assert!(!out.finished);
}

#[test]
fn test_handle_message_emits_rendering() {
    let mut s = SessionState::new();
    let out = s.handle_message(&message(vec![final_token("Hello", 1)], false));
    match out.event {
        TranscriptEvent::Emit(text) => {
            assert!(text.contains("Speaker 1: [en] Hello."));
            assert_eq!(s.last_emitted(), &text);
        }
        _ => panic!("expected an emitted transcript"),
    }
    assert!(!out.ends_session);
}

#[test]
fn test_clear_suppresses_identical_rendering_once() {
    let mut s = SessionState::new();
    let first = s.handle_message(&message(vec![final_token("Hi", 1)], false));
    let emitted = match first.event {
        TranscriptEvent::Emit(text) => text,
        _ => panic!("expected an emitted transcript"),
    };
    s.handle_clear();
    // The same tokens render to the cleared text: emitted once, not again.
    let again = s.handle_message(&message(vec![final_token("Hi", 1)], false));
    assert!(matches!(again.event, TranscriptEvent::Suppressed));
    assert!(!again.ends_session);
    // A different rendering disarms the suppression and is emitted.
    let third = s.handle_message(&message(vec![final_token(" and more", 1)], false));
    match third.event {
        TranscriptEvent::Emit(text) => assert_ne!(text, emitted),
        _ => panic!("expected an emitted transcript"),
    }
}

#[test]
fn test_handle_message_no_speech_placeholder() {
    let mut s = SessionState::new();
    let out = s.handle_message(&message(vec![], false));
    assert!(matches!(out.event, TranscriptEvent::NoSpeech));
    assert_eq!(s.last_emitted(), "[no speech detected]");
}

#[test]
fn test_finished_flag_ends_session() {
    let mut s = SessionState::new();
    let out: MessageOutcome = s.handle_message(&message(vec![final_token("Bye", 1)], true));
    assert!(out.finished);
    assert!(out.ends_session);
}

#[test]
fn test_control_and_provider_kinds_exist() {
    let cmd = SonioxControl::ClearTranscript;
    assert!(matches!(cmd, SonioxControl::ClearTranscript));
    assert_eq!(ProviderKind::Soniox, ProviderKind::Soniox);
}
