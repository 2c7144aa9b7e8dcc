use neuro_note::transcript::{
    clean_transcript_text_preserve_spacing, extract_speaker_id, format_transcript_line,
    render_tokens, Token,
};

fn token(text: &str, is_final: bool, speaker: Option<i64>, language: Option<&str>) -> Token {
    Token {
        text: text.to_string(),
        is_final,
        speaker,
        language: language.map(|l| l.to_string()),
    }
}

#[test]
fn test_render_tokens_basic() {
    let final_tokens = vec![
        token("Hello ", true, Some(1), Some("en")),
        token("world", true, Some(1), Some("en")),
    ];
    let non_final = vec![token("!", false, Some(1), Some("en"))];
    let txt = render_tokens(&final_tokens, &non_final);
    assert!(txt.contains("Speaker 1:"));
    assert!(txt.contains("[en]"));
    assert!(txt.contains("Hello world!"));
}

#[test]
fn test_token_rendering() {
    let final_tokens = vec![
        token("Hello ", true, Some(1), Some("en")),
        token("world", true, Some(1), Some("en")),
    ];
    let non_final = vec![token("!", false, Some(1), Some("en"))];

    let result = render_tokens(&final_tokens, &non_final);

    assert!(result.contains("Speaker 1:"));
    assert!(result.contains("[en]"));
    assert!(result.contains("Hello world!"));
    assert!(result.contains("==============================="));
}

#[test]
fn test_multi_speaker_rendering() {
    let tokens = vec![
        token("Hello", true, Some(1), Some("en")),
        token("Hi there", true, Some(2), Some("en")),
    ];

    let result = render_tokens(&tokens, &vec![]);

    assert!(result.contains("Speaker 1:"));
    assert!(result.contains("Speaker 2:"));
    assert!(result.contains("Hello"));
    assert!(result.contains("Hi there"));
}

#[test]
fn test_speakers_render_in_first_seen_order() {
    // Speaker 9 speaks first: its line must come first, whatever the ids.
    let tokens = vec![
        token("Later", true, Some(9), Some("en")),
        token("Sooner", true, Some(2), Some("en")),
    ];
    let result = render_tokens(&tokens, &vec![]);
    let p9 = result.find("Speaker 9:").expect("speaker 9 line");
    let p2 = result.find("Speaker 2:").expect("speaker 2 line");
    assert!(p9 < p2);
}

#[test]
fn test_unknown_speaker_renders_bare_label() {
    let tokens = vec![token("mystery words", true, None, None)];
    let result = render_tokens(&tokens, &vec![]);
    assert!(result.contains("Speaker: [?] Mystery words."));
}

#[test]
fn test_nonfinal_falls_back_to_last_final_speaker() {
    let finals = vec![token("Hello", true, Some(3), Some("en"))];
    let non_final = vec![token(" there", false, None, None)];
    let result = render_tokens(&finals, &non_final);
    assert!(result.contains("Speaker 3: [en] Hello there."));
}

#[test]
fn test_extract_speaker_id_fallbacks() {
    assert_eq!(extract_speaker_id(Some(5), Some(2)), 5);
    assert_eq!(extract_speaker_id(None, Some(2)), 2);
    assert_eq!(extract_speaker_id(None, None), 0);
}

#[test]
fn test_clean_removes_tags_and_markers() {
    assert_eq!(
        clean_transcript_text_preserve_spacing("a<END>b <tag>c [note]d [SILENCE]e"),
        "ab c d e"
    );
    // An unanswered opening bracket stays.
    assert_eq!(clean_transcript_text_preserve_spacing("a<b"), "a<b");
    assert_eq!(clean_transcript_text_preserve_spacing("plain words"), "plain words");
}

#[test]
fn test_format_transcript_line_cases() {
    assert_eq!(format_transcript_line("hello world"), "Hello world.");
    assert_eq!(format_transcript_line("  spaced out  "), "Spaced out.");
    assert_eq!(format_transcript_line("Done!"), "Done!");
    assert_eq!(format_transcript_line("   "), "");
    assert_eq!(format_transcript_line(""), "");
}
