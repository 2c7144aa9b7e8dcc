use neuro_note::assistants::{Assistant, AssistantManager};
use neuro_note::config::{
    default_assistant, default_audio_format, default_auto_detect, default_format,
    default_gate_model, default_model, default_openrouter_gate_model, default_openrouter_model,
    default_quality, default_translation, AiProvider, AppConfig, ConfigManager,
};

fn assistant(id: &str, name: &str) -> Assistant {
    Assistant {
        id: id.to_string(),
        name: name.to_string(),
        description: String::new(),
        system_prompt: "prompt".to_string(),
        gate_instructions: String::new(),
        output_policy: String::new(),
    }
}

#[test]
fn test_from_parts_accepts_valid_catalogue() {
    let m = AssistantManager::from_parts(
        vec![assistant("general", "General"), assistant("coder", "Coder")],
        "general".to_string(),
    )
    .expect("valid catalogue");
    assert_eq!(m.get_default_id(), "general");
    assert_eq!(m.get_assistant("coder").expect("coder exists").name, "Coder");
    assert!(m.get_assistant("unknown").is_none());
    assert_eq!(m.get_default_assistant().id, "general");
}

#[test]
fn test_from_parts_error_variants() {
    let e = AssistantManager::from_parts(vec![], "x".to_string()).expect_err("empty list");
    assert_eq!(e, "No assistants defined in config file");

    let e = AssistantManager::from_parts(vec![assistant("", "N")], "x".to_string())
        .expect_err("empty id");
    assert_eq!(e, "Assistant with empty ID found in config");

    let e = AssistantManager::from_parts(vec![assistant("a", "")], "x".to_string())
        .expect_err("empty name");
    assert_eq!(e, "Assistant 'a' has empty name");

    let mut no_prompt = assistant("a", "A");
    no_prompt.system_prompt = String::new();
    let e = AssistantManager::from_parts(vec![no_prompt], "x".to_string())
        .expect_err("empty system prompt");
    assert_eq!(e, "Assistant 'a' has empty system_prompt");

    let e = AssistantManager::from_parts(vec![assistant("a", "A")], "missing".to_string())
        .expect_err("default not in list");
    assert_eq!(e, "Default assistant 'missing' not found in assistants list");
}

#[test]
fn test_duplicate_id_replaces_entry() {
    let m = AssistantManager::from_parts(
        vec![assistant("a", "First"), assistant("a", "Second")],
        "a".to_string(),
    )
    .expect("catalogue with a repeated id");
    assert_eq!(m.get_assistant("a").expect("entry").name, "Second");
    assert_eq!(m.list_assistants().len(), 1);
}

#[test]
fn test_list_assistants_sorted_by_name() {
    let m = AssistantManager::from_parts(
        vec![assistant("z", "Zulu"), assistant("a", "Alpha"), assistant("m", "Mike")],
        "a".to_string(),
    )
    .expect("catalogue");
    let names: Vec<&str> = m.list_assistants().iter().map(|a| a.name.as_str()).collect();
    assert_eq!(names, vec!["Alpha", "Mike", "Zulu"]);
}

#[test]
fn test_empty_manager() {
    let m = AssistantManager::empty();
    assert_eq!(m.get_default_id(), "");
    assert!(m.get_assistant("anything").is_none());
    assert!(m.list_assistants().is_empty());
}

#[test]
fn test_config_defaults() {
    let c = AppConfig::default();
    assert_eq!(c.soniox.api_key, "");
    assert_eq!(c.soniox.audio_format, "pcm_s16le");
    assert_eq!(c.soniox.translation, "none");
    assert_eq!(c.openai.model, "gpt-4.1");
    assert_eq!(c.openai.gate_model, "gpt-4.1-nano");
    assert_eq!(c.openrouter.model, "deepseek/deepseek-chat-v3-0324:free");
    assert_eq!(c.recording.default_format, "mp3");
    assert_eq!(c.recording.default_quality, "verylow");
    assert!(c.recording.auto_detect_enabled);
    assert!(!c.ui.enable_soniox);
    assert!(!c.ui.enable_ai);
    assert_eq!(c.ui.default_assistant, "general");
    assert_eq!(c.ui.ai_provider, AiProvider::Openai);
}

#[test]
fn test_default_functions() {
    assert_eq!(default_audio_format(), "pcm_s16le");
    assert_eq!(default_translation(), "none");
    assert_eq!(default_model(), "gpt-4.1");
    assert_eq!(default_gate_model(), "gpt-4.1-nano");
    assert_eq!(default_openrouter_model(), "deepseek/deepseek-chat-v3-0324:free");
    assert_eq!(default_openrouter_gate_model(), "deepseek/deepseek-chat-v3-0324:free");
    assert_eq!(default_format(), "mp3");
    assert_eq!(default_quality(), "verylow");
    assert!(default_auto_detect());
    assert_eq!(default_assistant(), "general");
}

#[test]
fn test_create_default_config() {
    let c = ConfigManager::create_default_config();
    assert_eq!(c.recording.default_format, "mp3");
    assert_eq!(c.ui.default_assistant, "general");
}
