use neuro_note::analysis::{
    effective_system_prompt, filter_chat_models, get_model_priority, sort_models_by_priority,
    OpenAIOptions,
};
use neuro_note::gate::{
    default_gate_instructions, default_gate_model, default_main_system_prompt, gate_fallback_run,
    interpret_gate_response, log_gate_prompt, prepare_gate_prompt, GateDecision, GateOptions,
};
use neuro_note::text::{str_eq, str_lex_le, str_starts_with, trim_str, u64_to_dec};

#[test]
fn test_prepare_gate_prompt_builds_both_strings() {
    let p = prepare_gate_prompt("OpenAI", "role text", "rule text", "current t", "previous t", Some("last t"))
        .expect("non-empty transcript");
    assert_eq!(
        p.system_prompt,
        "You decide if the main assistant should re-run.\nRole: role text\nRules: rule text\nOutput MUST be STRICT JSON with keys: run(boolean), instruction(NEEDED|NOT_NEEDED), reason(string), confidence(number). No extra text."
    );
    assert_eq!(
        p.user_prompt,
        "Current transcript:\ncurrent t\n\nPrevious transcript:\nprevious t\n\nLast output (optional):\nlast t\n\nReturn ONLY this JSON: {\"run\": boolean, \"instruction\": \"NEEDED\"|\"NOT_NEEDED\", \"reason\": string, \"confidence\": number}"
    );
    assert_eq!(p.current_len, 9);
    assert_eq!(p.previous_len, 10);
    assert_eq!(p.last_output_len, 6);
}

#[test]
fn test_prepare_gate_prompt_rejects_blank_transcript() {
    let d = prepare_gate_prompt("OpenAI", "r", "g", "  \t ", "p", None)
        .expect_err("a blank transcript yields no call");
    assert!(!d.run);
    assert_eq!(d.instruction.as_deref(), Some("NOT_NEEDED"));
    assert_eq!(d.reason.as_deref(), Some("Empty transcript"));
}

#[test]
fn test_log_gate_prompt_lines() {
    let p = prepare_gate_prompt("OpenAI", "r", "g", "c", "p", None).expect("prepared");
    let (first, second) = log_gate_prompt("OpenAI", "gpt-4.1-nano", &p);
    assert_eq!(
        first,
        format!(
            "OpenAI(Gate): Prompt system=<<<{}>>> user=<<<{}>>>",
            p.system_prompt, p.user_prompt
        )
    );
    assert_eq!(
        second,
        format!(
            "OpenAI(Gate): Request model=gpt-4.1-nano current_len={} previous_len={} last_out_len={}",
            p.current_len, p.previous_len, p.last_output_len
        )
    );
}

#[test]
fn test_gate_fallback_heuristic() {
    let long_sentence = "x".repeat(60) + ".";
    assert!(gate_fallback_run(&long_sentence, ""));
    // Ends a sentence but grew too little.
    assert!(!gate_fallback_run("Short.", ""));
    // Grew enough but does not end a sentence.
    let long_open = "x".repeat(80);
    assert!(!gate_fallback_run(&long_open, ""));
    // Trailing white space is ignored when looking at the last character.
    let padded = "y".repeat(60) + "!   ";
    assert!(gate_fallback_run(&padded, ""));
}

#[test]
fn test_interpret_gate_response_paths() {
    let parsed = GateDecision { run: true, instruction: None, reason: Some("because".to_string()) };
    let r = interpret_gate_response(Some(parsed), "c", "p");
    assert!(r.run);
    assert_eq!(r.instruction.as_deref(), Some("NEEDED"));
    assert_eq!(r.reason.as_deref(), Some("because"));

    let long_sentence = "x".repeat(60) + ".";
    let r = interpret_gate_response(None, &long_sentence, "");
    assert!(r.run);
    assert_eq!(r.instruction.as_deref(), Some("NEEDED"));
    assert_eq!(r.reason.as_deref(), Some("Fallback heuristic"));

    let r = interpret_gate_response(None, "tiny", "");
    assert!(!r.run);
    assert_eq!(r.instruction.as_deref(), Some("NOT_NEEDED"));
}

#[test]
fn test_gate_defaults() {
    assert_eq!(default_gate_model(), "gpt-4.1-nano");
    assert!(default_main_system_prompt().starts_with("You are an AI assistant"));
    assert!(default_gate_instructions().starts_with("Run when there is new"));
    let o = GateOptions {
        api_key: "k".to_string(),
        model: default_gate_model(),
        main_system_prompt: default_main_system_prompt(),
        gate_instructions: default_gate_instructions(),
    };
    assert_eq!(o.model, "gpt-4.1-nano");
}

#[test]
fn test_model_priority_ranks() {
    assert_eq!(get_model_priority("o1-preview"), 1);
    assert_eq!(get_model_priority("o1-mini"), 2);
    assert_eq!(get_model_priority("gpt-4.1-nano"), 3);
    assert_eq!(get_model_priority("gpt-4.1"), 3);
    assert_eq!(get_model_priority("gpt-4o"), 4);
    assert_eq!(get_model_priority("gpt-3.5-turbo"), 5);
    assert_eq!(get_model_priority("davinci"), 6);
}

#[test]
fn test_filter_and_sort_models() {
    let ids: Vec<String> = ["zeta", "gpt-4o", "o1-mini", "gpt-3.5-turbo", "gpt-4.1"]
        .iter()
        .map(|s| s.to_string())
        .collect();
    let kept = filter_chat_models(&ids);
    assert_eq!(kept, vec!["gpt-4o", "o1-mini", "gpt-3.5-turbo", "gpt-4.1"]);
    let sorted = sort_models_by_priority(&kept);
    assert_eq!(sorted, vec!["o1-mini", "gpt-4.1", "gpt-4o", "gpt-3.5-turbo"]);
    // Models of equal rank keep their relative order.
    let ties: Vec<String> = ["gpt-4b", "gpt-4a"].iter().map(|s| s.to_string()).collect();
    assert_eq!(sort_models_by_priority(&ties), vec!["gpt-4b", "gpt-4a"]);
}

#[test]
fn test_effective_system_prompt_composition() {
    assert_eq!(effective_system_prompt("base", "  "), "base");
    assert_eq!(effective_system_prompt("base", "policy"), "base\n\npolicy");
    let o = OpenAIOptions {
        api_key: "k".to_string(),
        model: "gpt-4.1".to_string(),
        system_prompt: "s".to_string(),
        output_policy: String::new(),
    };
    assert_eq!(o.model, "gpt-4.1");
}

#[test]
fn test_text_helpers() {
    assert_eq!(u64_to_dec(0), "0");
    assert_eq!(u64_to_dec(90321), "90321");
    assert_eq!(trim_str("  padded words \n"), "padded words");
    assert!(str_eq("same", "same"));
    assert!(!str_eq("same", "Same"));
    assert!(str_starts_with("gpt-4o", "gpt-4"));
    assert!(!str_starts_with("gpt", "gpt-4"));
    assert!(str_lex_le("abc", "abd"));
    assert!(str_lex_le("ab", "abc"));
    assert!(!str_lex_le("b", "ab"));
}
