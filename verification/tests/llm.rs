use english_input_assistant::llm::{
    allowed_models, build_user_message, check_model, default_model, extract_first_json_object,
    gemini_stream_url, is_allowed_model, supports_thinking_config, translation_prefix_candidates,
};

#[test]
fn user_message_adds_instructions_only_when_given() {
    assert_eq!(build_user_message("こんにちは", ""), "こんにちは");
    assert_eq!(
        build_user_message("こんにちは", "Use plain English"),
        "こんにちは\n\n[Additional instructions: Use plain English]"
    );
}

#[test]
fn first_json_object_skips_braces_in_strings() {
    assert_eq!(extract_first_json_object("noise {\"a\":\"}\"} tail {\"b\":1}"), Some("{\"a\":\"}\"}"));
    assert_eq!(extract_first_json_object("x {\"a\":{\"b\":\"\\\"}\"}} y"), Some("{\"a\":{\"b\":\"\\\"}\"}}"));
    assert_eq!(extract_first_json_object("日本語 {\"訳\":\"英語\"}"), Some("{\"訳\":\"英語\"}"));
    assert_eq!(extract_first_json_object("no object"), None);
    assert_eq!(extract_first_json_object("{\"unclosed\": {}"), None);
}

#[test]
fn prefix_candidates_cut_after_complete_fields() {
    let candidates = translation_prefix_candidates("  {\"source_is_english\":true,\"translated\":\"Hi, \\\"you\\\"\",\"expl");
    assert_eq!(
        candidates,
        vec![
            "{\"source_is_english\":true}".to_string(),
            "{\"source_is_english\":true,\"translated\":\"Hi, \\\"you\\\"\"}".to_string(),
        ]
    );
    assert!(translation_prefix_candidates("not json, at all").is_empty());
    assert!(translation_prefix_candidates("").is_empty());
    assert_eq!(
        translation_prefix_candidates("{\"a\":[1,2],\"b\":{\"c\":3}}"),
        vec![
            "{\"a\":[1,2]}".to_string(),
            "{\"a\":[1,2],\"b\":{\"c\":3}}".to_string(),
        ]
    );
}

#[test]
fn models_offered_and_default() {
    let models = allowed_models();
    assert_eq!(models.len(), 2);
    assert_eq!(models[0].value, "gemini-2.5-flash-lite");
    assert_eq!(models[0].label, "Gemini 2.5 Flash-Lite");
    assert!(!models[0].is_default);
    assert_eq!(models[1].value, "gemini-2.5-flash");
    assert_eq!(models[1].label, "Gemini 2.5 Flash");
    assert!(models[1].is_default);
    assert_eq!(default_model(), "gemini-2.5-flash");
    assert!(is_allowed_model(default_model()));
}

#[test]
fn only_allowed_models_are_requested() {
    assert!(check_model("gemini-2.5-flash-lite").is_ok());
    assert_eq!(check_model("gemini-1.0-pro").unwrap_err(), "Invalid model: gemini-1.0-pro");
    assert!(!is_allowed_model("gemini-2.5-flash "));
}

#[test]
fn thinking_config_only_for_gemini_2_5() {
    assert!(supports_thinking_config("gemini-2.5-flash"));
    assert!(!supports_thinking_config("gemini-2.0-flash"));
}

#[test]
fn stream_url_never_holds_the_key() {
    assert_eq!(
        gemini_stream_url("gemini-2.5-flash"),
        "https://generativelanguage.googleapis.com/v1beta/models/gemini-2.5-flash:streamGenerateContent?alt=sse"
    );
}
