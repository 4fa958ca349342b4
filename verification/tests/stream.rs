use english_input_assistant::llm::{parse_response, translation_prefix_candidates, TranslationResult};
use english_input_assistant::stream::{EventFramer, EventPart, StreamEvent, StreamReader, StreamResponse};

/// Reads a translation the way the app's reply parser does: `translated` and
/// `explanation` are required strings, `source_is_english` defaults to false.
fn parse_translation(text: String) -> Option<TranslationResult> {
    let value: serde_json::Value = serde_json::from_str(&text).ok()?;
    let object = value.as_object()?;
    Some(TranslationResult {
        translated: object.get("translated")?.as_str()?.to_string(),
        explanation: object.get("explanation")?.as_str()?.to_string(),
        source_is_english: match object.get("source_is_english") {
            Some(flag) => flag.as_bool()?,
            None => false,
        },
    })
}

/// Reads each early-translation candidate the way the app does: both
/// `source_is_english` and `translated` are required.
fn read_candidates(reader: &StreamReader) -> Vec<Option<TranslationResult>> {
    translation_prefix_candidates(reader.text())
        .into_iter()
        .map(|candidate| {
            let value: serde_json::Value = serde_json::from_str(&candidate).ok()?;
            Some(TranslationResult {
                translated: value.get("translated")?.as_str()?.to_string(),
                explanation: String::new(),
                source_is_english: value.get("source_is_english")?.as_bool()?,
            })
        })
        .collect()
}

/// Drives a reader over a whole stream, showing the first translation
/// that becomes readable, and returns the final result and what was shown.
fn read_stream(input: &str) -> (Result<TranslationResult, String>, Vec<String>) {
    let mut reader = StreamReader::new();
    let mut shown = Vec::new();
    for line in input.split_inclusive('\n') {
        match reader.read_line(line) {
            Ok(true) => {
                let previews = read_candidates(&reader);
                if let Some(preview) = reader.offer_first_preview(previews) {
                    shown.push(preview.translated);
                }
            }
            Ok(false) => {}
            Err(e) => return (Err(e), shown),
        }
    }
    match reader.read_end() {
        Ok(true) => {
            let previews = read_candidates(&reader);
            if let Some(preview) = reader.offer_first_preview(previews) {
                shown.push(preview.translated);
            }
        }
        Ok(false) => {}
        Err(e) => return (Err(e), shown),
    }
    let parsed = parse_response(reader.text(), parse_translation);
    (reader.finish(parsed), shown)
}

/// One server-sent event whose candidate carries `text`, and a finish reason when given.
fn event(text: &str, finish: Option<&str>) -> String {
    let quoted = serde_json::to_string(text).unwrap();
    match finish {
        Some(reason) => format!(
            "data: {{\"candidates\":[{{\"content\":{{\"parts\":[{{\"text\":{quoted}}}]}},\"finishReason\":\"{reason}\"}}]}}\n\n"
        ),
        None => format!("data: {{\"candidates\":[{{\"content\":{{\"parts\":[{{\"text\":{quoted}}}]}}}}]}}\n\n"),
    }
}

#[test]
fn server_error_details_are_not_exposed() {
    for data in [
        r#"{"error":{"message":"dummy-secret-api-key"}}"#,
        r#"{"promptFeedback":{"blockReason":"dummy-secret-api-key"}}"#,
        r#"{"candidates":[{"finishReason":"dummy-secret-api-key"}]}"#,
    ] {
        let input = format!("data: {data}\n\n");
        let error = read_stream(&input).0.unwrap_err();
        assert!(!error.contains("dummy-secret-api-key"));
    }
}

#[test]
fn malformed_translation_does_not_echo_raw_content() {
    let error = parse_response(r#"{"translated": "dummy-secret-api-key"}"#, parse_translation).unwrap_err();
    assert!(!error.contains("dummy-secret-api-key"));
}

#[test]
fn streamed_reply_is_shown_early_and_completed() {
    let mut input = String::new();
    input.push_str(&event("{\"source_is_english\":false,", None));
    input.push_str(&event("\"translated\":\"Hello there.\",", None));
    input.push_str(&event("\"explanation\":\"挨拶です。\"}", Some("STOP")));
    input.push_str("data: [DONE]\n\n");
    let (result, shown) = read_stream(&input);
    let result = result.unwrap();
    assert_eq!(result.translated, "Hello there.");
    assert_eq!(result.explanation, "挨拶です。");
    assert!(!result.source_is_english);
    assert_eq!(shown, vec!["Hello there.".to_string()]);
}

#[test]
fn stream_without_finish_reason_is_incomplete() {
    let input = event("{\"translated\":\"Hi\",\"explanation\":\"x\",\"source_is_english\":true}", None);
    let error = read_stream(&input).0.unwrap_err();
    assert_eq!(error, "生成完了前に Gemini ストリームが終了しました");
}

#[test]
fn abnormal_finish_reason_stops_the_stream() {
    let input = event("{\"translated\":\"Hi\"", Some("MAX_TOKENS"));
    let error = read_stream(&input).0.unwrap_err();
    assert_eq!(error, "Gemini の生成が完了前に停止しました。");
}

#[test]
fn each_server_error_has_its_own_fixed_message() {
    let cases = [
        (r#"{"error":{"code":500}}"#, "Gemini がストリームエラーを返しました。"),
        (r#"{"promptFeedback":{"blockReason":"SAFETY"}}"#, "Gemini がリクエストをブロックしました。"),
    ];
    for (data, expected) in cases {
        let mut reader = StreamReader::new();
        assert_eq!(reader.read_line(&format!("data: {data}\n")).unwrap(), false);
        assert_eq!(reader.read_line("\n").unwrap_err(), expected);
    }
}

#[test]
fn unreadable_event_is_reported_as_invalid() {
    let mut response = StreamResponse::new();
    let error = response.push("{not json").unwrap_err();
    assert!(error.starts_with("無効な Gemini ストリームイベント: "));
    assert_eq!(response.text(), "");
}

#[test]
fn blank_and_done_events_change_nothing() {
    let mut response = StreamResponse::new();
    assert_eq!(response.push("  ").unwrap(), false);
    assert_eq!(response.push(" [DONE] ").unwrap(), false);
    assert_eq!(response.text(), "");
}

#[test]
fn thoughts_are_not_part_of_the_reply() {
    let mut response = StreamResponse::new();
    let data = r#"{"candidates":[{"content":{"parts":[{"text":"thinking","thought":true},{"text":"{\"a\":"},{"text":"1}","thought":false}]}}]}"#;
    assert_eq!(response.push(data).unwrap(), true);
    assert_eq!(response.text(), "{\"a\":1}");
}

#[test]
fn changed_translation_after_display_is_rejected() {
    let mut response = StreamResponse::new();
    let data = r#"{"candidates":[{"content":{"parts":[{"text":"x"}]},"finishReason":"STOP"}]}"#;
    response.push(data).unwrap();
    let preview = TranslationResult { translated: "First.".into(), explanation: String::new(), source_is_english: false };
    assert!(response.offer_preview(preview));
    assert!(response.preview().is_some());
    let changed = TranslationResult { translated: "Second.".into(), explanation: "e".into(), source_is_english: false };
    assert_eq!(response.finish(Ok(changed)).unwrap_err(), "表示後に Gemini が翻訳を変更しました");
}

#[test]
fn blank_translation_is_rejected() {
    let mut response = StreamResponse::new();
    response.push(r#"{"candidates":[{"finishReason":"STOP"}]}"#).unwrap();
    let blank = TranslationResult { translated: "  ".into(), explanation: "e".into(), source_is_english: true };
    assert_eq!(response.finish(Ok(blank)).unwrap_err(), "Gemini が空の翻訳を返しました");
}

#[test]
fn blank_preview_is_not_shown() {
    let mut response = StreamResponse::new();
    let blank = TranslationResult { translated: " ".into(), explanation: String::new(), source_is_english: true };
    assert!(!response.offer_preview(blank));
    assert!(response.preview().is_none());
}

#[test]
fn framer_joins_data_lines_and_ignores_other_fields() {
    let mut framer = EventFramer::new();
    assert!(framer.feed_line(": keep-alive\r\n").is_none());
    assert!(framer.feed_line("event: message\n").is_none());
    assert!(framer.feed_line("data: first\r\n").is_none());
    assert!(framer.feed_line("data:second\n").is_none());
    assert_eq!(framer.feed_line("\r\n").unwrap(), "first\nsecond");
    assert_eq!(framer.feed_line("\n").unwrap(), "");
    assert!(framer.feed_line("data:  two spaces").is_none());
    assert_eq!(framer.finish(), " two spaces");
}

#[test]
fn reply_wrapped_in_text_is_recovered() {
    let body = "Here you go: {\"translated\":\"Hi\",\"explanation\":\"説明\"} thanks";
    let result = parse_response(body, parse_translation).unwrap();
    assert_eq!(result.translated, "Hi");
    assert!(!result.source_is_english);
    assert_eq!(parse_response("  no json here  ", parse_translation).unwrap_err(), "Failed to parse LLM response");
}

#[test]
fn read_event_fields_decide_the_response() {
    let mut response = StreamResponse::new();
    let event = StreamEvent {
        has_error: false,
        block_reason: None,
        finish_reason: Some("STOP".to_string()),
        parts: Some(vec![
            EventPart { thought: Some(true), text: Some("hidden".to_string()) },
            EventPart { thought: None, text: Some("{\"x\":".to_string()) },
            EventPart { thought: Some(false), text: Some("1}".to_string()) },
            EventPart { thought: None, text: None },
        ]),
    };
    assert!(response.apply_event(event).is_ok());
    assert_eq!(response.text(), "{\"x\":1}");
    let blocked = StreamEvent { has_error: false, block_reason: Some("OTHER".to_string()), finish_reason: None, parts: None };
    assert_eq!(response.apply_event(blocked).unwrap_err(), "Gemini がリクエストをブロックしました。");
    let failed = StreamEvent { has_error: true, block_reason: None, finish_reason: None, parts: None };
    assert_eq!(response.apply_event(failed).unwrap_err(), "Gemini がストリームエラーを返しました。");
    let cut = StreamEvent { has_error: false, block_reason: None, finish_reason: Some("SAFETY".to_string()), parts: None };
    assert_eq!(response.apply_event(cut).unwrap_err(), "Gemini の生成が完了前に停止しました。");
    assert_eq!(response.text(), "{\"x\":1}");
}

#[test]
fn first_candidate_with_english_text_is_shown() {
    let mut reader = StreamReader::new();
    let blank = TranslationResult { translated: " ".into(), explanation: String::new(), source_is_english: false };
    let good = TranslationResult { translated: "Hello.".into(), explanation: String::new(), source_is_english: true };
    let later = TranslationResult { translated: "Later.".into(), explanation: String::new(), source_is_english: true };
    let shown = reader.offer_first_preview(vec![None, Some(blank), Some(good), Some(later.clone())]).unwrap();
    assert_eq!(shown.translated, "Hello.");
    assert!(shown.source_is_english);
    // Once shown, nothing else is shown.
    assert!(reader.offer_first_preview(vec![Some(later)]).is_none());
}

#[test]
fn cancelled_reading_takes_nothing_more() {
    let mut reader = StreamReader::new();
    assert!(reader.check_current(true).is_ok());
    assert_eq!(reader.read_line("data: {\"candidates\":[]}\n").unwrap(), false);
    assert_eq!(reader.check_current(false).unwrap_err(), "翻訳をキャンセルしました");
    assert_eq!(reader.check_current(true).unwrap_err(), "翻訳をキャンセルしました");
    assert_eq!(reader.read_line("\n").unwrap_err(), "翻訳をキャンセルしました");
    assert_eq!(reader.read_end().unwrap_err(), "翻訳をキャンセルしました");
    let preview = TranslationResult { translated: "Hi.".into(), explanation: String::new(), source_is_english: true };
    assert!(reader.offer_first_preview(vec![Some(preview.clone())]).is_none());
    assert_eq!(reader.finish(Ok(preview)).unwrap_err(), "翻訳をキャンセルしました");
}

#[test]
fn failed_line_keeps_the_response() {
    let mut reader = StreamReader::new();
    reader.read_line("data: {\"error\":{}}\n").unwrap();
    assert!(reader.read_line("\n").is_err());
    assert_eq!(reader.text(), "");
    assert!(reader.read_end().is_ok());
}
