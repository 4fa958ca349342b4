use english_input_assistant::google_api::{api_key_header, request_error, request_error_message};

#[test]
fn key_is_sent_in_sensitive_header_not_url_or_debug_output() {
    let key = "dummy-secret-api-key";
    let client = reqwest::blocking::Client::new();
    for url in [
        "https://generativelanguage.googleapis.com/v1beta/models/gemini-2.5-flash:streamGenerateContent?alt=sse",
        "https://texttospeech.googleapis.com/v1/text:synthesize",
    ] {
        let request = client.post(url)
            .header("x-goog-api-key", api_key_header(key).unwrap())
            .build().unwrap();
        assert_eq!(request.headers()["x-goog-api-key"], key);
        assert!(request.headers()["x-goog-api-key"].is_sensitive());
        assert!(!request.url().as_str().contains(key));
        assert!(!format!("{request:?}").contains(key));
    }
}

#[test]
fn invalid_header_and_transport_errors_do_not_expose_secrets() {
    let key = "dummy-secret-api-key";
    let invalid = format!("{key}\r\nInjected: value");
    assert!(!api_key_header(&invalid).unwrap_err().contains(key));
    let url = format!("https://example.invalid/?key={key}");
    let error = reqwest::blocking::Client::new().post(&url)
        .header("x-goog-api-key", invalid).build().unwrap_err()
        .with_url(url.parse().unwrap());
    let message = request_error("Gemini", error);
    assert!(message.starts_with("Gemini リクエストに失敗しました:"));
    assert!(!message.contains(key));
    assert!(!message.contains("example.invalid"));
}

#[test]
fn invalid_key_message_is_fixed() {
    assert_eq!(
        api_key_header("bad\u{7f}key").unwrap_err(),
        "API キーの形式が無効です。設定でキーを確認してください。"
    );
    assert!(api_key_header("tab\tand high bytes é").is_ok());
}

#[test]
fn header_holds_the_key_itself() {
    let value = api_key_header("AIza-dummy").unwrap();
    assert_eq!(value, "AIza-dummy");
    assert!(value.is_sensitive());
}

#[test]
fn request_error_names_the_kind_of_failure() {
    assert_eq!(request_error_message("Google TTS", true, true), "Google TTS リクエストに失敗しました: リクエストがタイムアウトしました");
    assert_eq!(request_error_message("Gemini", false, true), "Gemini リクエストに失敗しました: 接続できませんでした");
    assert_eq!(request_error_message("Gemini", false, false), "Gemini リクエストに失敗しました: リクエストを完了できませんでした");
}

#[test]
fn builder_error_is_neither_timeout_nor_connect() {
    let error = reqwest::blocking::Client::new().post("https://example.invalid/")
        .header("x-goog-api-key", "a\nb").build().unwrap_err();
    assert_eq!(request_error("Gemini", error), "Gemini リクエストに失敗しました: リクエストを完了できませんでした");
}
