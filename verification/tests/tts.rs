use english_input_assistant::tts::{
    allowed_voices, audio_from_field, check_voice, decode_audio, default_voice, is_allowed_voice,
    language_code, new_stop_signal, synthesis_audio, AudioCache,
};

#[test]
fn voices_offered_and_default() {
    let voices = allowed_voices();
    assert_eq!(voices.len(), 18);
    assert_eq!(voices[0].value, "en-US-Standard-A");
    assert_eq!(voices[0].label, "Standard-A（男性）");
    assert!(voices[0].is_default);
    assert!(voices.iter().skip(1).all(|v| !v.is_default));
    assert_eq!(voices[17].value, "en-US-Chirp3-HD-Puck");
    assert_eq!(voices[17].label, "Chirp 3 HD Puck（男性）");
    assert_eq!(default_voice(), "en-US-Standard-A");
    assert!(is_allowed_voice("en-US-Chirp3-HD-Kore"));
    assert!(is_allowed_voice(default_voice()));
}

#[test]
fn unknown_voice_is_refused() {
    assert!(check_voice("en-US-Standard-C").is_ok());
    assert_eq!(check_voice("en-GB-Standard-A").unwrap_err(), "無効な音声: en-GB-Standard-A");
}

#[test]
fn language_code_is_the_first_two_parts() {
    assert_eq!(language_code("en-US-Standard-C"), "en-US");
    assert_eq!(language_code("en-US-Chirp3-HD-Aoede"), "en-US");
    assert_eq!(language_code("en-US"), "en-US");
    assert_eq!(language_code("plain"), "plain");
}

#[test]
fn audio_is_decoded_from_standard_base64() {
    assert_eq!(decode_audio("SUQz").unwrap(), b"ID3".to_vec());
    assert_eq!(decode_audio("not base64!").unwrap_err(), "Base64 デコードエラー: Invalid symbol 32, offset 3.");
}

#[test]
fn synthesis_reply_yields_its_audio() {
    assert_eq!(synthesis_audio(r#"{"audioContent":"SUQz"}"#).unwrap(), b"ID3".to_vec());
    assert_eq!(
        synthesis_audio(r#"{"other":1}"#).unwrap_err(),
        "Google TTS のレスポンスに audioContent がありません"
    );
    assert_eq!(synthesis_audio("<html>").unwrap_err(), "Google TTS のレスポンスを読み取れませんでした。");
    assert!(synthesis_audio(r#"{"audioContent":"@@@"}"#).unwrap_err().starts_with("Base64 デコードエラー: "));
}

#[test]
fn cache_gives_back_what_was_inserted_last() {
    let mut cache = AudioCache::new();
    assert!(cache.get("hello|en-US-Standard-A|1").is_none());
    cache.insert("hello|en-US-Standard-A|1".to_string(), vec![1, 2, 3]);
    cache.insert("bye|en-US-Standard-A|1".to_string(), vec![9]);
    assert_eq!(cache.get("hello|en-US-Standard-A|1").unwrap(), vec![1, 2, 3]);
    cache.insert("hello|en-US-Standard-A|1".to_string(), vec![4]);
    assert_eq!(cache.get("hello|en-US-Standard-A|1").unwrap(), vec![4]);
    assert_eq!(cache.get("bye|en-US-Standard-A|1").unwrap(), vec![9]);
}

#[test]
fn new_stop_signal_is_not_raised() {
    let signal = new_stop_signal();
    assert!(!signal.load(std::sync::atomic::Ordering::Relaxed));
}

#[test]
fn audio_field_decides_the_reply() {
    assert_eq!(audio_from_field(None).unwrap_err(), "Google TTS のレスポンスを読み取れませんでした。");
    assert_eq!(audio_from_field(Some(None)).unwrap_err(), "Google TTS のレスポンスに audioContent がありません");
    assert_eq!(audio_from_field(Some(Some("SUQz".to_string()))).unwrap(), b"ID3".to_vec());
    assert!(audio_from_field(Some(Some("%%".to_string()))).unwrap_err().starts_with("Base64 デコードエラー: "));
}

#[test]
fn decode_error_text_follows_the_prefix() {
    assert_eq!(
        audio_from_field(Some(Some("ab!d".to_string()))).unwrap_err(),
        "Base64 デコードエラー: Invalid symbol 33, offset 2."
    );
}
