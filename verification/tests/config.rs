use english_input_assistant::config::{
    credential_service, credential_unavailable, credential_user, default_gemini_model,
    default_shortcut, default_tts_voice, key_deletion_result, key_from_lookup, key_store_result,
    plan_key_write, shortcut_change, KeyDeletion, KeyLookup, KeyWrite, Platform, ShortcutChange,
};

#[test]
fn default_settings() {
    assert_eq!(default_shortcut(Platform::MacOs), "Ctrl+Shift+Space");
    assert_eq!(default_shortcut(Platform::Windows), "Ctrl+Alt+Space");
    assert_eq!(default_shortcut(Platform::Other), "Ctrl+Alt+Space");
    assert_eq!(default_gemini_model(), "gemini-2.5-flash");
    assert_eq!(default_tts_voice(), "en-US-Standard-A");
}

#[test]
fn shortcut_is_registered_again_only_when_it_changed() {
    assert!(matches!(shortcut_change("Ctrl+Alt+Space", "Ctrl+Alt+Space"), ShortcutChange::Keep));
    assert!(matches!(shortcut_change("Ctrl+Alt+Space", ""), ShortcutChange::Clear));
    assert!(matches!(shortcut_change("", "Ctrl+Alt+T"), ShortcutChange::Replace));
    assert!(matches!(shortcut_change("", ""), ShortcutChange::Keep));
}

#[test]
fn stored_key_is_read_and_missing_key_is_empty() {
    assert_eq!(key_from_lookup(KeyLookup::Found("dummy-test-key".to_string())).unwrap(), "dummy-test-key");
    assert_eq!(key_from_lookup(KeyLookup::NoEntry).unwrap(), "");
    assert_eq!(
        key_from_lookup(KeyLookup::Failed).unwrap_err(),
        "システムの資格情報ストアから API キーを読み取れませんでした。ロックを解除するかアクセスを許可してから再試行してください。"
    );
}

#[test]
fn empty_key_deletes_the_entry() {
    assert!(matches!(plan_key_write(""), KeyWrite::Delete));
    assert!(matches!(plan_key_write("dummy-test-key"), KeyWrite::Store));
    assert!(key_deletion_result(KeyDeletion::Deleted).is_ok());
    assert!(key_deletion_result(KeyDeletion::NoEntry).is_ok());
    assert_eq!(
        key_deletion_result(KeyDeletion::Failed).unwrap_err(),
        "システムの資格情報ストアから API キーを削除できませんでした。"
    );
    assert!(key_store_result(true).is_ok());
    assert_eq!(
        key_store_result(false).unwrap_err(),
        "システムの資格情報ストアに API キーを保存できませんでした。アクセス許可を確認して再試行してください。"
    );
}

#[test]
fn credential_entry_names() {
    assert_eq!(credential_service(), "com.tetsu.english-input-assistant");
    assert_eq!(credential_user(), "google-api-key");
    assert_eq!(
        credential_unavailable(),
        "システムの資格情報ストアにアクセスできませんでした。アクセス許可を確認して再試行してください。"
    );
}
