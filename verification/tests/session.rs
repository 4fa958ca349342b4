use english_input_assistant::session::{
    classify_capture, ensure_current, require_api_key, restore_copied_message, retry_delay_ms,
    unusable_capture_message, CapturedText, Session, ShortcutStart, MAX_TEXT_LENGTH,
};

#[test]
fn shortcut_starts_a_new_request_only_without_an_outstanding_cut() {
    let mut session = Session::new();
    assert!(matches!(session.start_shortcut(), ShortcutStart::Capture(1)));
    session.accept_capture(1, "元の文".to_string(), 77);
    assert!(matches!(session.start_shortcut(), ShortcutStart::ShowPending));
    assert_eq!(session.translation_id(), 1);
    assert_eq!(session.current().unwrap().source, 77);
}

#[test]
fn finished_paste_cannot_paste_or_restore_again() {
    let mut session = Session::new();
    let id = match session.start_shortcut() {
        ShortcutStart::Capture(id) => id,
        ShortcutStart::ShowPending => panic!("no cut is outstanding"),
    };
    session.accept_capture(id, "original".to_string(), 5);
    assert_eq!(session.paste_target(id).unwrap(), 5);
    session.paste_done(id);
    assert!(!session.is_current(id));
    assert_eq!(session.paste_target(id).unwrap_err(), "この翻訳はすでに終了しています。");
    assert!(session.begin_restore(id).is_none());
}

#[test]
fn restore_consumes_the_selection_first() {
    let mut session = Session::new();
    session.start_shortcut();
    session.accept_capture(1, "original".to_string(), 5);
    let selection = session.begin_restore(1).unwrap();
    assert_eq!(selection.text, "original");
    assert_eq!(session.translation_id(), 2);
    assert!(session.begin_restore(1).is_none());
    // Pasting back failed and the clipboard could not be written either.
    let (notice, error) = session.restore_failed(selection, "フォーカスエラー", false);
    assert!(notice.is_none());
    assert_eq!(error, "原文を復元できませんでした。もう一度お試しください。");
    assert_eq!(session.current().unwrap().text, "original");
}

#[test]
fn restore_copied_to_clipboard_asks_for_manual_restore() {
    let mut session = Session::new();
    session.start_shortcut();
    session.accept_capture(1, "original".to_string(), 5);
    let selection = session.begin_restore(1).unwrap();
    let (notice, error) = session.restore_failed(selection, "E.", true);
    assert_eq!(notice.unwrap(), "E. 原文をクリップボードにコピーしました。貼り付け先を確認して手動で復元してください。");
    assert_eq!(error, "原文はクリップボードから手動で復元してください。");
    assert!(session.current().is_none());
    assert_eq!(restore_copied_message("E."), "E. 原文をクリップボードにコピーしました。貼り付け先を確認して手動で復元してください。");
}

#[test]
fn retry_moves_the_selection_to_a_new_request() {
    let mut session = Session::new();
    session.start_shortcut();
    session.accept_capture(1, "private original".to_string(), 100);
    let (next, selection) = session.retry(1).unwrap();
    assert_eq!(next, 2);
    assert_eq!(selection.request_id, 2);
    assert_eq!(selection.text, "private original");
    assert_eq!(selection.source, 100);
    assert!(session.is_current(2));
    assert_eq!(session.retry(1).unwrap_err(), "再試行できる翻訳がありません。");
    assert_eq!(session.paste_target(2).unwrap(), 100);
}

#[test]
fn captured_text_is_judged_by_content_and_byte_length() {
    assert!(matches!(classify_capture(""), CapturedText::Empty));
    assert!(matches!(classify_capture(" \n\t\u{3000}"), CapturedText::Unusable));
    assert!(matches!(classify_capture("こんにちは"), CapturedText::Usable));
    let at_limit = "a".repeat(MAX_TEXT_LENGTH);
    assert!(matches!(classify_capture(&at_limit), CapturedText::Usable));
    let over_limit = "あ".repeat(1667);
    assert!(matches!(classify_capture(&over_limit), CapturedText::Unusable));
}

#[test]
fn unusable_capture_messages() {
    assert_eq!(
        unusable_capture_message(Ok(())),
        "テキストが空白のみ、または長すぎます（最大 5000 バイト）。短いテキストを選択してください。"
    );
    assert_eq!(
        unusable_capture_message(Err("貼り付けに失敗しました。".to_string())),
        "貼り付けに失敗しました。 原文はクリップボードから手動で復元してください。"
    );
}

#[test]
fn retries_wait_longer_and_stop_after_three_attempts() {
    assert_eq!(retry_delay_ms(1, false, true), Some(500));
    assert_eq!(retry_delay_ms(2, false, true), Some(1000));
    assert_eq!(retry_delay_ms(3, false, true), None);
    assert_eq!(retry_delay_ms(1, true, true), None);
    assert_eq!(retry_delay_ms(1, false, false), None);
}

#[test]
fn cancelled_and_missing_key_messages() {
    assert!(ensure_current(true).is_ok());
    assert_eq!(ensure_current(false).unwrap_err(), "翻訳をキャンセルしました");
    assert!(require_api_key("AIza").is_ok());
    assert_eq!(
        require_api_key("").unwrap_err(),
        "API キーが設定されていません。設定画面で Google API キーを登録してください。"
    );
}
